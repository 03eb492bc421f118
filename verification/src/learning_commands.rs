use vstd::prelude::*;
use crate::app_error::{is_not_found, is_validation, AppError};
use crate::judge::{collect_target_notes, judge_spec, target_notes_spec, PracticeJudge};
use crate::learning::{
    AttemptId, AttemptView, Exercise, ExerciseId, ExerciseView, PlayableRange, PracticeAttempt, PracticeSession,
    PracticeSessionId, PracticeSessionStatus, Practiced, SessionView, UserPerformance,
};
use crate::music::{ArrangementId, BeatSpan, MusicPiece, MusicPieceId, Note, PieceView};
use crate::music_commands::{first_arrangement, position_of_arrangement};
use crate::text::{owned, push_str};

verus! {

/// A request to start practising an arrangement. The target speed is in
/// thousandths of the written tempo.
#[derive(Debug, Clone)]
pub struct StartPracticeSessionCommand {
    pub session_id: PracticeSessionId,
    pub piece_id: MusicPieceId,
    pub arrangement_id: ArrangementId,
    pub exercise_id: ExerciseId,
    pub segment: Option<BeatSpan>,
    pub target_speed_permille: i64,
    pub playable_range: Option<PlayableRange>,
    pub started_at: String,
}

/// A request to record an attempt. The performed notes and the tolerance
/// count ticks of the score of the session's arrangement.
#[derive(Debug, Clone)]
pub struct RecordPracticeAttemptCommand {
    pub session_id: PracticeSessionId,
    pub attempt_id: AttemptId,
    pub performance: UserPerformance,
    pub timing_tolerance_ticks: i64,
    pub recorded_at: String,
}

#[derive(Debug, Clone)]
pub struct CompletePracticeSessionCommand {
    pub session_id: PracticeSessionId,
    pub ended_at: String,
}

#[derive(Debug, Clone)]
pub struct AbandonPracticeSessionCommand {
    pub session_id: PracticeSessionId,
    pub ended_at: String,
}

#[derive(Debug, Clone)]
pub struct StartPracticeSessionResult {
    pub session: PracticeSession,
}

#[derive(Debug, Clone)]
pub struct RecordPracticeAttemptResult {
    pub session: PracticeSession,
    pub attempt: PracticeAttempt,
}

// ---------------------------------------------------------------------------
// Starting a session.

/// The first check of a start: the target speed must be positive.
pub fn check_target_speed(input: &StartPracticeSessionCommand) -> (r: Result<(), AppError>)
    ensures
        r is Ok <==> input.target_speed_permille > 0,
        r matches Err(e) ==> is_validation(e, "practice target speed must be positive"@),
{
    if input.target_speed_permille <= 0 {
        return Err(AppError::validation(owned("practice target speed must be positive")));
    }
    Ok(())
}

/// The second check of a start: the piece must exist and have the arrangement.
pub fn check_practice_piece(piece: Option<&MusicPiece>, arrangement_id: &ArrangementId) -> (r: Result<(), AppError>)
    ensures
        piece is None ==> (r matches Err(e) && is_not_found(e, "music piece"@)),
        piece matches Some(p) ==> match first_arrangement(p@.arrangements, arrangement_id@) {
            Some(_) => r is Ok,
            None => r matches Err(e) && is_not_found(e, "piano arrangement"@),
        },
{
    match piece {
        None => Err(AppError::not_found(owned("music piece"))),
        Some(p) => {
            if position_of_arrangement(p, arrangement_id).is_none() {
                return Err(AppError::not_found(owned("piano arrangement")));
            }
            Ok(())
        },
    }
}

/// The message of starting a session whose identity is taken.
pub open spec fn session_exists_message(id: Seq<char>) -> Seq<char> {
    "practice session already exists: "@ + id
}

/// The session a start request makes: active, with no attempt and no end.
pub open spec fn started_session(input: StartPracticeSessionCommand) -> SessionView {
    SessionView {
        id: input.session_id@,
        piece_id: input.piece_id@,
        arrangement_id: input.arrangement_id@,
        exercise: ExerciseView {
            id: input.exercise_id@,
            segment: input.segment,
            target_speed_permille: input.target_speed_permille,
            playable_range: input.playable_range,
        },
        attempts: Seq::empty(),
        status: PracticeSessionStatus::Active,
        started_at: input.started_at@,
        ended_at: None,
    }
}

/// The last step of a start: refused when a session has the identity already,
/// otherwise the new active session.
pub fn new_session(input: StartPracticeSessionCommand, session_exists: bool) -> (r: Result<StartPracticeSessionResult, AppError>)
    ensures
        session_exists ==> (r matches Err(e) && is_validation(e, session_exists_message(input.session_id@))),
        !session_exists ==> (r matches Ok(res) && res.session@ == started_session(input)),
        r matches Ok(res) ==> {
            &&& res.session.exercise.target_speed_permille == input.target_speed_permille
            &&& res.session.exercise.segment == input.segment
            &&& res.session.exercise.playable_range == input.playable_range
            &&& res.session.exercise.id@ == input.exercise_id@
            &&& res.session.status == PracticeSessionStatus::Active
            &&& res.session.attempts@.len() == 0
        },
{
    if session_exists {
        let mut message = owned("practice session already exists: ");
        push_str(&mut message, input.session_id.as_str());
        return Err(AppError::validation(message));
    }
    let session = PracticeSession {
        id: input.session_id,
        piece_id: input.piece_id,
        arrangement_id: input.arrangement_id,
        exercise: Exercise {
            id: input.exercise_id,
            segment: input.segment,
            target_speed_permille: input.target_speed_permille,
            playable_range: input.playable_range,
        },
        attempts: Vec::new(),
        status: PracticeSessionStatus::Active,
        started_at: input.started_at,
        ended_at: None,
    };
    proof {
        assert(session@.attempts =~= Seq::<AttemptView>::empty());
    }
    Ok(StartPracticeSessionResult { session })
}

// ---------------------------------------------------------------------------
// Recording an attempt.

/// The first check of an attempt: the session must exist and be active.
pub fn session_for_attempt(found: Option<PracticeSession>) -> (r: Result<PracticeSession, AppError>)
    ensures
        found is None ==> (r matches Err(e) && is_not_found(e, "practice session"@)),
        found is Some && found->0.status != PracticeSessionStatus::Active
            ==> (r matches Err(e) && is_validation(e, "practice session is not active"@)),
        found is Some && found->0.status == PracticeSessionStatus::Active ==> (r matches Ok(t) && t@ == found->0@),
{
    match found {
        None => Err(AppError::not_found(owned("practice session"))),
        Some(s) => {
            if s.status != PracticeSessionStatus::Active {
                return Err(AppError::validation(owned("practice session is not active")));
            }
            Ok(s)
        },
    }
}

/// The judgements of a performance in a session on an arrangement: the
/// performance judged against the notes the exercise asks for, with the
/// tolerance, or none when it is negative.
pub open spec fn attempt_judgements(session: SessionView, arrangement: crate::music::ArrangementView, performance: Seq<Note>, tolerance: i64) -> Seq<crate::learning::Judgement> {
    judge_spec(
        target_notes_spec_of_parts(arrangement.score.parts, session.exercise.segment, session.exercise.playable_range),
        performance,
        if tolerance < 0 { 0 } else { tolerance as int },
    )
}

/// The notes an exercise asks for, from the plain values of the parts.
pub open spec fn target_notes_spec_of_parts(parts: Seq<crate::music::PartView>, segment: Option<BeatSpan>, range: Option<PlayableRange>) -> Seq<Note> {
    crate::judge::sorted_by_start(targets_in_part_views(parts, segment, range))
}

/// The targets of the parts, part after part, from their plain values.
pub open spec fn targets_in_part_views(parts: Seq<crate::music::PartView>, segment: Option<BeatSpan>, range: Option<PlayableRange>) -> Seq<Note>
    decreases parts.len(),
{
    if parts.len() == 0 {
        Seq::empty()
    } else {
        targets_in_part_views(parts.drop_last(), segment, range) + crate::judge::targets_in(parts.last().notes, segment, range)
    }
}

proof fn lemma_targets_of_views(parts: Seq<crate::music::ScorePart>, segment: Option<BeatSpan>, range: Option<PlayableRange>)
    ensures
        crate::judge::targets_in_parts(parts, segment, range)
            == targets_in_part_views(parts.map_values(|p: crate::music::ScorePart| p@), segment, range),
    decreases parts.len(),
{
    if parts.len() > 0 {
        lemma_targets_of_views(parts.drop_last(), segment, range);
        assert(parts.map_values(|p: crate::music::ScorePart| p@).drop_last()
            =~= parts.drop_last().map_values(|p: crate::music::ScorePart| p@));
    }
}

/// A session with one more attempt, after its earlier ones; everything else
/// as it was.
pub open spec fn session_with_attempt(session: SessionView, attempt: AttemptView) -> SessionView {
    SessionView { attempts: session.attempts.push(attempt), ..session }
}

/// A session ended with a status at a time; everything else as it was.
pub open spec fn ended_session(session: SessionView, status: PracticeSessionStatus, ended_at: Seq<char>) -> SessionView {
    SessionView { status, ended_at: Some(ended_at), ..session }
}

/// The attempt a request records with the given judgements.
pub open spec fn recorded_attempt(input: RecordPracticeAttemptCommand, judgements: Seq<crate::learning::Judgement>) -> AttemptView {
    AttemptView {
        id: input.attempt_id@,
        performance: input.performance.notes@,
        judgements,
        recorded_at: input.recorded_at@,
    }
}

/// Records an attempt in an active session: refused when the piece or its
/// arrangement is gone; otherwise the performance is judged against the
/// notes the exercise asks for (a negative tolerance counting as none), and
/// the attempt is added after the session's earlier ones.
pub fn record_attempt(session: PracticeSession, piece: Option<&MusicPiece>, input: RecordPracticeAttemptCommand) -> (r: Result<RecordPracticeAttemptResult, AppError>)
    ensures
        piece is None ==> (r matches Err(e) && is_not_found(e, "music piece"@)),
        piece matches Some(p) ==> match first_arrangement(p@.arrangements, session@.arrangement_id) {
            None => r matches Err(e) && is_not_found(e, "piano arrangement"@),
            Some(k) => r matches Ok(res) && ({
                let attempt = recorded_attempt(input, attempt_judgements(session@, p@.arrangements[k], input.performance.notes@, input.timing_tolerance_ticks));
                &&& res.attempt@ == attempt
                &&& res.session@ == session_with_attempt(session@, attempt)
            }),
        },
{
    let p = match piece {
        Some(p) => p,
        None => {
            return Err(AppError::not_found(owned("music piece")));
        },
    };
    let k = match position_of_arrangement(p, &session.arrangement_id) {
        Some(k) => k,
        None => {
            return Err(AppError::not_found(owned("piano arrangement")));
        },
    };
    let arrangement = &p.arrangements[k];
    let range = match &session.exercise.playable_range {
        Some(r) => Some(r),
        None => None,
    };
    let targets = collect_target_notes(&arrangement.score.parts, session.exercise.segment, range);
    let tolerance = if input.timing_tolerance_ticks < 0 { 0 } else { input.timing_tolerance_ticks };
    let judgements = PracticeJudge::judge(&targets, &input.performance, tolerance);
    proof {
        lemma_targets_of_views(arrangement.score.parts@, session.exercise.segment, session.exercise.playable_range);
        assert(arrangement.score@.parts == arrangement.score.parts@.map_values(|q: crate::music::ScorePart| q@));
        assert(p@.arrangements[k as int] == arrangement@);
    }
    let attempt = PracticeAttempt {
        id: input.attempt_id,
        performance: input.performance,
        judgements,
        recorded_at: input.recorded_at,
    };
    let mut session = session;
    let ghost before = session@;
    session.attempts.push(attempt.copy());
    proof {
        assert(session@.attempts =~= before.attempts.push(attempt@));
    }
    Ok(RecordPracticeAttemptResult { session, attempt })
}

/// Reacts to learning events; it has nothing to do yet.
#[derive(Debug, Clone, Copy, Default)]
pub struct LearningEventHandler;

impl LearningEventHandler {
    pub fn new() -> (r: Self) {
        LearningEventHandler
    }

    /// Handles a recorded attempt: nothing to do, so it succeeds.
    pub fn handle_practiced(&self, event: &Practiced) -> (r: Result<(), AppError>)
        ensures
            r is Ok,
    {
        Ok(())
    }
}

/// The event that announces an attempt in a session.
pub fn practiced(session: &PracticeSession) -> (r: Practiced)
    ensures
        r.session_id@ == session.id@,
        r.piece_id@ == session.piece_id@,
{
    Practiced { session_id: session.id.copy(), piece_id: session.piece_id.copy() }
}

// ---------------------------------------------------------------------------
// Ending a session.

/// Ends a session with the given status: refused when there is no session or
/// when it is no longer active; otherwise the session takes the status and
/// the end time, and keeps everything else.
pub fn finish_session(found: Option<PracticeSession>, status: PracticeSessionStatus, ended_at: String) -> (r: Result<PracticeSession, AppError>)
    ensures
        found is None ==> (r matches Err(e) && is_not_found(e, "practice session"@)),
        found is Some && found->0.status != PracticeSessionStatus::Active
            ==> (r matches Err(e) && is_validation(e, "practice session is already finished"@)),
        found is Some && found->0.status == PracticeSessionStatus::Active
            ==> (r matches Ok(t) && t@ == ended_session(found->0@, status, ended_at@)),
{
    let mut session = match found {
        Some(s) => s,
        None => {
            return Err(AppError::not_found(owned("practice session")));
        },
    };
    if session.status != PracticeSessionStatus::Active {
        return Err(AppError::validation(owned("practice session is already finished")));
    }
    session.status = status;
    session.ended_at = Some(ended_at);
    Ok(session)
}

/// Completes the session found for the request.
pub fn complete_session(found: Option<PracticeSession>, input: CompletePracticeSessionCommand) -> (r: Result<PracticeSession, AppError>)
    ensures
        found is None ==> (r matches Err(e) && is_not_found(e, "practice session"@)),
        found is Some && found->0.status != PracticeSessionStatus::Active
            ==> (r matches Err(e) && is_validation(e, "practice session is already finished"@)),
        found is Some && found->0.status == PracticeSessionStatus::Active
            ==> (r matches Ok(t) && t@ == ended_session(found->0@, PracticeSessionStatus::Completed, input.ended_at@)),
{
    finish_session(found, PracticeSessionStatus::Completed, input.ended_at)
}

/// Abandons the session found for the request.
pub fn abandon_session(found: Option<PracticeSession>, input: AbandonPracticeSessionCommand) -> (r: Result<PracticeSession, AppError>)
    ensures
        found is None ==> (r matches Err(e) && is_not_found(e, "practice session"@)),
        found is Some && found->0.status != PracticeSessionStatus::Active
            ==> (r matches Err(e) && is_validation(e, "practice session is already finished"@)),
        found is Some && found->0.status == PracticeSessionStatus::Active
            ==> (r matches Ok(t) && t@ == ended_session(found->0@, PracticeSessionStatus::Abandoned, input.ended_at@)),
{
    finish_session(found, PracticeSessionStatus::Abandoned, input.ended_at)
}

/// A started session practises what was asked: its exercise keeps the
/// requested target speed, segment, playable range and exercise, it belongs
/// to the requested session, piece and arrangement, and it is active, with no
/// attempt and no end yet.
pub proof fn lemma_started_session_keeps_the_request(input: StartPracticeSessionCommand)
    ensures
        ({
            let s = started_session(input);
            &&& s.exercise.target_speed_permille == input.target_speed_permille
            &&& s.exercise.segment == input.segment
            &&& s.exercise.playable_range == input.playable_range
            &&& s.exercise.id == input.exercise_id@
            &&& s.id == input.session_id@
            &&& s.piece_id == input.piece_id@
            &&& s.arrangement_id == input.arrangement_id@
            &&& s.status == PracticeSessionStatus::Active
            &&& s.attempts.len() == 0
            &&& s.started_at == input.started_at@
            &&& s.ended_at is None
        }),
{
}

} // verus!
