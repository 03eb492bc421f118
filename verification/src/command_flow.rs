use vstd::prelude::*;
use crate::app_error::{is_not_found, is_validation, AppError};
use crate::learning::{PracticeSession, PracticeSessionId, PracticeSessionStatus};
use crate::learning_commands::{
    attempt_judgements, check_practice_piece, check_target_speed, ended_session, finish_session, new_session,
    practiced, record_attempt, recorded_attempt, session_exists_message, session_for_attempt, session_with_attempt,
    started_session, LearningEventHandler, RecordPracticeAttemptCommand, RecordPracticeAttemptResult,
    StartPracticeSessionCommand, StartPracticeSessionResult,
};
use crate::music::{MusicPiece, MusicPieceId};
use crate::music_commands::{
    first_arrangement, check_piece_title, create_piece, created_piece, import_arrangement, imported_arrangement, piece_after_import,
    piece_created, piece_exists_message, total_notes, CreateMusicPieceCommand, CreateMusicPieceResult,
    ImportPianoArrangementCommand, ImportPianoArrangementResult, MusicEventHandler,
};
use crate::text::trim_spec;

verus! {

// ---------------------------------------------------------------------------
// The use cases as steps: each step takes what the last port call gave back
// and says which port to call next. A refusal or a failed call ends the use
// case with its error, and no port is called after it; a write comes after
// every read and check has passed, once; an event follows the write.

/// A call to a repository that a use case asks for, or `Done` when it has
/// its outcome.
#[derive(Debug)]
pub enum PortCall {
    FindPiece(MusicPieceId),
    FindSession(PracticeSessionId),
    SavePiece(MusicPiece),
    SaveSession(PracticeSession),
    Done,
}

/// What a repository call gave back.
#[derive(Debug)]
pub enum PortReply {
    PieceFound(Option<MusicPiece>),
    SessionFound(Option<PracticeSession>),
    Saved,
    Failed(AppError),
}

// ----- Creating a piece.

#[derive(Debug)]
pub enum CreatePieceFlow {
    /// Looking for a piece with the identity; whether to announce the creation.
    FindingPiece(CreateMusicPieceCommand, bool),
    /// Saving the new piece.
    Saving(CreateMusicPieceResult, bool),
    Finished(Result<CreateMusicPieceResult, AppError>),
}

pub open spec fn create_piece_accepts(flow: CreatePieceFlow, reply: PortReply) -> bool {
    match flow {
        CreatePieceFlow::FindingPiece(..) => reply is PieceFound || reply is Failed,
        CreatePieceFlow::Saving(..) => reply is Saved || reply is Failed,
        CreatePieceFlow::Finished(_) => false,
    }
}

pub fn create_piece_accepts_reply(flow: &CreatePieceFlow, reply: &PortReply) -> (r: bool)
    ensures
        r == create_piece_accepts(*flow, *reply),
{
    match flow {
        CreatePieceFlow::FindingPiece(..) => matches!(reply, PortReply::PieceFound(_)) || matches!(reply, PortReply::Failed(_)),
        CreatePieceFlow::Saving(..) => matches!(reply, PortReply::Saved) || matches!(reply, PortReply::Failed(_)),
        CreatePieceFlow::Finished(_) => false,
    }
}

/// Creating a piece begins with its title: refused, with no call, when it is
/// empty once trimmed; otherwise the piece's identity is looked up.
pub fn begin_create_piece(input: CreateMusicPieceCommand, announce: bool) -> (r: (CreatePieceFlow, PortCall))
    ensures
        trim_spec(input.title@).len() == 0 ==> r.1 is Done
            && (r.0 matches CreatePieceFlow::Finished(Err(e)) && is_validation(e, "music piece title is empty"@)),
        trim_spec(input.title@).len() > 0 ==> r.0 == CreatePieceFlow::FindingPiece(input, announce)
            && (r.1 matches PortCall::FindPiece(id) && id@ == input.piece_id@),
{
    match check_piece_title(input.title.as_str()) {
        Err(e) => (CreatePieceFlow::Finished(Err(e)), PortCall::Done),
        Ok(_) => {
            let id = input.piece_id.copy();
            (CreatePieceFlow::FindingPiece(input, announce), PortCall::FindPiece(id))
        },
    }
}

/// The next step of creating a piece: refused when a piece has the identity
/// (nothing is saved); otherwise the new piece is saved, and only then is
/// its creation announced.
pub fn create_piece_step(flow: CreatePieceFlow, reply: PortReply) -> (r: (CreatePieceFlow, PortCall))
    requires
        create_piece_accepts(flow, reply),
    ensures
        r.1 is Done <==> r.0 is Finished,
        reply matches PortReply::Failed(e) ==> r.0 == CreatePieceFlow::Finished(Err(e)),
        flow matches CreatePieceFlow::FindingPiece(input, announce) ==> (reply matches PortReply::PieceFound(found) ==> {
            &&& trim_spec(input.title@).len() == 0 ==> (r.0 matches CreatePieceFlow::Finished(Err(e))
                && is_validation(e, "music piece title is empty"@))
            &&& trim_spec(input.title@).len() > 0 && found is Some ==> (r.0 matches CreatePieceFlow::Finished(Err(e))
                && is_validation(e, piece_exists_message(input.piece_id@)))
            &&& trim_spec(input.title@).len() > 0 && found is None ==> {
                &&& r.0 matches CreatePieceFlow::Saving(res, a) && res.piece@ == created_piece(input) && a == announce
                &&& r.1 matches PortCall::SavePiece(p) && p@ == created_piece(input)
            }
        }),
        flow matches CreatePieceFlow::Saving(res, _) ==> (reply is Saved ==> r.0 == CreatePieceFlow::Finished(Ok(res))),
{
    match reply {
        PortReply::Failed(e) => (CreatePieceFlow::Finished(Err(e)), PortCall::Done),
        PortReply::PieceFound(found) => match flow {
            CreatePieceFlow::FindingPiece(input, announce) => match create_piece(input, found.is_some()) {
                Err(e) => (CreatePieceFlow::Finished(Err(e)), PortCall::Done),
                Ok(res) => {
                    let piece = res.piece.copy();
                    (CreatePieceFlow::Saving(res, announce), PortCall::SavePiece(piece))
                },
            },
            _ => {
                proof {
                    assert(false);
                }
                (CreatePieceFlow::Finished(Err(AppError::upstream(crate::text::owned("")))), PortCall::Done)
            },
        },
        _ => match flow {
            CreatePieceFlow::Saving(res, announce) => {
                if announce {
                    match MusicEventHandler::new().handle_music_piece_created(&piece_created(&res.piece)) {
                        Err(e) => {
                            return (CreatePieceFlow::Finished(Err(e)), PortCall::Done);
                        },
                        Ok(()) => {},
                    }
                }
                (CreatePieceFlow::Finished(Ok(res)), PortCall::Done)
            },
            _ => {
                proof {
                    assert(false);
                }
                (CreatePieceFlow::Finished(Err(AppError::upstream(crate::text::owned("")))), PortCall::Done)
            },
        },
    }
}

// ----- Importing an arrangement.

#[derive(Debug)]
pub enum ImportFlow {
    FindingPiece(ImportPianoArrangementCommand),
    Saving(ImportPianoArrangementResult),
    Finished(Result<ImportPianoArrangementResult, AppError>),
}

pub open spec fn import_accepts(flow: ImportFlow, reply: PortReply) -> bool {
    match flow {
        ImportFlow::FindingPiece(..) => reply is PieceFound || reply is Failed,
        ImportFlow::Saving(..) => reply is Saved || reply is Failed,
        ImportFlow::Finished(_) => false,
    }
}

pub fn import_accepts_reply(flow: &ImportFlow, reply: &PortReply) -> (r: bool)
    ensures
        r == import_accepts(*flow, *reply),
{
    match flow {
        ImportFlow::FindingPiece(..) => matches!(reply, PortReply::PieceFound(_)) || matches!(reply, PortReply::Failed(_)),
        ImportFlow::Saving(..) => matches!(reply, PortReply::Saved) || matches!(reply, PortReply::Failed(_)),
        ImportFlow::Finished(_) => false,
    }
}

/// Importing an arrangement begins by looking up its piece.
pub fn begin_import(input: ImportPianoArrangementCommand) -> (r: (ImportFlow, PortCall))
    ensures
        r.0 == ImportFlow::FindingPiece(input),
        r.1 matches PortCall::FindPiece(id) && id@ == input.piece_id@,
{
    let id = input.piece_id.copy();
    (ImportFlow::FindingPiece(input), PortCall::FindPiece(id))
}

/// The next step of an import: refused when there is no piece, the title
/// is empty once trimmed or the score holds no note (nothing is saved);
/// otherwise the piece with the arrangement is saved.
pub fn import_step(flow: ImportFlow, reply: PortReply) -> (r: (ImportFlow, PortCall))
    requires
        import_accepts(flow, reply),
    ensures
        r.1 is Done <==> r.0 is Finished,
        reply matches PortReply::Failed(e) ==> r.0 == ImportFlow::Finished(Err(e)),
        flow matches ImportFlow::FindingPiece(input) ==> (reply matches PortReply::PieceFound(found) ==> {
            &&& found is None ==> (r.0 matches ImportFlow::Finished(Err(e)) && is_not_found(e, "music piece"@))
            &&& found is Some && trim_spec(input.title@).len() == 0
                ==> (r.0 matches ImportFlow::Finished(Err(e)) && is_validation(e, "arrangement title is empty"@))
            &&& found is Some && trim_spec(input.title@).len() > 0 && total_notes(input.score@.parts) == 0
                ==> (r.0 matches ImportFlow::Finished(Err(e)) && is_validation(e, "arrangement score contains no notes"@))
            &&& found is Some && trim_spec(input.title@).len() > 0 && total_notes(input.score@.parts) > 0 ==> {
                &&& r.0 matches ImportFlow::Saving(res) && res.arrangement@ == imported_arrangement(input)
                    && res.piece@ == piece_after_import(found->0@, input)
                &&& r.1 matches PortCall::SavePiece(p) && p@ == piece_after_import(found->0@, input)
            }
        }),
        flow matches ImportFlow::Saving(res) ==> (reply is Saved ==> r.0 == ImportFlow::Finished(Ok(res))),
{
    match reply {
        PortReply::Failed(e) => (ImportFlow::Finished(Err(e)), PortCall::Done),
        PortReply::PieceFound(found) => match flow {
            ImportFlow::FindingPiece(input) => match import_arrangement(found, input) {
                Err(e) => (ImportFlow::Finished(Err(e)), PortCall::Done),
                Ok(res) => {
                    let piece = res.piece.copy();
                    (ImportFlow::Saving(res), PortCall::SavePiece(piece))
                },
            },
            _ => {
                proof {
                    assert(false);
                }
                (ImportFlow::Finished(Err(AppError::upstream(crate::text::owned("")))), PortCall::Done)
            },
        },
        _ => match flow {
            ImportFlow::Saving(res) => (ImportFlow::Finished(Ok(res)), PortCall::Done),
            _ => {
                proof {
                    assert(false);
                }
                (ImportFlow::Finished(Err(AppError::upstream(crate::text::owned("")))), PortCall::Done)
            },
        },
    }
}

// ----- Starting a session.

#[derive(Debug)]
pub enum StartSessionFlow {
    FindingPiece(StartPracticeSessionCommand),
    FindingSession(StartPracticeSessionCommand),
    Saving(StartPracticeSessionResult),
    Finished(Result<StartPracticeSessionResult, AppError>),
}

pub open spec fn start_session_accepts(flow: StartSessionFlow, reply: PortReply) -> bool {
    match flow {
        StartSessionFlow::FindingPiece(..) => reply is PieceFound || reply is Failed,
        StartSessionFlow::FindingSession(..) => reply is SessionFound || reply is Failed,
        StartSessionFlow::Saving(..) => reply is Saved || reply is Failed,
        StartSessionFlow::Finished(_) => false,
    }
}

pub fn start_session_accepts_reply(flow: &StartSessionFlow, reply: &PortReply) -> (r: bool)
    ensures
        r == start_session_accepts(*flow, *reply),
{
    match flow {
        StartSessionFlow::FindingPiece(..) => matches!(reply, PortReply::PieceFound(_)) || matches!(reply, PortReply::Failed(_)),
        StartSessionFlow::FindingSession(..) => matches!(reply, PortReply::SessionFound(_)) || matches!(reply, PortReply::Failed(_)),
        StartSessionFlow::Saving(..) => matches!(reply, PortReply::Saved) || matches!(reply, PortReply::Failed(_)),
        StartSessionFlow::Finished(_) => false,
    }
}

/// Starting a session begins with its target speed: refused, with no call,
/// unless it is positive; otherwise the piece is looked up.
pub fn begin_start_session(input: StartPracticeSessionCommand) -> (r: (StartSessionFlow, PortCall))
    ensures
        input.target_speed_permille <= 0 ==> r.1 is Done && (r.0 matches StartSessionFlow::Finished(Err(e))
            && is_validation(e, "practice target speed must be positive"@)),
        input.target_speed_permille > 0 ==> r.0 == StartSessionFlow::FindingPiece(input)
            && (r.1 matches PortCall::FindPiece(id) && id@ == input.piece_id@),
{
    match check_target_speed(&input) {
        Err(e) => (StartSessionFlow::Finished(Err(e)), PortCall::Done),
        Ok(()) => {
            let id = input.piece_id.copy();
            (StartSessionFlow::FindingPiece(input), PortCall::FindPiece(id))
        },
    }
}

/// The next step of a start: refused when the piece or its arrangement is
/// missing, or when a session has the identity (nothing is saved then);
/// otherwise the new active session is saved.
pub fn start_session_step(flow: StartSessionFlow, reply: PortReply) -> (r: (StartSessionFlow, PortCall))
    requires
        start_session_accepts(flow, reply),
    ensures
        r.1 is Done <==> r.0 is Finished,
        reply matches PortReply::Failed(e) ==> r.0 == StartSessionFlow::Finished(Err(e)),
        flow matches StartSessionFlow::FindingPiece(input) ==> (reply matches PortReply::PieceFound(found) ==> {
            &&& found is None ==> (r.0 matches StartSessionFlow::Finished(Err(e)) && is_not_found(e, "music piece"@))
            &&& found is Some && first_arrangement(found->0@.arrangements, input.arrangement_id@) is None
                ==> (r.0 matches StartSessionFlow::Finished(Err(e)) && is_not_found(e, "piano arrangement"@))
            &&& found is Some && first_arrangement(found->0@.arrangements, input.arrangement_id@) is Some ==> {
                &&& r.0 == StartSessionFlow::FindingSession(input)
                &&& r.1 matches PortCall::FindSession(id) && id@ == input.session_id@
            }
        }),
        flow matches StartSessionFlow::FindingSession(input) ==> (reply matches PortReply::SessionFound(found) ==> {
            &&& found is Some ==> (r.0 matches StartSessionFlow::Finished(Err(e))
                && is_validation(e, session_exists_message(input.session_id@)))
            &&& found is None ==> {
                &&& r.0 matches StartSessionFlow::Saving(res) && res.session@ == started_session(input)
                &&& r.1 matches PortCall::SaveSession(t) && t@ == started_session(input)
            }
        }),
        flow matches StartSessionFlow::Saving(res) ==> (reply is Saved ==> r.0 == StartSessionFlow::Finished(Ok(res))),
{
    match reply {
        PortReply::Failed(e) => (StartSessionFlow::Finished(Err(e)), PortCall::Done),
        PortReply::PieceFound(found) => match flow {
            StartSessionFlow::FindingPiece(input) => match check_practice_piece(found.as_ref(), &input.arrangement_id) {
                Err(e) => (StartSessionFlow::Finished(Err(e)), PortCall::Done),
                Ok(()) => {
                    let id = input.session_id.copy();
                    (StartSessionFlow::FindingSession(input), PortCall::FindSession(id))
                },
            },
            _ => {
                proof {
                    assert(false);
                }
                (StartSessionFlow::Finished(Err(AppError::upstream(crate::text::owned("")))), PortCall::Done)
            },
        },
        PortReply::SessionFound(found) => match flow {
            StartSessionFlow::FindingSession(input) => match new_session(input, found.is_some()) {
                Err(e) => (StartSessionFlow::Finished(Err(e)), PortCall::Done),
                Ok(res) => {
                    let session = res.session.copy();
                    (StartSessionFlow::Saving(res), PortCall::SaveSession(session))
                },
            },
            _ => {
                proof {
                    assert(false);
                }
                (StartSessionFlow::Finished(Err(AppError::upstream(crate::text::owned("")))), PortCall::Done)
            },
        },
        PortReply::Saved => match flow {
            StartSessionFlow::Saving(res) => (StartSessionFlow::Finished(Ok(res)), PortCall::Done),
            _ => {
                proof {
                    assert(false);
                }
                (StartSessionFlow::Finished(Err(AppError::upstream(crate::text::owned("")))), PortCall::Done)
            },
        },
    }
}

// ----- Recording an attempt.

#[derive(Debug)]
pub enum RecordAttemptFlow {
    /// Looking for the session; whether to announce the attempt.
    FindingSession(RecordPracticeAttemptCommand, bool),
    FindingPiece(PracticeSession, RecordPracticeAttemptCommand, bool),
    Saving(RecordPracticeAttemptResult, bool),
    Finished(Result<RecordPracticeAttemptResult, AppError>),
}

pub open spec fn record_attempt_accepts(flow: RecordAttemptFlow, reply: PortReply) -> bool {
    match flow {
        RecordAttemptFlow::FindingSession(..) => reply is SessionFound || reply is Failed,
        RecordAttemptFlow::FindingPiece(..) => reply is PieceFound || reply is Failed,
        RecordAttemptFlow::Saving(..) => reply is Saved || reply is Failed,
        RecordAttemptFlow::Finished(_) => false,
    }
}

pub fn record_attempt_accepts_reply(flow: &RecordAttemptFlow, reply: &PortReply) -> (r: bool)
    ensures
        r == record_attempt_accepts(*flow, *reply),
{
    match flow {
        RecordAttemptFlow::FindingSession(..) => matches!(reply, PortReply::SessionFound(_)) || matches!(reply, PortReply::Failed(_)),
        RecordAttemptFlow::FindingPiece(..) => matches!(reply, PortReply::PieceFound(_)) || matches!(reply, PortReply::Failed(_)),
        RecordAttemptFlow::Saving(..) => matches!(reply, PortReply::Saved) || matches!(reply, PortReply::Failed(_)),
        RecordAttemptFlow::Finished(_) => false,
    }
}

/// Recording an attempt begins by looking up its session.
pub fn begin_record_attempt(input: RecordPracticeAttemptCommand, announce: bool) -> (r: (RecordAttemptFlow, PortCall))
    ensures
        r.0 == RecordAttemptFlow::FindingSession(input, announce),
        r.1 matches PortCall::FindSession(id) && id@ == input.session_id@,
{
    let id = input.session_id.copy();
    (RecordAttemptFlow::FindingSession(input, announce), PortCall::FindSession(id))
}

/// The next step of recording an attempt: refused when the session is
/// missing or not active, or its piece or arrangement is gone (nothing is
/// saved then); otherwise the judged attempt is saved with its session, and
/// only then is it announced.
pub fn record_attempt_step(flow: RecordAttemptFlow, reply: PortReply) -> (r: (RecordAttemptFlow, PortCall))
    requires
        record_attempt_accepts(flow, reply),
    ensures
        r.1 is Done <==> r.0 is Finished,
        reply matches PortReply::Failed(e) ==> r.0 == RecordAttemptFlow::Finished(Err(e)),
        flow matches RecordAttemptFlow::FindingSession(input, announce) ==> (reply matches PortReply::SessionFound(found) ==> {
            &&& found is None ==> (r.0 matches RecordAttemptFlow::Finished(Err(e)) && is_not_found(e, "practice session"@))
            &&& found is Some && found->0.status != PracticeSessionStatus::Active
                ==> (r.0 matches RecordAttemptFlow::Finished(Err(e)) && is_validation(e, "practice session is not active"@))
            &&& found is Some && found->0.status == PracticeSessionStatus::Active ==> {
                &&& r.0 matches RecordAttemptFlow::FindingPiece(t, i, a) && t@ == found->0@ && i == input && a == announce
                &&& r.1 matches PortCall::FindPiece(id) && id@ == found->0@.piece_id
            }
        }),
        flow matches RecordAttemptFlow::FindingPiece(session, input, announce) ==> (reply matches PortReply::PieceFound(found) ==> {
            &&& found is None ==> (r.0 matches RecordAttemptFlow::Finished(Err(e)) && is_not_found(e, "music piece"@))
            &&& found matches Some(p) ==> match first_arrangement(p@.arrangements, session@.arrangement_id) {
                None => r.0 matches RecordAttemptFlow::Finished(Err(e)) && is_not_found(e, "piano arrangement"@),
                Some(k) => {
                    let attempt = recorded_attempt(input, attempt_judgements(session@, p@.arrangements[k], input.performance.notes@, input.timing_tolerance_ticks));
                    &&& r.0 matches RecordAttemptFlow::Saving(res, a) && res.attempt@ == attempt
                        && res.session@ == session_with_attempt(session@, attempt) && a == announce
                    &&& r.1 matches PortCall::SaveSession(t) && t@ == session_with_attempt(session@, attempt)
                },
            }
        }),
        flow matches RecordAttemptFlow::Saving(res, _) ==> (reply is Saved ==> r.0 == RecordAttemptFlow::Finished(Ok(res))),
{
    match reply {
        PortReply::Failed(e) => (RecordAttemptFlow::Finished(Err(e)), PortCall::Done),
        PortReply::SessionFound(found) => match flow {
            RecordAttemptFlow::FindingSession(input, announce) => match session_for_attempt(found) {
                Err(e) => (RecordAttemptFlow::Finished(Err(e)), PortCall::Done),
                Ok(session) => {
                    let id = session.piece_id.copy();
                    (RecordAttemptFlow::FindingPiece(session, input, announce), PortCall::FindPiece(id))
                },
            },
            _ => {
                proof {
                    assert(false);
                }
                (RecordAttemptFlow::Finished(Err(AppError::upstream(crate::text::owned("")))), PortCall::Done)
            },
        },
        PortReply::PieceFound(found) => match flow {
            RecordAttemptFlow::FindingPiece(session, input, announce) => match record_attempt(session, found.as_ref(), input) {
                Err(e) => (RecordAttemptFlow::Finished(Err(e)), PortCall::Done),
                Ok(res) => {
                    let saved = res.session.copy();
                    (RecordAttemptFlow::Saving(res, announce), PortCall::SaveSession(saved))
                },
            },
            _ => {
                proof {
                    assert(false);
                }
                (RecordAttemptFlow::Finished(Err(AppError::upstream(crate::text::owned("")))), PortCall::Done)
            },
        },
        PortReply::Saved => match flow {
            RecordAttemptFlow::Saving(res, announce) => {
                if announce {
                    match LearningEventHandler::new().handle_practiced(&practiced(&res.session)) {
                        Err(e) => {
                            return (RecordAttemptFlow::Finished(Err(e)), PortCall::Done);
                        },
                        Ok(()) => {},
                    }
                }
                (RecordAttemptFlow::Finished(Ok(res)), PortCall::Done)
            },
            _ => {
                proof {
                    assert(false);
                }
                (RecordAttemptFlow::Finished(Err(AppError::upstream(crate::text::owned("")))), PortCall::Done)
            },
        },
    }
}

// ----- Ending a session (completing or abandoning it).

#[derive(Debug)]
pub enum EndSessionFlow {
    /// Looking for the session; the status and end time it is to take.
    FindingSession(PracticeSessionStatus, String),
    Saving(PracticeSession),
    Finished(Result<PracticeSession, AppError>),
}

pub open spec fn end_session_accepts(flow: EndSessionFlow, reply: PortReply) -> bool {
    match flow {
        EndSessionFlow::FindingSession(..) => reply is SessionFound || reply is Failed,
        EndSessionFlow::Saving(..) => reply is Saved || reply is Failed,
        EndSessionFlow::Finished(_) => false,
    }
}

pub fn end_session_accepts_reply(flow: &EndSessionFlow, reply: &PortReply) -> (r: bool)
    ensures
        r == end_session_accepts(*flow, *reply),
{
    match flow {
        EndSessionFlow::FindingSession(..) => matches!(reply, PortReply::SessionFound(_)) || matches!(reply, PortReply::Failed(_)),
        EndSessionFlow::Saving(..) => matches!(reply, PortReply::Saved) || matches!(reply, PortReply::Failed(_)),
        EndSessionFlow::Finished(_) => false,
    }
}

/// Ending a session begins by looking it up.
pub fn begin_end_session(session_id: PracticeSessionId, status: PracticeSessionStatus, ended_at: String) -> (r: (EndSessionFlow, PortCall))
    ensures
        r.0 == EndSessionFlow::FindingSession(status, ended_at),
        r.1 matches PortCall::FindSession(id) && id@ == session_id@,
{
    (EndSessionFlow::FindingSession(status, ended_at), PortCall::FindSession(session_id))
}

/// The next step of ending a session: refused when it is missing or no
/// longer active (nothing is saved then); otherwise it is saved with the
/// status and the end time.
pub fn end_session_step(flow: EndSessionFlow, reply: PortReply) -> (r: (EndSessionFlow, PortCall))
    requires
        end_session_accepts(flow, reply),
    ensures
        r.1 is Done <==> r.0 is Finished,
        reply matches PortReply::Failed(e) ==> r.0 == EndSessionFlow::Finished(Err(e)),
        flow matches EndSessionFlow::FindingSession(status, ended_at) ==> (reply matches PortReply::SessionFound(found) ==> {
            &&& found is None ==> (r.0 matches EndSessionFlow::Finished(Err(e)) && is_not_found(e, "practice session"@))
            &&& found is Some && found->0.status != PracticeSessionStatus::Active
                ==> (r.0 matches EndSessionFlow::Finished(Err(e)) && is_validation(e, "practice session is already finished"@))
            &&& found is Some && found->0.status == PracticeSessionStatus::Active ==> {
                &&& r.0 matches EndSessionFlow::Saving(t) && t@ == ended_session(found->0@, status, ended_at@)
                &&& r.1 matches PortCall::SaveSession(t) && t@ == ended_session(found->0@, status, ended_at@)
            }
        }),
        flow matches EndSessionFlow::Saving(t) ==> (reply is Saved ==> r.0 == EndSessionFlow::Finished(Ok(t))),
{
    match reply {
        PortReply::Failed(e) => (EndSessionFlow::Finished(Err(e)), PortCall::Done),
        PortReply::SessionFound(found) => match flow {
            EndSessionFlow::FindingSession(status, ended_at) => match finish_session(found, status, ended_at) {
                Err(e) => (EndSessionFlow::Finished(Err(e)), PortCall::Done),
                Ok(session) => {
                    let saved = session.copy();
                    (EndSessionFlow::Saving(session), PortCall::SaveSession(saved))
                },
            },
            _ => {
                proof {
                    assert(false);
                }
                (EndSessionFlow::Finished(Err(AppError::upstream(crate::text::owned("")))), PortCall::Done)
            },
        },
        _ => match flow {
            EndSessionFlow::Saving(session) => (EndSessionFlow::Finished(Ok(session)), PortCall::Done),
            _ => {
                proof {
                    assert(false);
                }
                (EndSessionFlow::Finished(Err(AppError::upstream(crate::text::owned("")))), PortCall::Done)
            },
        },
    }
}

} // verus!
