use warming::app_error::AppError;
use warming::learning::{
    AttemptId, ExerciseId, JudgementKind, PracticeSessionId, PracticeSessionStatus, UserPerformance,
};
use warming::learning_commands::{
    abandon_session, check_practice_piece, check_target_speed, complete_session, finish_session, new_session,
    practiced, record_attempt, session_for_attempt, AbandonPracticeSessionCommand, CompletePracticeSessionCommand,
    LearningEventHandler, RecordPracticeAttemptCommand, StartPracticeSessionCommand,
};
use warming::music::{ArrangementId, BeatPosition, BeatSpan, MusicPieceId, Note, PianoScore, Pitch, ScorePart};
use warming::music_commands::{
    check_piece_title, create_piece, find_arrangement, has_arrangement, import_arrangement, piece_created,
    score_has_notes, score_note_count, CreateMusicPieceCommand, ImportPianoArrangementCommand, MusicEventHandler,
};

fn note(pitch: u8, start: i64) -> Note {
    Note { pitch: Pitch(pitch), span: BeatSpan::new(BeatPosition::new(start), 960), velocity: Some(90) }
}

fn score(notes: Vec<Note>) -> PianoScore {
    PianoScore {
        parts: vec![ScorePart { name: "rh".to_string(), tonality: None, notes }],
        tempos: Vec::new(),
        meters: Vec::new(),
        key_signatures: Vec::new(),
        ticks_per_beat: 960,
    }
}

fn create_cmd(title: &str, creator: Option<&str>) -> CreateMusicPieceCommand {
    CreateMusicPieceCommand {
        piece_id: MusicPieceId::new_unchecked("p1".to_string()),
        title: title.to_string(),
        creator: creator.map(|c| c.to_string()),
        now: "t0".to_string(),
    }
}

fn import_cmd(arrangement: &str, title: &str, notes: Vec<Note>, now: &str) -> ImportPianoArrangementCommand {
    ImportPianoArrangementCommand {
        piece_id: MusicPieceId::new_unchecked("p1".to_string()),
        arrangement_id: ArrangementId::new_unchecked(arrangement.to_string()),
        title: title.to_string(),
        score: score(notes),
        now: now.to_string(),
    }
}

fn validation(e: AppError) -> String {
    match e {
        AppError::Validation(m) => m,
        other => panic!("not a validation error: {:?}", other),
    }
}

fn not_found(e: AppError) -> String {
    match e {
        AppError::NotFound(m) => m,
        other => panic!("not a not-found error: {:?}", other),
    }
}

#[test]
fn creating_a_piece_trims_and_checks() {
    let piece = create_piece(create_cmd("  Etude ", Some("  Chopin ")), false).unwrap().piece;
    assert_eq!(piece.title, "Etude");
    assert_eq!(piece.creator.as_deref(), Some("Chopin"));
    assert_eq!(piece.created_at, "t0");
    assert_eq!(piece.updated_at, "t0");
    assert!(piece.arrangements.is_empty());
    assert_eq!(piece_created(&piece).piece_id.as_str(), "p1");
    let blank_creator = create_piece(create_cmd("Etude", Some("   ")), false).unwrap().piece;
    assert!(blank_creator.creator.is_none());
    assert_eq!(validation(create_piece(create_cmd("   ", None), false).unwrap_err()), "music piece title is empty");
    assert_eq!(validation(create_piece(create_cmd("x", None), true).unwrap_err()), "music piece already exists: p1");
    assert_eq!(validation(check_piece_title(" ").unwrap_err()), "music piece title is empty");
    assert!(MusicEventHandler::new().handle_music_piece_created(&piece_created(&piece)).is_ok());
}

#[test]
fn importing_replaces_an_arrangement_with_the_same_id() {
    let piece = create_piece(create_cmd("Etude", None), false).unwrap().piece;
    let first = import_arrangement(Some(piece), import_cmd("a", " First ", vec![note(60, 0)], "t1")).unwrap();
    assert_eq!(first.arrangement.title, "First");
    assert_eq!(first.piece.updated_at, "t1");
    let second = import_arrangement(Some(first.piece), import_cmd("b", "Second", vec![note(62, 0)], "t2")).unwrap();
    let third = import_arrangement(Some(second.piece), import_cmd("a", "Again", vec![note(64, 0)], "t3")).unwrap();
    let ids: Vec<&str> = third.piece.arrangements.iter().map(|a| a.id.as_str()).collect();
    assert_eq!(ids, vec!["b", "a"]);
    assert_eq!(third.piece.arrangements[1].title, "Again");
    let arrangement_a = ArrangementId::new_unchecked("a".to_string());
    assert!(has_arrangement(&third.piece, &arrangement_a));
    let found = find_arrangement(Some(third.piece), &arrangement_a).unwrap();
    assert_eq!(found.score.parts[0].notes[0].pitch.0, 64);
    assert!(find_arrangement(None, &arrangement_a).is_none());
}

#[test]
fn importing_refuses_bad_requests() {
    assert_eq!(not_found(import_arrangement(None, import_cmd("a", "t", vec![note(60, 0)], "t")).unwrap_err()), "music piece");
    let piece = create_piece(create_cmd("Etude", None), false).unwrap().piece;
    let copy = piece.clone();
    assert_eq!(
        validation(import_arrangement(Some(piece), import_cmd("a", " ", vec![note(60, 0)], "t")).unwrap_err()),
        "arrangement title is empty"
    );
    assert_eq!(
        validation(import_arrangement(Some(copy), import_cmd("a", "t", Vec::new(), "t")).unwrap_err()),
        "arrangement score contains no notes"
    );
}

#[test]
fn counting_notes() {
    let s = PianoScore {
        parts: vec![
            ScorePart { name: "a".to_string(), tonality: None, notes: vec![note(1, 0), note(2, 0)] },
            ScorePart { name: "b".to_string(), tonality: None, notes: vec![note(3, 0)] },
        ],
        tempos: Vec::new(),
        meters: Vec::new(),
        key_signatures: Vec::new(),
        ticks_per_beat: 960,
    };
    assert_eq!(score_note_count(&s), 3);
    assert!(score_has_notes(&s));
    assert!(!score_has_notes(&score(Vec::new())));
}

fn start_cmd(speed: i64) -> StartPracticeSessionCommand {
    StartPracticeSessionCommand {
        session_id: PracticeSessionId::new_unchecked("s1".to_string()),
        piece_id: MusicPieceId::new_unchecked("p1".to_string()),
        arrangement_id: ArrangementId::new_unchecked("a".to_string()),
        exercise_id: ExerciseId::new_unchecked("full".to_string()),
        segment: None,
        target_speed_permille: speed,
        playable_range: None,
        started_at: "t0".to_string(),
    }
}

#[test]
fn a_session_runs_from_start_to_end() {
    let piece = create_piece(create_cmd("Etude", None), false).unwrap().piece;
    let piece = import_arrangement(Some(piece), import_cmd("a", "A", vec![note(60, 0), note(62, 960)], "t1")).unwrap().piece;

    assert_eq!(validation(check_target_speed(&start_cmd(0)).unwrap_err()), "practice target speed must be positive");
    assert!(check_target_speed(&start_cmd(1000)).is_ok());
    assert_eq!(not_found(check_practice_piece(None, &start_cmd(1000).arrangement_id).unwrap_err()), "music piece");
    let missing = ArrangementId::new_unchecked("zzz".to_string());
    assert_eq!(not_found(check_practice_piece(Some(&piece), &missing).unwrap_err()), "piano arrangement");
    assert!(check_practice_piece(Some(&piece), &start_cmd(1000).arrangement_id).is_ok());
    assert_eq!(validation(new_session(start_cmd(1000), true).unwrap_err()), "practice session already exists: s1");

    let session = new_session(start_cmd(1000), false).unwrap().session;
    assert_eq!(session.status, PracticeSessionStatus::Active);
    assert!(session.attempts.is_empty());
    assert!(session.ended_at.is_none());

    let session = session_for_attempt(Some(session)).unwrap();
    let attempt = RecordPracticeAttemptCommand {
        session_id: PracticeSessionId::new_unchecked("s1".to_string()),
        attempt_id: AttemptId::new_unchecked("at1".to_string()),
        performance: UserPerformance { notes: vec![note(60, 20), note(65, 960)] },
        timing_tolerance_ticks: -5,
        recorded_at: "t2".to_string(),
    };
    let result = record_attempt(session, Some(&piece), attempt).unwrap();
    let kinds: Vec<JudgementKind> = result.attempt.judgements.iter().map(|j| j.kind).collect();
    // a negative tolerance counts as none
    assert_eq!(kinds, vec![JudgementKind::Missed, JudgementKind::Missed, JudgementKind::Extra, JudgementKind::WrongPitch]);
    assert_eq!(result.session.attempts.len(), 1);
    assert_eq!(result.session.attempts[0].id.as_str(), "at1");
    let event = practiced(&result.session);
    assert_eq!(event.session_id.as_str(), "s1");
    assert!(LearningEventHandler::new().handle_practiced(&event).is_ok());

    let done = complete_session(Some(result.session), CompletePracticeSessionCommand {
        session_id: PracticeSessionId::new_unchecked("s1".to_string()),
        ended_at: "t3".to_string(),
    }).unwrap();
    assert_eq!(done.status, PracticeSessionStatus::Completed);
    assert_eq!(done.ended_at.as_deref(), Some("t3"));
    assert_eq!(done.attempts.len(), 1);

    let again = abandon_session(Some(done.clone()), AbandonPracticeSessionCommand {
        session_id: PracticeSessionId::new_unchecked("s1".to_string()),
        ended_at: "t4".to_string(),
    });
    assert_eq!(validation(again.unwrap_err()), "practice session is already finished");
    assert_eq!(validation(session_for_attempt(Some(done)).unwrap_err()), "practice session is not active");
    assert_eq!(not_found(finish_session(None, PracticeSessionStatus::Abandoned, "t".to_string()).unwrap_err()), "practice session");
}

#[test]
fn recording_needs_the_piece_and_arrangement() {
    let session = new_session(start_cmd(1000), false).unwrap().session;
    let attempt = || RecordPracticeAttemptCommand {
        session_id: PracticeSessionId::new_unchecked("s1".to_string()),
        attempt_id: AttemptId::new_unchecked("at1".to_string()),
        performance: UserPerformance::default(),
        timing_tolerance_ticks: 0,
        recorded_at: "t".to_string(),
    };
    assert_eq!(not_found(record_attempt(session.clone(), None, attempt()).unwrap_err()), "music piece");
    let piece = create_piece(create_cmd("Etude", None), false).unwrap().piece;
    assert_eq!(not_found(record_attempt(session, Some(&piece), attempt()).unwrap_err()), "piano arrangement");
}

#[test]
fn importing_twice_is_importing_once() {
    let piece = create_piece(create_cmd("Etude", None), false).unwrap().piece;
    let once = import_arrangement(Some(piece), import_cmd("a", "A", vec![note(60, 0)], "t1")).unwrap().piece;
    let twice = import_arrangement(Some(once.clone()), import_cmd("a", "A", vec![note(60, 0)], "t1")).unwrap().piece;
    let ids = |p: &warming::music::MusicPiece| p.arrangements.iter().map(|a| a.id.as_str().to_string()).collect::<Vec<_>>();
    assert_eq!(ids(&once), ids(&twice));
    assert_eq!(twice.arrangements.len(), 1);
    assert_eq!(twice.arrangements[0].title, once.arrangements[0].title);
    assert_eq!(twice.arrangements[0].score.parts[0].notes, once.arrangements[0].score.parts[0].notes);
}
