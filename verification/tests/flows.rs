use warming::app_error::AppError;
use warming::command_flow::{
    begin_create_piece, begin_end_session, begin_import, begin_record_attempt, begin_start_session,
    create_piece_accepts_reply, create_piece_step, end_session_accepts_reply, end_session_step, import_accepts_reply,
    import_step, record_attempt_accepts_reply, record_attempt_step, start_session_accepts_reply, start_session_step,
    CreatePieceFlow, EndSessionFlow, ImportFlow, PortCall, PortReply, RecordAttemptFlow, StartSessionFlow,
};
use warming::learning::{AttemptId, ExerciseId, PracticeSessionId, PracticeSessionStatus, UserPerformance};
use warming::learning_commands::{new_session, RecordPracticeAttemptCommand, StartPracticeSessionCommand};
use warming::library_flow::{
    refresh_accepts, refresh_step, registration_accepts, registration_step, start_refresh, start_registration,
    RefreshAction, RefreshEvent, RefreshStage, RegistrationAction, RegistrationEvent, RegistrationStage,
};
use warming::local_library::{
    local_midi_arrangement_id, local_midi_piece_id, DiscoveredMidiFile, RegisterLocalMidiFileCommand,
};
use warming::music::{ArrangementId, BeatPosition, BeatSpan, MusicPiece, MusicPieceId, Note, PianoScore, Pitch, ScorePart};
use warming::music_commands::{create_piece, import_arrangement, CreateMusicPieceCommand, ImportPianoArrangementCommand};

fn note(pitch: u8, start: i64) -> Note {
    Note { pitch: Pitch(pitch), span: BeatSpan::new(BeatPosition::new(start), 960), velocity: Some(90) }
}

fn score(notes: Vec<Note>) -> PianoScore {
    PianoScore {
        parts: vec![ScorePart { name: "rh".to_string(), tonality: None, notes }],
        tempos: Vec::new(),
        meters: Vec::new(),
        key_signatures: Vec::new(),
        ticks_per_beat: 960,
    }
}

fn create_cmd(title: &str) -> CreateMusicPieceCommand {
    CreateMusicPieceCommand {
        piece_id: MusicPieceId::new_unchecked("p1".to_string()),
        title: title.to_string(),
        creator: None,
        now: "t0".to_string(),
    }
}

fn import_cmd(notes: Vec<Note>) -> ImportPianoArrangementCommand {
    ImportPianoArrangementCommand {
        piece_id: MusicPieceId::new_unchecked("p1".to_string()),
        arrangement_id: ArrangementId::new_unchecked("a".to_string()),
        title: "A".to_string(),
        score: score(notes),
        now: "t1".to_string(),
    }
}

fn piece_with_arrangement() -> MusicPiece {
    let piece = create_piece(create_cmd("Etude"), false).unwrap().piece;
    import_arrangement(Some(piece), import_cmd(vec![note(60, 0)])).unwrap().piece
}

fn start_cmd(speed: i64) -> StartPracticeSessionCommand {
    StartPracticeSessionCommand {
        session_id: PracticeSessionId::new_unchecked("s1".to_string()),
        piece_id: MusicPieceId::new_unchecked("p1".to_string()),
        arrangement_id: ArrangementId::new_unchecked("a".to_string()),
        exercise_id: ExerciseId::new_unchecked("full".to_string()),
        segment: None,
        target_speed_permille: speed,
        playable_range: None,
        started_at: "t0".to_string(),
    }
}

fn attempt_cmd() -> RecordPracticeAttemptCommand {
    RecordPracticeAttemptCommand {
        session_id: PracticeSessionId::new_unchecked("s1".to_string()),
        attempt_id: AttemptId::new_unchecked("at1".to_string()),
        performance: UserPerformance { notes: vec![note(60, 0)] },
        timing_tolerance_ticks: 10,
        recorded_at: "t2".to_string(),
    }
}

fn message(e: &AppError) -> String {
    match e {
        AppError::Validation(m) | AppError::NotFound(m) | AppError::Upstream(m) | AppError::Database(m) => m.clone(),
    }
}

#[test]
fn creating_a_piece_looks_up_then_saves() {
    let (flow, call) = begin_create_piece(create_cmd("  "), true);
    assert!(matches!(call, PortCall::Done));
    match flow {
        CreatePieceFlow::Finished(Err(e)) => assert_eq!(message(&e), "music piece title is empty"),
        other => panic!("unexpected {:?}", other),
    }

    let (flow, call) = begin_create_piece(create_cmd(" Etude "), true);
    assert!(matches!(&call, PortCall::FindPiece(id) if id.as_str() == "p1"));
    let reply = PortReply::PieceFound(None);
    assert!(create_piece_accepts_reply(&flow, &reply));
    assert!(!create_piece_accepts_reply(&flow, &PortReply::Saved));
    let (flow, call) = create_piece_step(flow, reply);
    match &call {
        PortCall::SavePiece(p) => assert_eq!(p.title, "Etude"),
        other => panic!("unexpected {:?}", other),
    }
    let (flow, call) = create_piece_step(flow, PortReply::Saved);
    assert!(matches!(call, PortCall::Done));
    match flow {
        CreatePieceFlow::Finished(Ok(res)) => assert_eq!(res.piece.title, "Etude"),
        other => panic!("unexpected {:?}", other),
    }
}

#[test]
fn creating_a_taken_piece_saves_nothing() {
    let (flow, _) = begin_create_piece(create_cmd("Etude"), false);
    let existing = create_piece(create_cmd("Old"), false).unwrap().piece;
    let (flow, call) = create_piece_step(flow, PortReply::PieceFound(Some(existing)));
    assert!(matches!(call, PortCall::Done));
    match flow {
        CreatePieceFlow::Finished(Err(e)) => assert_eq!(message(&e), "music piece already exists: p1"),
        other => panic!("unexpected {:?}", other),
    }
    let (flow, _) = begin_create_piece(create_cmd("Etude"), false);
    let (flow, call) = create_piece_step(flow, PortReply::Failed(AppError::Upstream("disk".to_string())));
    assert!(matches!(call, PortCall::Done));
    assert!(matches!(flow, CreatePieceFlow::Finished(Err(AppError::Upstream(ref m))) if m == "disk"));
}

#[test]
fn importing_looks_up_then_saves() {
    let (flow, call) = begin_import(import_cmd(vec![note(60, 0)]));
    assert!(matches!(&call, PortCall::FindPiece(id) if id.as_str() == "p1"));
    let (flow2, call2) = import_step(flow, PortReply::PieceFound(None));
    assert!(matches!(call2, PortCall::Done));
    assert!(matches!(flow2, ImportFlow::Finished(Err(AppError::NotFound(ref m))) if m == "music piece"));

    let (flow, _) = begin_import(import_cmd(Vec::new()));
    let piece = create_piece(create_cmd("Etude"), false).unwrap().piece;
    let (flow, call) = import_step(flow, PortReply::PieceFound(Some(piece.clone())));
    assert!(matches!(call, PortCall::Done));
    assert!(matches!(flow, ImportFlow::Finished(Err(AppError::Validation(ref m))) if m == "arrangement score contains no notes"));

    let (flow, _) = begin_import(import_cmd(vec![note(60, 0)]));
    let reply = PortReply::PieceFound(Some(piece));
    assert!(import_accepts_reply(&flow, &reply));
    let (flow, call) = import_step(flow, reply);
    match &call {
        PortCall::SavePiece(p) => assert_eq!(p.arrangements.len(), 1),
        other => panic!("unexpected {:?}", other),
    }
    let (flow, call) = import_step(flow, PortReply::Saved);
    assert!(matches!(call, PortCall::Done));
    assert!(matches!(flow, ImportFlow::Finished(Ok(ref res)) if res.arrangement.title == "A"));
}

#[test]
fn starting_a_session_checks_then_saves() {
    let (flow, call) = begin_start_session(start_cmd(0));
    assert!(matches!(call, PortCall::Done));
    assert!(matches!(flow, StartSessionFlow::Finished(Err(AppError::Validation(ref m))) if m == "practice target speed must be positive"));

    let (flow, call) = begin_start_session(start_cmd(1000));
    assert!(matches!(&call, PortCall::FindPiece(id) if id.as_str() == "p1"));
    let reply = PortReply::PieceFound(Some(piece_with_arrangement()));
    assert!(start_session_accepts_reply(&flow, &reply));
    let (flow, call) = start_session_step(flow, reply);
    assert!(matches!(&call, PortCall::FindSession(id) if id.as_str() == "s1"));
    let (flow, call) = start_session_step(flow, PortReply::SessionFound(None));
    match &call {
        PortCall::SaveSession(s) => assert_eq!(s.status, PracticeSessionStatus::Active),
        other => panic!("unexpected {:?}", other),
    }
    let (flow, call) = start_session_step(flow, PortReply::Saved);
    assert!(matches!(call, PortCall::Done));
    assert!(matches!(flow, StartSessionFlow::Finished(Ok(ref res)) if res.session.attempts.is_empty()));

    let (flow, _) = begin_start_session(start_cmd(1000));
    let (flow, call) = start_session_step(flow, PortReply::PieceFound(None));
    assert!(matches!(call, PortCall::Done));
    assert!(matches!(flow, StartSessionFlow::Finished(Err(AppError::NotFound(ref m))) if m == "music piece"));

    let (flow, _) = begin_start_session(start_cmd(1000));
    let (flow, _) = start_session_step(flow, PortReply::PieceFound(Some(piece_with_arrangement())));
    let taken = new_session(start_cmd(1000), false).unwrap().session;
    let (flow, call) = start_session_step(flow, PortReply::SessionFound(Some(taken)));
    assert!(matches!(call, PortCall::Done));
    assert!(matches!(flow, StartSessionFlow::Finished(Err(AppError::Validation(ref m))) if m == "practice session already exists: s1"));
}

#[test]
fn recording_an_attempt_judges_then_saves() {
    let (flow, call) = begin_record_attempt(attempt_cmd(), true);
    assert!(matches!(&call, PortCall::FindSession(id) if id.as_str() == "s1"));
    let (missing, call2) = record_attempt_step(flow, PortReply::SessionFound(None));
    assert!(matches!(call2, PortCall::Done));
    assert!(matches!(missing, RecordAttemptFlow::Finished(Err(AppError::NotFound(ref m))) if m == "practice session"));

    let (flow, _) = begin_record_attempt(attempt_cmd(), true);
    let session = new_session(start_cmd(1000), false).unwrap().session;
    let reply = PortReply::SessionFound(Some(session));
    assert!(record_attempt_accepts_reply(&flow, &reply));
    let (flow, call) = record_attempt_step(flow, reply);
    assert!(matches!(&call, PortCall::FindPiece(id) if id.as_str() == "p1"));
    let (flow, call) = record_attempt_step(flow, PortReply::PieceFound(Some(piece_with_arrangement())));
    match &call {
        PortCall::SaveSession(s) => assert_eq!(s.attempts.len(), 1),
        other => panic!("unexpected {:?}", other),
    }
    let (flow, call) = record_attempt_step(flow, PortReply::Saved);
    assert!(matches!(call, PortCall::Done));
    assert!(matches!(flow, RecordAttemptFlow::Finished(Ok(ref res)) if res.attempt.id.as_str() == "at1"));
}

#[test]
fn ending_a_session_saves_it_once() {
    let (flow, call) = begin_end_session(PracticeSessionId::new_unchecked("s1".to_string()), PracticeSessionStatus::Completed, "t3".to_string());
    assert!(matches!(&call, PortCall::FindSession(id) if id.as_str() == "s1"));
    let session = new_session(start_cmd(1000), false).unwrap().session;
    let reply = PortReply::SessionFound(Some(session));
    assert!(end_session_accepts_reply(&flow, &reply));
    let (flow, call) = end_session_step(flow, reply);
    match &call {
        PortCall::SaveSession(s) => {
            assert_eq!(s.status, PracticeSessionStatus::Completed);
            assert_eq!(s.ended_at.as_deref(), Some("t3"));
        },
        other => panic!("unexpected {:?}", other),
    }
    assert!(!end_session_accepts_reply(&flow, &PortReply::SessionFound(None)));
    let (flow, call) = end_session_step(flow, PortReply::Saved);
    assert!(matches!(call, PortCall::Done));
    assert!(matches!(flow, EndSessionFlow::Finished(Ok(ref s)) if s.status == PracticeSessionStatus::Completed));

    let (flow, _) = begin_end_session(PracticeSessionId::new_unchecked("s1".to_string()), PracticeSessionStatus::Abandoned, "t".to_string());
    let (flow, call) = end_session_step(flow, PortReply::SessionFound(None));
    assert!(matches!(call, PortCall::Done));
    assert!(matches!(flow, EndSessionFlow::Finished(Err(AppError::NotFound(ref m))) if m == "practice session"));
}

fn midi_file() -> RegisterLocalMidiFileCommand {
    RegisterLocalMidiFileCommand {
        file: DiscoveredMidiFile {
            path: "/music/Etude.mid".to_string(),
            title: "Etude".to_string(),
            fingerprint: "/music/Etude.mid:120:1700000000".to_string(),
        },
        discovered_at: "1700000001".to_string(),
    }
}

#[test]
fn a_new_file_is_read_before_its_piece_is_created() {
    let input = midi_file();
    let (stage, action) = start_registration(&input);
    assert!(matches!(&action, RegistrationAction::FindPiece(id) if *id == local_midi_piece_id(&input.file.fingerprint)));
    let event = RegistrationEvent::PieceFound(None);
    assert!(registration_accepts(&stage, &event));
    assert!(!registration_accepts(&stage, &RegistrationEvent::PieceCreated));
    let (stage, action) = registration_step(&input, stage, event);
    assert!(matches!(&action, RegistrationAction::ReadScore(path) if path == "/music/Etude.mid"));
    let (stage, action) = registration_step(&input, stage, RegistrationEvent::ScoreRead(score(vec![note(60, 0)])));
    assert!(matches!(&action, RegistrationAction::CreatePiece(cmd) if cmd.title == "Etude"));
    let (stage, action) = registration_step(&input, stage, RegistrationEvent::PieceCreated);
    match &action {
        RegistrationAction::ImportArrangement(cmd) => {
            assert_eq!(cmd.arrangement_id, local_midi_arrangement_id(&input.file.fingerprint));
            assert_eq!(cmd.score.parts[0].notes.len(), 1);
        },
        other => panic!("unexpected {:?}", other),
    }
    let piece = piece_with_arrangement();
    let (stage, action) = registration_step(&input, stage, RegistrationEvent::ArrangementImported(piece));
    assert!(matches!(stage, RegistrationStage::Finished));
    assert!(matches!(action, RegistrationAction::Finish(Ok(ref res)) if res.created));
}

#[test]
fn a_failed_read_ends_the_registration() {
    let input = midi_file();
    let (stage, _) = start_registration(&input);
    let (stage, _) = registration_step(&input, stage, RegistrationEvent::PieceFound(None));
    let (stage, action) = registration_step(&input, stage, RegistrationEvent::Failed(AppError::Upstream("bad file".to_string())));
    assert!(matches!(stage, RegistrationStage::Finished));
    assert!(matches!(action, RegistrationAction::Finish(Err(AppError::Upstream(ref m))) if m == "bad file"));
}

#[test]
fn a_refresh_counts_found_and_new_files() {
    let (state, action) = start_refresh();
    assert!(matches!(action, RefreshAction::ListDirectories));
    let event = RefreshEvent::DirectoriesListed(vec!["/a".to_string(), "/b".to_string()]);
    assert!(refresh_accepts(&state, &event));
    let (state, action) = refresh_step(state, event);
    assert!(matches!(&action, RefreshAction::ScanDirectory(d) if d == "/a"));
    let files = vec![midi_file().file, midi_file().file];
    let (state, action) = refresh_step(state, RefreshEvent::DirectoryScanned(files));
    assert!(matches!(action, RefreshAction::RegisterFile(_)));
    let (state, action) = refresh_step(state, RefreshEvent::FileRegistered(true));
    assert!(matches!(action, RefreshAction::RegisterFile(_)));
    let (state, action) = refresh_step(state, RefreshEvent::FileRegistered(false));
    assert!(matches!(&action, RefreshAction::ScanDirectory(d) if d == "/b"));
    let (state, action) = refresh_step(state, RefreshEvent::DirectoryScanned(Vec::new()));
    assert!(matches!(action, RefreshAction::ClearDirty));
    let (state, action) = refresh_step(state, RefreshEvent::DirtyCleared);
    assert!(state.stage == RefreshStage::Finished);
    match action {
        RefreshAction::Finish(Ok(report)) => {
            assert_eq!(report.discovered_files, 2);
            assert_eq!(report.registered_files, 1);
            assert_eq!(report.watched_directories, vec!["/a".to_string(), "/b".to_string()]);
        },
        other => panic!("unexpected {:?}", other),
    }
}

#[test]
fn a_refresh_stops_at_the_first_failure() {
    let (state, _) = start_refresh();
    let (state, _) = refresh_step(state, RefreshEvent::DirectoriesListed(vec!["/a".to_string()]));
    let (state, action) = refresh_step(state, RefreshEvent::Failed(AppError::Upstream("gone".to_string())));
    assert!(state.stage == RefreshStage::Finished);
    assert!(matches!(action, RefreshAction::Finish(Err(AppError::Upstream(ref m))) if m == "gone"));
    assert!(!refresh_accepts(&state, &RefreshEvent::DirtyCleared));
}
