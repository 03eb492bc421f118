use warming::api::{
    arrangement_to_dto, default_database_url, piece_note_total, piece_to_dto, report_to_dto, score_preview,
    session_to_dto, status_label, tempo_label, ApiError, FallingNoteDTO, MidiScanReportDTO, MusicPieceDTO,
};
use warming::app_error::AppError;
use warming::demo::{
    demo_arrangement_command, demo_arrangement_id, demo_piece_command, demo_piece_id, demo_score,
    demo_session_command, start_demo_session_command,
};
use warming::keyboard::{is_black_key, keyboard_range, pitch_label, sounding_pitches, white_keys};
use warming::learning::PracticeSessionStatus;
use warming::learning_commands::new_session;
use warming::local_library::MidiScanReport;
use warming::music::{
    ArrangementId, BeatPosition, BeatSpan, MusicPiece, MusicPieceId, Note, PianoArrangement, PianoScore, Pitch,
    ScorePart, Tempo,
};
use warming::text::{decimal_text, hex_text, signed_decimal_text};
use warming::demo::{demo_step, DemoStep};
use warming::music_commands::{create_piece, import_arrangement};
use warming::views::{
    shown_title, start_practice_disabled,
    added_message, no_directory_message, piece_summary, practice_arrangement, practice_route, refreshed_message,
    shown_piece,
};

fn note(pitch: u8, start: i64, duration: i64) -> Note {
    Note { pitch: Pitch(pitch), span: BeatSpan::new(BeatPosition::new(start), duration), velocity: Some(70) }
}

fn arrangement(parts: Vec<ScorePart>, tempos: Vec<Tempo>) -> PianoArrangement {
    PianoArrangement {
        id: ArrangementId::new_unchecked("a".to_string()),
        piece_id: MusicPieceId::new_unchecked("p".to_string()),
        title: "Arr".to_string(),
        score: PianoScore { parts, tempos, meters: Vec::new(), key_signatures: Vec::new(), ticks_per_beat: 960 },
    }
}

#[test]
fn errors_read_as_their_kind() {
    assert_eq!(AppError::validation("x".to_string()).to_string(), "validation failed: x");
    assert_eq!(AppError::not_found("music piece".to_string()).to_string(), "not found: music piece");
    assert_eq!(AppError::upstream("disk".to_string()).to_string(), "upstream failed: disk");
    assert_eq!(AppError::database("locked".to_string()).to_string(), "database failed: locked");
    let api = ApiError::from_app_error(&AppError::not_found("practice session".to_string()));
    assert_eq!(api.message, "not found: practice session");
    assert_eq!(api.to_string(), "not found: practice session");
    assert_eq!(ApiError::new("boom".to_string()).to_string(), "boom");
    assert_eq!(default_database_url(), "sqlite://warming.sqlite3");
}

#[test]
fn tempo_labels_round_to_whole_beats() {
    assert_eq!(tempo_label(84, 1), "84 BPM");
    assert_eq!(tempo_label(241, 2), "120 BPM");
    assert_eq!(tempo_label(243, 2), "122 BPM");
    assert_eq!(tempo_label(99_501, 1000), "100 BPM");
    assert_eq!(tempo_label(1, 1), "1 BPM");
    assert_eq!(tempo_label(0, 5), "0 BPM");
    // a tempo with no denominator reads as the slowest one
    assert_eq!(tempo_label(5, 0), "1 BPM");
    // 60 000 000 microseconds per minute over 700 000 per beat: 85.71 beats per minute
    assert_eq!(tempo_label(60_000_000, 700_000), "86 BPM");
    assert_eq!(tempo_label(u64::MAX, 1), format!("{} BPM", u64::MAX));
}

#[test]
fn arrangements_are_listed_with_counts_and_tempo() {
    let parts = vec![
        ScorePart { name: "rh".to_string(), tonality: None, notes: vec![note(60, 0, 960), note(62, 960, 960)] },
        ScorePart { name: "lh".to_string(), tonality: None, notes: vec![note(48, 0, 1920)] },
    ];
    let dto = arrangement_to_dto(arrangement(parts.clone(), vec![Tempo::new(BeatPosition::new(0), 96, 1)]));
    assert_eq!((dto.id.as_str(), dto.piece_id.as_str(), dto.title.as_str()), ("a", "p", "Arr"));
    assert_eq!((dto.part_count, dto.note_count), (2, 3));
    assert_eq!(dto.first_tempo_bpm, Some((96, 1)));
    assert_eq!(dto.tempo_label, "96 BPM");
    let bare = arrangement_to_dto(arrangement(parts, Vec::new()));
    assert_eq!(bare.first_tempo_bpm, None);
    assert_eq!(bare.tempo_label, "No tempo");
}

#[test]
fn pieces_are_listed_with_counts() {
    let mut piece = MusicPiece::new("p".to_string(), "Title".to_string());
    piece.creator = Some("Me".to_string());
    piece.updated_at = "t9".to_string();
    let parts = vec![ScorePart { name: "rh".to_string(), tonality: None, notes: vec![note(60, 0, 960), note(62, 0, 960)] }];
    piece.arrangements.push(arrangement(parts.clone(), Vec::new()));
    piece.arrangements.push(arrangement(parts, Vec::new()));
    assert_eq!(piece_note_total(&piece), Some(4));
    let dto = piece_to_dto(piece);
    assert_eq!((dto.id.as_str(), dto.title.as_str(), dto.updated_at.as_str()), ("p", "Title", "t9"));
    assert_eq!(dto.creator.as_deref(), Some("Me"));
    assert_eq!((dto.arrangement_count, dto.note_count), (2, 4));
}

#[test]
fn sessions_and_reports_are_shown_as_plain_values() {
    assert_eq!(status_label(PracticeSessionStatus::Active), "Active");
    assert_eq!(status_label(PracticeSessionStatus::Completed), "Completed");
    assert_eq!(status_label(PracticeSessionStatus::Abandoned), "Abandoned");
    let command = demo_session_command("demo-twinkle", "demo-twinkle-piano", 5).unwrap();
    let session = new_session(command, false).unwrap().session;
    let dto = session_to_dto(session);
    assert_eq!(dto.id, "session-5");
    assert_eq!((dto.piece_id.as_str(), dto.arrangement_id.as_str()), ("demo-twinkle", "demo-twinkle-piano"));
    assert_eq!(dto.target_speed_permille, 1000);
    assert_eq!(dto.status, "Active");
    assert_eq!(dto.attempt_count, 0);
    assert_eq!(dto.started_at, "2026-07-03T00:02:00Z");
    let mut report = MidiScanReport::new(vec!["/m".to_string()]);
    report.record_scan(4);
    let shown = report_to_dto(report);
    assert_eq!((shown.discovered_files, shown.registered_files), (4, 0));
    assert_eq!(shown.watched_directories, vec!["/m".to_string()]);
}

#[test]
fn previews_sort_notes_and_measure_the_score() {
    let parts = vec![
        ScorePart { name: "rh".to_string(), tonality: None, notes: vec![note(72, 960, 960), note(64, 0, 480)] },
        ScorePart { name: "lh".to_string(), tonality: None, notes: vec![note(48, 0, 2880), note(50, 960, 100)] },
    ];
    let preview = score_preview(arrangement(parts, vec![Tempo::new(BeatPosition::new(0), 180, 2)]));
    let order: Vec<(i64, u8, &str)> =
        preview.notes.iter().map(|n| (n.start_ticks, n.pitch, n.part_name.as_str())).collect();
    assert_eq!(order, vec![(0, 48, "lh"), (0, 64, "rh"), (960, 50, "lh"), (960, 72, "rh")]);
    assert_eq!((preview.lowest_pitch, preview.highest_pitch), (48, 72));
    assert_eq!(preview.total_ticks, 2880);
    assert_eq!((preview.bpm_numerator, preview.bpm_denominator), (180, 2));
    assert_eq!(preview.ticks_per_beat, 960);
    assert_eq!((preview.piece_id.as_str(), preview.arrangement_id.as_str(), preview.title.as_str()), ("p", "a", "Arr"));
    let empty = score_preview(arrangement(Vec::new(), Vec::new()));
    assert!(empty.notes.is_empty());
    assert_eq!((empty.lowest_pitch, empty.highest_pitch), (21, 108));
    assert_eq!(empty.total_ticks, 960);
    assert_eq!((empty.bpm_numerator, empty.bpm_denominator), (120, 1));
}

#[test]
fn keyboard_keys() {
    let black: Vec<u8> = (60..72).filter(|p| is_black_key(*p)).collect();
    assert_eq!(black, vec![61, 63, 66, 68, 70]);
    assert_eq!(pitch_label(60), "C5");
    assert_eq!(pitch_label(61), "C#5");
    assert_eq!(pitch_label(21), "A1");
    assert_eq!(pitch_label(0), "C0");
    assert_eq!(pitch_label(127), "G10");
}

#[test]
fn the_demo_piece() {
    let score = demo_score();
    assert_eq!(score.parts.len(), 1);
    assert_eq!(score.parts[0].name, "Right hand");
    let pitches: Vec<u8> = score.parts[0].notes.iter().map(|n| n.pitch.0).collect();
    assert_eq!(pitches, vec![60, 60, 67, 67, 69, 69, 67, 65, 65, 64, 64, 62, 62, 60]);
    assert_eq!(score.parts[0].notes[13].span.start.ticks, 13 * 960);
    assert!(score.parts[0].notes.iter().all(|n| n.span.duration_ticks == 960 && n.velocity == Some(90)));
    assert_eq!((score.tempos[0].bpm_numerator, score.tempos[0].bpm_denominator), (84, 1));
    assert_eq!(score.ticks_per_beat, 960);
    assert_eq!((score.meters[0].numerator, score.meters[0].denominator), (4, 4));
    assert_eq!(demo_piece_id().as_str(), "demo-twinkle");
    assert_eq!(demo_arrangement_id().as_str(), "demo-twinkle-piano");
    let create = demo_piece_command();
    assert_eq!(create.title, "Twinkle Practice Demo");
    assert_eq!(create.creator.as_deref(), Some("warming"));
    assert_eq!(create.now, "2026-07-03T00:00:00Z");
    let import = demo_arrangement_command();
    assert_eq!(import.title, "Right hand starter");
    assert_eq!(import.now, "2026-07-03T00:01:00Z");
    assert_eq!(import.score.parts[0].notes.len(), 14);
}

#[test]
fn demo_sessions_need_both_identities() {
    let command = demo_session_command(" demo-twinkle ", "demo-twinkle-piano", 1_700_000_000_123).unwrap();
    assert_eq!(command.session_id.as_str(), "session-1700000000123");
    assert_eq!(command.piece_id.as_str(), "demo-twinkle");
    assert_eq!(command.exercise_id.as_str(), "full-score");
    assert!(command.segment.is_none() && command.playable_range.is_none());
    assert_eq!(demo_session_command("  ", "a", 1).unwrap_err().message, "music: invalid id: ''");
    assert_eq!(demo_session_command("p", "", 1).unwrap_err().message, "music: invalid id: ''");
    let now = start_demo_session_command("p", "a").unwrap();
    assert!(now.session_id.as_str().starts_with("session-"));
    assert!(start_demo_session_command("p", " ").is_err());
}

#[test]
fn numbers_as_text() {
    assert_eq!(decimal_text(0), "0");
    assert_eq!(decimal_text(1_234_567), "1234567");
    assert_eq!(decimal_text(u128::MAX), u128::MAX.to_string());
    assert_eq!(signed_decimal_text(-42), "-42");
    assert_eq!(signed_decimal_text(i64::MIN), i64::MIN.to_string());
    assert_eq!(hex_text(0xbeef, 8), "0000beef");
    assert_eq!(hex_text(u64::MAX, 16), "ffffffffffffffff");
    assert_eq!(hex_text(0x1234, 2), "34");
}

#[test]
fn keyboard_layout_of_a_preview() {
    assert_eq!(keyboard_range(60, 72), (58, 74));
    assert_eq!(keyboard_range(0, 255), (21, 108));
    assert_eq!(keyboard_range(22, 107), (21, 108));
    assert_eq!(white_keys(60, 72), vec![60, 62, 64, 65, 67, 69, 71, 72]);
    assert_eq!(white_keys(61, 61), Vec::<u8>::new());
    assert_eq!(white_keys(72, 60), Vec::<u8>::new());
    assert_eq!(white_keys(250, 255), vec![251, 252, 254]);
    let n = |pitch: u8, start: i64, duration: i64| FallingNoteDTO {
        pitch,
        start_ticks: start,
        duration_ticks: duration,
        velocity: None,
        part_name: "rh".to_string(),
    };
    let notes = vec![n(60, 0, 960), n(64, 960, 960), n(67, 0, 1920), n(70, i64::MAX, i64::MAX)];
    assert_eq!(sounding_pitches(&notes, 0), vec![60, 67]);
    assert_eq!(sounding_pitches(&notes, 960), vec![60, 64, 67]);
    assert_eq!(sounding_pitches(&notes, 1921), Vec::<u8>::new());
    assert_eq!(sounding_pitches(&notes, i64::MAX), vec![70]);
}

#[test]
fn views_choose_and_describe() {
    let dto = |id: &str| MusicPieceDTO {
        id: id.to_string(),
        title: "T".to_string(),
        creator: None,
        arrangement_count: 2,
        note_count: 31,
        updated_at: "t".to_string(),
    };
    let pieces = vec![dto("a"), dto("b"), dto("b")];
    assert_eq!(shown_piece(&pieces, "b"), Some(1));
    assert_eq!(shown_piece(&pieces, "zzz"), Some(0));
    assert_eq!(shown_piece(&pieces, ""), Some(0));
    assert_eq!(shown_piece(&Vec::new(), "a"), None);
    assert_eq!(practice_route("demo-twinkle", "demo-twinkle-piano"), "/practice/demo-twinkle/demo-twinkle-piano");
    assert_eq!(practice_arrangement(3), Ok(0));
    assert_eq!(practice_arrangement(0).unwrap_err(), "No arrangement available");
    assert_eq!(piece_summary(&pieces[0]), "2 arrangements · 31 notes");
    let report = MidiScanReportDTO { watched_directories: vec!["/a".to_string(), "/b".to_string()], discovered_files: 5, registered_files: 3 };
    assert_eq!(added_message(&report), "成功添加！正在监听 2 个目录，扫描到 5 个 MIDI，登记 3 个曲目。");
    assert_eq!(refreshed_message(&report), "已成功刷新！当前正在监听 2 个目录。");
    assert_eq!(no_directory_message(true), "未选择任何目录");
    assert_eq!(no_directory_message(false), "此平台暂不支持目录选择");
}

#[test]
fn the_demo_settles_after_one_round() {
    assert_eq!(demo_step(None), DemoStep::CreatePiece);
    let piece = create_piece(demo_piece_command(), false).unwrap().piece;
    assert_eq!(demo_step(Some(&piece)), DemoStep::ImportArrangement);
    let piece = import_arrangement(Some(piece), demo_arrangement_command()).unwrap().piece;
    assert_eq!(demo_step(Some(&piece)), DemoStep::Ready);
    let again = import_arrangement(Some(piece.clone()), demo_arrangement_command()).unwrap().piece;
    assert_eq!(again.arrangements.len(), piece.arrangements.len());
}

#[test]
fn the_home_view_title_and_start_button() {
    let dto = MusicPieceDTO {
        id: "a".to_string(),
        title: "Etude".to_string(),
        creator: None,
        arrangement_count: 0,
        note_count: 0,
        updated_at: String::new(),
    };
    let pieces = vec![dto];
    assert_eq!(shown_title(&pieces, Some(0)), "Etude");
    assert_eq!(shown_title(&pieces, None), "No score selected");
    assert_eq!(shown_title(&pieces, Some(3)), "No score selected");
    assert!(start_practice_disabled(None));
    assert!(!start_practice_disabled(Some(0)));
}
