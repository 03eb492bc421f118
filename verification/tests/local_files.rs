use std::collections::hash_map::DefaultHasher;
use std::hash::{Hash, Hasher};

use warming::local_library::{
    directory_request, has_midi_extension, has_midi_header, is_midi_extension, local_midi_arrangement_id,
    local_midi_piece_id, midi_fingerprint, midi_title, plan_registration, registration_import_command,
    registration_piece_command, timestamp_text, unix_timestamp_seconds, DiscoveredMidiFile, MidiScanReport,
    RegisterLocalMidiFileCommand, RegistrationPlan,
};
use warming::music::{ArrangementId, MusicPiece, PianoArrangement, PianoScore};

fn hash_of(text: &str) -> u64 {
    let mut hasher = DefaultHasher::new();
    text.hash(&mut hasher);
    hasher.finish()
}

fn command() -> RegisterLocalMidiFileCommand {
    RegisterLocalMidiFileCommand {
        file: DiscoveredMidiFile {
            path: "/music/Etude.mid".to_string(),
            title: "Etude".to_string(),
            fingerprint: "/music/Etude.mid:120:1700000000".to_string(),
        },
        discovered_at: "1700000001".to_string(),
    }
}

#[test]
fn identities_come_from_the_fingerprint_hash() {
    let fingerprint = "/music/Etude.mid:120:1700000000";
    let piece = local_midi_piece_id(fingerprint);
    assert_eq!(piece.as_str(), format!("midi-{:016x}", hash_of(fingerprint)));
    assert_eq!(piece.as_str().len(), 5 + 16);
    let arrangement = local_midi_arrangement_id(fingerprint);
    assert_eq!(arrangement.as_str(), format!("midi-arrangement-{:016x}", hash_of(fingerprint)));
    assert_eq!(local_midi_piece_id(fingerprint), piece);
    assert_ne!(local_midi_piece_id("other").as_str(), piece.as_str());
}

#[test]
fn titles_come_from_the_file_stem() {
    assert_eq!(midi_title("/music/ Song .mid"), "Song");
    assert_eq!(midi_title("Etude.midi"), "Etude");
    assert_eq!(midi_title("/music/   .mid"), "/music/   .mid");
    assert_eq!(midi_title("/"), "/");
}

#[test]
fn extensions_and_headers() {
    assert!(is_midi_extension("mid"));
    assert!(is_midi_extension("MIDI"));
    assert!(is_midi_extension("MiD"));
    assert!(!is_midi_extension("mi"));
    assert!(!is_midi_extension("midis"));
    assert!(!is_midi_extension("mp3"));
    assert!(has_midi_extension("/a/b.MID"));
    assert!(has_midi_extension("b.midi"));
    assert!(!has_midi_extension("/a/b"));
    assert!(!has_midi_extension("/a/b.txt"));
    assert!(has_midi_header(b"MThd\x00\x00\x00\x06"));
    assert!(!has_midi_header(b"MTh"));
    assert!(!has_midi_header(b"RIFF...."));
}

#[test]
fn fingerprints_and_timestamps() {
    assert_eq!(midi_fingerprint("/m/a.mid", 120, 1_700_000_000), "/m/a.mid:120:1700000000");
    assert_eq!(midi_fingerprint("x", 0, 0), "x:0:0");
    assert_eq!(timestamp_text(Some(42)), "42");
    assert_eq!(timestamp_text(None), "0");
    let now = unix_timestamp_seconds();
    assert!(!now.is_empty() && now.chars().all(|c| c.is_ascii_digit()));
}

#[test]
fn directories_are_trimmed_and_not_empty() {
    assert_eq!(directory_request("  /music  ").unwrap(), "/music");
    assert_eq!(directory_request(" \t ").unwrap_err(), "directory path is empty");
}

#[test]
fn registration_plans() {
    let arrangement_id = local_midi_arrangement_id(&command().file.fingerprint);
    assert_eq!(plan_registration(None, &arrangement_id), RegistrationPlan::CreatePieceAndImport);
    let mut piece = MusicPiece::new(local_midi_piece_id(&command().file.fingerprint).as_str().to_string(), "Etude".to_string());
    assert_eq!(plan_registration(Some(&piece), &arrangement_id), RegistrationPlan::ImportIntoPiece);
    piece.arrangements.push(PianoArrangement {
        id: arrangement_id.clone(),
        piece_id: piece.id.clone(),
        title: "MIDI import".to_string(),
        score: PianoScore::default(),
    });
    assert_eq!(plan_registration(Some(&piece), &arrangement_id), RegistrationPlan::AlreadyRegistered);
    let other = ArrangementId::new_unchecked("other".to_string());
    assert_eq!(plan_registration(Some(&piece), &other), RegistrationPlan::ImportIntoPiece);
}

#[test]
fn registration_commands() {
    let input = command();
    let create = registration_piece_command(&input);
    assert_eq!(create.piece_id, local_midi_piece_id(&input.file.fingerprint));
    assert_eq!(create.title, "Etude");
    assert_eq!(create.creator.as_deref(), Some("/music/Etude.mid"));
    assert_eq!(create.now, "1700000001");
    let import = registration_import_command(&input, PianoScore::default());
    assert_eq!(import.piece_id, create.piece_id);
    assert_eq!(import.arrangement_id, local_midi_arrangement_id(&input.file.fingerprint));
    assert_eq!(import.title, "MIDI import");
    assert_eq!(import.now, "1700000001");
    assert!(import.score.parts.is_empty());
}

#[test]
fn scan_reports_count() {
    let mut report = MidiScanReport::new(vec!["/music".to_string()]);
    assert_eq!((report.discovered_files, report.registered_files), (0, 0));
    report.record_scan(3);
    report.record_scan(2);
    report.record_registration(true);
    report.record_registration(false);
    assert_eq!(report.discovered_files, 5);
    assert_eq!(report.registered_files, 1);
    assert_eq!(report.watched_directories, vec!["/music".to_string()]);
}
