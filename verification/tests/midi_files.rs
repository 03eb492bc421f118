use warming::midi::{parse_midi_score, read_midi_file, score_from_midi, sort_by_start_and_pitch, MidiEvent, MidiEventKind, MidiFile};
use warming::music::{BeatPosition, BeatSpan, Note, Pitch};

fn track(events: &[u8]) -> Vec<u8> {
    let mut out = b"MTrk".to_vec();
    out.extend_from_slice(&(events.len() as u32).to_be_bytes());
    out.extend_from_slice(events);
    out
}

fn smf(ticks_per_beat: u16, tracks: &[Vec<u8>]) -> Vec<u8> {
    let mut out = b"MThd".to_vec();
    out.extend_from_slice(&[0, 0, 0, 6]);
    let format: u16 = if tracks.len() == 1 { 0 } else { 1 };
    out.extend_from_slice(&format.to_be_bytes());
    out.extend_from_slice(&(tracks.len() as u16).to_be_bytes());
    out.extend_from_slice(&ticks_per_beat.to_be_bytes());
    for t in tracks {
        out.extend_from_slice(t);
    }
    out
}

fn sample_track() -> Vec<u8> {
    track(&[
        0x00, 0xFF, 0x03, 0x07, b' ', b'P', b'i', b'a', b'n', b'o', b' ', // track name " Piano "
        0x00, 0xFF, 0x51, 0x03, 0x07, 0xA1, 0x20, // tempo 500000 us per quarter
        0x00, 0xFF, 0x58, 0x04, 0x03, 0x02, 0x18, 0x08, // 3/4
        0x00, 0x90, 0x40, 0x50, // E4 on, velocity 80
        0x00, 0x90, 0x3C, 0x40, // C4 on, velocity 64
        0x83, 0x60, 0x80, 0x3C, 0x40, // 480 ticks later C4 off
        0x00, 0x90, 0x40, 0x00, // E4 off as a note-on with velocity 0
        0x00, 0xFF, 0x2F, 0x00,
    ])
}

#[test]
fn reads_notes_names_tempo_and_meter() {
    let bytes = smf(480, &[sample_track()]);
    let score = parse_midi_score(&bytes).unwrap();
    assert_eq!(score.parts.len(), 1);
    let part = &score.parts[0];
    assert_eq!(part.name, "Piano");
    assert!(part.tonality.is_none());
    let pitches: Vec<u8> = part.notes.iter().map(|n| n.pitch.0).collect();
    assert_eq!(pitches, vec![60, 64]);
    for n in &part.notes {
        assert_eq!(n.span.start.ticks, 0);
        assert_eq!(n.span.duration_ticks, 480);
    }
    assert_eq!(score.ticks_per_beat, 480);
    assert_eq!(part.notes[0].velocity, Some(64));
    assert_eq!(part.notes[1].velocity, Some(80));
    assert_eq!(score.tempos.len(), 1);
    assert_eq!((score.tempos[0].bpm_numerator, score.tempos[0].bpm_denominator), (60_000_000, 500_000));
    assert_eq!(score.tempos[0].at.ticks, 0);
    assert_eq!((score.meters[0].numerator, score.meters[0].denominator), (3, 4));
    assert!(score.key_signatures.is_empty());
}

#[test]
fn defaults_names_tempo_and_meter() {
    let plain = track(&[0x00, 0x90, 0x3C, 0x40, 0x60, 0x80, 0x3C, 0x00, 0x00, 0xFF, 0x2F, 0x00]);
    let empty = track(&[0x00, 0xFF, 0x2F, 0x00]);
    let bytes = smf(96, &[empty, plain]);
    let score = parse_midi_score(&bytes).unwrap();
    assert_eq!(score.parts.len(), 1);
    assert_eq!(score.parts[0].name, "Track 2");
    assert_eq!(score.parts[0].notes[0].span.duration_ticks, 96);
    assert_eq!(score.ticks_per_beat, 96);
    assert_eq!((score.tempos[0].bpm_numerator, score.tempos[0].bpm_denominator), (120, 1));
    assert_eq!((score.meters[0].numerator, score.meters[0].denominator), (4, 4));
}

#[test]
fn refuses_files_without_notes() {
    let bytes = smf(480, &[track(&[0x00, 0xFF, 0x2F, 0x00])]);
    assert_eq!(parse_midi_score(&bytes).unwrap_err(), "MIDI contains no note events");
}

#[test]
fn refuses_what_is_not_midi() {
    assert!(parse_midi_score(b"hello").is_err());
    assert!(read_midi_file(b"").is_err());
}

#[test]
fn refuses_timecode_and_zero_ticks() {
    let file = MidiFile { ticks_per_beat: None, tracks: Vec::new() };
    assert_eq!(score_from_midi(&file).unwrap_err(), "SMPTE timecode MIDI timing is not supported yet");
    let file = MidiFile { ticks_per_beat: Some(0), tracks: Vec::new() };
    assert_eq!(score_from_midi(&file).unwrap_err(), "MIDI ticks per beat is invalid");
}

#[test]
fn zero_length_notes_and_unmatched_releases_are_dropped() {
    let events = vec![
        MidiEvent { delta: 0, kind: MidiEventKind::NoteOff { channel: 0, key: 60 } },
        MidiEvent { delta: 0, kind: MidiEventKind::NoteOn { channel: 0, key: 61, velocity: 10 } },
        MidiEvent { delta: 0, kind: MidiEventKind::NoteOff { channel: 0, key: 61 } },
        MidiEvent { delta: 0, kind: MidiEventKind::NoteOn { channel: 1, key: 62, velocity: 20 } },
        MidiEvent { delta: 0, kind: MidiEventKind::NoteOn { channel: 1, key: 62, velocity: 30 } },
        MidiEvent { delta: 960, kind: MidiEventKind::NoteOff { channel: 1, key: 62 } },
        MidiEvent { delta: 960, kind: MidiEventKind::NoteOff { channel: 1, key: 62 } },
        MidiEvent { delta: 0, kind: MidiEventKind::Tempo(0) },
        MidiEvent { delta: 0, kind: MidiEventKind::TimeSignature(0, 9) },
        MidiEvent { delta: 0, kind: MidiEventKind::TrackName(vec![0xFF, 0xFE]) },
    ];
    let file = MidiFile { ticks_per_beat: Some(960), tracks: vec![events] };
    let score = score_from_midi(&file).unwrap();
    let part = &score.parts[0];
    assert_eq!(part.name, "Track 1");
    // the later press is released first
    let spans: Vec<(i64, i64, Option<u8>)> =
        part.notes.iter().map(|n| (n.span.start.ticks, n.span.duration_ticks, n.velocity)).collect();
    assert_eq!(spans, vec![(0, 960, Some(30)), (0, 1920, Some(20))]);
    assert_eq!((score.tempos[0].bpm_numerator, score.tempos[0].bpm_denominator), (120, 1));
    assert_eq!((score.meters[0].numerator, score.meters[0].denominator), (1, 255));
}

#[test]
fn positions_stay_exact_in_the_file_ticks() {
    // one tick held at 1000 ticks per beat still makes a note
    let short = track(&[0x00, 0x90, 0x3C, 0x40, 0x01, 0x80, 0x3C, 0x00, 0x00, 0xFF, 0x2F, 0x00]);
    let score = parse_midi_score(&smf(1000, &[short])).unwrap();
    assert_eq!(score.ticks_per_beat, 1000);
    assert_eq!(score.parts[0].notes[0].span.duration_ticks, 1);
    // a tempo at tick 1 of 7 ticks per beat lies at 1/7 beat
    let events = vec![
        MidiEvent { delta: 1, kind: MidiEventKind::Tempo(600_000) },
        MidiEvent { delta: 0, kind: MidiEventKind::NoteOn { channel: 0, key: 60, velocity: 9 } },
        MidiEvent { delta: 3, kind: MidiEventKind::NoteOff { channel: 0, key: 60 } },
    ];
    let score = score_from_midi(&MidiFile { ticks_per_beat: Some(7), tracks: vec![events] }).unwrap();
    assert_eq!(score.ticks_per_beat, 7);
    assert_eq!(score.tempos[0].at.ticks, 1);
    assert_eq!((score.tempos[0].bpm_numerator, score.tempos[0].bpm_denominator), (60_000_000, 600_000));
    assert_eq!((score.parts[0].notes[0].span.start.ticks, score.parts[0].notes[0].span.duration_ticks), (1, 3));
    // a tempo slower than one beat per minute counts as one
    let slow = vec![
        MidiEvent { delta: 0, kind: MidiEventKind::Tempo(70_000_000) },
        MidiEvent { delta: 0, kind: MidiEventKind::NoteOn { channel: 0, key: 60, velocity: 9 } },
        MidiEvent { delta: 3, kind: MidiEventKind::NoteOff { channel: 0, key: 60 } },
    ];
    let score = score_from_midi(&MidiFile { ticks_per_beat: Some(7), tracks: vec![slow] }).unwrap();
    assert_eq!((score.tempos[0].bpm_numerator, score.tempos[0].bpm_denominator), (1, 1));
}

#[test]
fn notes_sort_by_start_then_pitch() {
    let n = |p: u8, s: i64| Note { pitch: Pitch(p), span: BeatSpan::new(BeatPosition::new(s), 1), velocity: None };
    let sorted = sort_by_start_and_pitch(&vec![n(64, 10), n(60, 10), n(70, 0), n(60, 10)]);
    let keys: Vec<(i64, u8)> = sorted.iter().map(|x| (x.span.start.ticks, x.pitch.0)).collect();
    assert_eq!(keys, vec![(0, 70), (10, 60), (10, 60), (10, 64)]);
}
