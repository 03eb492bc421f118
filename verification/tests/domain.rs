use warming::learning::{
    AttemptId, ExerciseId, LearningIdInvalidError, PlayableRange, PracticeInstrument, PracticeSessionId,
};
use warming::music::{
    ArrangementId, BeatPosition, BeatSpan, Meter, MusicIdInvalidError, MusicPiece, MusicPieceId, PianoScore, Pitch,
    Tempo,
};

#[test]
fn music_ids_are_trimmed_and_not_empty() {
    let id = MusicPieceId::parse("  piece-1 \n").unwrap();
    assert_eq!(id.as_str(), "piece-1");
    assert_eq!(id.to_string(), "piece-1");
    let err: MusicIdInvalidError = MusicPieceId::parse(" \t ").unwrap_err();
    assert_eq!(err.to_string(), "music: invalid id: ''");
    let arr = ArrangementId::parse("a1").unwrap();
    assert_eq!(arr.as_str(), "a1");
    assert!(ArrangementId::parse("").is_err());
    assert_eq!(MusicPieceId::new_unchecked("  raw ".to_string()).as_str(), "  raw ");
}

#[test]
fn parsing_a_parsed_identity_gives_it_back() {
    let once = MusicPieceId::parse("\u{3000}quiet\u{a0}").unwrap();
    assert_eq!(once.as_str(), "quiet");
    let twice = MusicPieceId::parse(once.as_str()).unwrap();
    assert_eq!(twice.as_str(), once.as_str());
}

#[test]
fn learning_ids_are_trimmed_and_not_empty() {
    assert_eq!(PracticeSessionId::parse(" s1 ").unwrap().as_str(), "s1");
    assert_eq!(ExerciseId::parse("e1").unwrap().as_str(), "e1");
    assert_eq!(AttemptId::parse("\tatt\t").unwrap().as_str(), "att");
    let err: LearningIdInvalidError = AttemptId::parse("   ").unwrap_err();
    assert_eq!(err.to_string(), "learning: invalid id: ''");
    assert_eq!(PracticeSessionId::new_unchecked("x".to_string()).to_string(), "x");
}

#[test]
fn pitch_parse_accepts_midi_range_only() {
    assert_eq!(Pitch::parse(0).unwrap().midi_number(), 0);
    assert_eq!(Pitch::parse(127).unwrap().midi_number(), 127);
    let low = Pitch::parse(-1).unwrap_err();
    assert_eq!(low.value, -1);
    assert_eq!(low.to_string(), "music: invalid pitch: '-1'");
    assert_eq!(Pitch::parse(128).unwrap_err().to_string(), "music: invalid pitch: '128'");
    assert_eq!(Pitch::new_unchecked(200).midi_number(), 200);
}

#[test]
fn playable_range_checks_its_bounds() {
    let range = PlayableRange::new(Pitch(48), Pitch(72)).unwrap();
    assert!(range.contains(Pitch(48)));
    assert!(range.contains(Pitch(72)));
    assert!(!range.contains(Pitch(47)));
    assert!(!range.contains(Pitch(73)));
    assert_eq!(range.key_count(), 25);
    let single = PlayableRange::new(Pitch(60), Pitch(60)).unwrap();
    assert_eq!(single.key_count(), 1);
    let err = PlayableRange::new(Pitch(70), Pitch(60)).unwrap_err();
    assert_eq!(err.lowest, 70);
    assert_eq!(err.highest, 60);
    assert_eq!(err.to_string(), "learning: invalid playable range: lowest '70' is above highest '60'");
    let piano = PlayableRange::new(Pitch(21), Pitch(108)).unwrap();
    assert_eq!(piano.key_count(), 88);
    for r in [range, single, piano] {
        let held = (0u8..=255).filter(|&p| r.contains(Pitch::new_unchecked(p))).count();
        assert_eq!(r.key_count() as usize, held);
    }
    let instrument = PracticeInstrument::new(range);
    assert_eq!(instrument.playable_range, range);
}

#[test]
fn value_constructors_clamp() {
    assert_eq!(BeatPosition::new(-5).ticks, 0);
    assert_eq!(BeatPosition::new(7).ticks, 7);
    assert_eq!(BeatSpan::new(BeatPosition::new(3), -2).duration_ticks, 0);
    assert_eq!(BeatSpan::new(BeatPosition::new(3), 9).duration_ticks, 9);
    let slow = Tempo::new(BeatPosition::new(0), 1, 2);
    assert_eq!((slow.bpm_numerator, slow.bpm_denominator), (1, 1));
    let no_denominator = Tempo::new(BeatPosition::new(0), 5, 0);
    assert_eq!((no_denominator.bpm_numerator, no_denominator.bpm_denominator), (1, 1));
    let exact = Tempo::new(BeatPosition::new(7), 60_000_000, 700_000);
    assert_eq!((exact.at.ticks, exact.bpm_numerator, exact.bpm_denominator), (7, 60_000_000, 700_000));
    let m = Meter::new(0, 0);
    assert_eq!((m.numerator, m.denominator), (1, 1));
    let m = Meter::new(6, 8);
    assert_eq!((m.numerator, m.denominator), (6, 8));
}

#[test]
fn new_piece_is_bare() {
    let piece = MusicPiece::new("p".to_string(), "Title".to_string());
    assert_eq!(piece.id.as_str(), "p");
    assert_eq!(piece.title, "Title");
    assert!(piece.creator.is_none());
    assert!(piece.arrangements.is_empty());
    assert!(piece.created_at.is_empty());
    let score = PianoScore::default();
    assert!(score.parts.is_empty() && score.tempos.is_empty() && score.meters.is_empty());
    assert_eq!(score.ticks_per_beat, 960);
}
