use warming::judge::{collect_target_notes, sort_by_start, PracticeJudge};
use warming::learning::{Judgement, JudgementKind, PlayableRange, UserPerformance};
use warming::music::{BeatPosition, BeatSpan, Note, Pitch, ScorePart};

fn note(pitch: u8, start: i64) -> Note {
    Note { pitch: Pitch(pitch), span: BeatSpan::new(BeatPosition::new(start), 960), velocity: Some(80) }
}

fn kinds(js: &[Judgement]) -> Vec<JudgementKind> {
    js.iter().map(|j| j.kind).collect()
}

#[test]
fn exact_performance_hits_every_target() {
    let targets = vec![note(60, 0), note(62, 960), note(62, 960), note(64, 1920)];
    let perf = UserPerformance { notes: targets.clone() };
    let js = PracticeJudge::judge(&targets, &perf, 0);
    assert_eq!(js, vec![Judgement { kind: JudgementKind::Hit, timing_offset_ticks: 0 }; 4]);
}

#[test]
fn silence_misses_every_target() {
    let targets = vec![note(60, 0), note(62, 960)];
    let js = PracticeJudge::judge(&targets, &UserPerformance::default(), 100);
    assert_eq!(js, vec![Judgement { kind: JudgementKind::Missed, timing_offset_ticks: 0 }; 2]);
}

#[test]
fn nothing_asked_makes_every_note_extra() {
    let perf = UserPerformance { notes: vec![note(60, 0), note(61, 5)] };
    let js = PracticeJudge::judge(&Vec::new(), &perf, 100);
    assert_eq!(js, vec![Judgement { kind: JudgementKind::Extra, timing_offset_ticks: 0 }; 2]);
}

#[test]
fn hits_take_the_closest_note_within_tolerance() {
    let targets = vec![note(60, 1000)];
    let perf = UserPerformance { notes: vec![note(60, 1080), note(60, 970), note(60, 1200)] };
    let js = PracticeJudge::judge(&targets, &perf, 100);
    assert_eq!(js[0], Judgement { kind: JudgementKind::Hit, timing_offset_ticks: -30 });
    // the two left over lie 80 and 200 ticks from the target
    assert_eq!(js[1], Judgement { kind: JudgementKind::WrongPitch, timing_offset_ticks: 80 });
    assert_eq!(js[2], Judgement { kind: JudgementKind::Extra, timing_offset_ticks: 200 });
    assert_eq!(js.len(), 3);
}

#[test]
fn ties_go_to_the_first_performed_note() {
    let targets = vec![note(60, 1000)];
    let perf = UserPerformance { notes: vec![note(60, 1050), note(60, 950)] };
    let js = PracticeJudge::judge(&targets, &perf, 100);
    assert_eq!(js[0], Judgement { kind: JudgementKind::Hit, timing_offset_ticks: 50 });
    assert_eq!(js[1], Judgement { kind: JudgementKind::WrongPitch, timing_offset_ticks: -50 });
}

#[test]
fn wrong_pitch_and_late_notes() {
    let targets = vec![note(60, 0), note(64, 960)];
    let perf = UserPerformance { notes: vec![note(61, 10), note(64, 2000)] };
    let js = PracticeJudge::judge(&targets, &perf, 120);
    assert_eq!(kinds(&js), vec![
        JudgementKind::Missed,
        JudgementKind::Missed,
        JudgementKind::WrongPitch,
        JudgementKind::Extra,
    ]);
    assert_eq!(js[2].timing_offset_ticks, 10);
    assert_eq!(js[3].timing_offset_ticks, 1040);
}

#[test]
fn negative_tolerance_hits_nothing() {
    let targets = vec![note(60, 0)];
    let perf = UserPerformance { notes: vec![note(60, 0)] };
    let js = PracticeJudge::judge(&targets, &perf, -1);
    assert_eq!(kinds(&js), vec![JudgementKind::Missed, JudgementKind::Extra]);
}

#[test]
fn targets_are_filtered_and_sorted_by_start() {
    let parts = vec![
        ScorePart { name: "rh".to_string(), tonality: None, notes: vec![note(72, 1920), note(60, 0), note(90, 960)] },
        ScorePart { name: "lh".to_string(), tonality: None, notes: vec![note(48, 960), note(40, 0)] },
    ];
    let range = PlayableRange::new(Pitch(45), Pitch(80)).unwrap();
    let all = collect_target_notes(&parts, None, None);
    let starts: Vec<i64> = all.iter().map(|n| n.span.start.ticks).collect();
    assert_eq!(starts, vec![0, 0, 960, 960, 1920]);
    let pitches: Vec<u8> = all.iter().map(|n| n.pitch.0).collect();
    assert_eq!(pitches, vec![60, 40, 90, 48, 72]);
    let ranged = collect_target_notes(&parts, None, Some(&range));
    let pitches: Vec<u8> = ranged.iter().map(|n| n.pitch.0).collect();
    assert_eq!(pitches, vec![60, 48, 72]);
    let segment = BeatSpan::new(BeatPosition::new(960), 960);
    let seg = collect_target_notes(&parts, Some(segment), Some(&range));
    let pitches: Vec<u8> = seg.iter().map(|n| n.pitch.0).collect();
    assert_eq!(pitches, vec![48, 72]);
}

#[test]
fn sorting_by_start_is_stable() {
    let notes = vec![note(1, 5), note(2, 3), note(3, 5), note(4, 3), note(5, 0)];
    let sorted = sort_by_start(&notes);
    let pitches: Vec<u8> = sorted.iter().map(|n| n.pitch.0).collect();
    assert_eq!(pitches, vec![5, 2, 4, 1, 3]);
}
