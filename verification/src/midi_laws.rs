use vstd::prelude::*;
use crate::midi::{
    event_in_range, events_in_range, midi_score_spec, release, scan_event, scan_events, scan_tracks,
    sorted_by_start_and_pitch, start_pitch_keys, HeldKey, MidiEvent, ScoreModel, TrackScan,
    MidiEventKind, score_ticks, tempo_of,
};
use crate::music::{Meter, Note, Tempo};
use crate::order::{key_le, lemma_stable_order, stable_order};

verus! {

/// A tempo of at least one beat per minute, from a position not before the start.
pub open spec fn good_tempo(t: Tempo) -> bool {
    t.bpm_denominator > 0 && t.bpm_numerator >= t.bpm_denominator && t.at.ticks >= 0
}

/// A time signature without a zero part.
pub open spec fn good_meter(m: Meter) -> bool {
    m.numerator >= 1 && m.denominator >= 1
}

/// A note of a MIDI key (below 128), pressed with a velocity from 1 to 127,
/// that starts at or after the start and lasts at least one tick.
pub open spec fn good_note(n: Note) -> bool {
    &&& n.pitch.0 <= 127
    &&& n.velocity matches Some(v) && 1 <= v <= 127
    &&& n.span.start.ticks >= 0
    &&& n.span.duration_ticks > 0
}

/// A key held with a velocity from 1 to 127.
pub open spec fn good_held(h: HeldKey) -> bool {
    1 <= h.3 <= 127
}

pub open spec fn all_good(s: TrackScan) -> bool {
    &&& forall|i: int| 0 <= i < s.held.len() ==> good_held(#[trigger] s.held[i])
    &&& forall|i: int| 0 <= i < s.tempos.len() ==> good_tempo(#[trigger] s.tempos[i])
    &&& forall|i: int| 0 <= i < s.meters.len() ==> good_meter(#[trigger] s.meters[i])
    &&& forall|i: int| 0 <= i < s.notes.len() ==> good_note(#[trigger] s.notes[i])
}

proof fn lemma_scan_event_good(s: TrackScan, ev: MidiEvent)
    requires
        all_good(s),
        event_in_range(ev),
    ensures
        all_good(scan_event(s, ev)),
{
    let ticks = if s.ticks + ev.delta > u64::MAX { u64::MAX } else { (s.ticks + ev.delta) as u64 };
    let t = TrackScan { ticks, ..s };
    match ev.kind {
        crate::midi::MidiEventKind::NoteOn { channel, key, velocity } => {
            if velocity == 0 {
                lemma_release_good(t, channel, key);
            }
        },
        crate::midi::MidiEventKind::NoteOff { channel, key } => {
            lemma_release_good(t, channel, key);
        },
        _ => {},
    }
    let r = scan_event(s, ev);
    assert forall|i: int| 0 <= i < r.held.len() implies good_held(#[trigger] r.held[i]) by {
        match ev.kind {
            crate::midi::MidiEventKind::NoteOn { channel, key, velocity } => {
                if velocity > 0 && i < s.held.len() {
                    assert(r.held[i] == s.held[i]);
                }
            },
            crate::midi::MidiEventKind::NoteOff { channel, key } => {},
            _ => {
                assert(r.held[i] == s.held[i]);
            },
        }
    }
    assert forall|i: int| 0 <= i < r.tempos.len() implies good_tempo(#[trigger] r.tempos[i]) by {
        if i < s.tempos.len() {
            assert(r.tempos[i] == s.tempos[i]);
        }
    }
    assert forall|i: int| 0 <= i < r.meters.len() implies good_meter(#[trigger] r.meters[i]) by {
        if i < s.meters.len() {
            assert(r.meters[i] == s.meters[i]);
        }
    }
}

proof fn lemma_last_held_in_bounds(held: Seq<HeldKey>, channel: u8, key: u8)
    ensures
        crate::midi::last_held(held, channel, key) matches Some(k) ==> 0 <= k < held.len(),
    decreases held.len(),
{
    if held.len() > 0 {
        lemma_last_held_in_bounds(held.drop_last(), channel, key);
    }
}

proof fn lemma_release_good(s: TrackScan, channel: u8, key: u8)
    requires
        all_good(s),
        key < 128,
    ensures
        all_good(release(s, channel, key)),
        release(s, channel, key).tempos == s.tempos,
        release(s, channel, key).meters == s.meters,
{
    lemma_last_held_in_bounds(s.held, channel, key);
    match crate::midi::last_held(s.held, channel, key) {
        None => {},
        Some(k) => {
            let (c, p, start, vel) = s.held[k];
            let duration = s.ticks - start;
            let r = release(s, channel, key);
            assert(good_held(s.held[k]));
            assert forall|i: int| 0 <= i < r.held.len() implies good_held(#[trigger] r.held[i]) by {
                if i < k {
                    assert(r.held[i] == s.held[i]);
                } else {
                    assert(r.held[i] == s.held[i + 1]);
                }
            }
            if duration > 0 {
                assert forall|i: int| 0 <= i < r.notes.len() implies good_note(#[trigger] r.notes[i]) by {
                    if i < s.notes.len() {
                        assert(r.notes[i] == s.notes[i]);
                    }
                }
            }
        },
    }
}

proof fn lemma_scan_events_good(events: Seq<MidiEvent>, start: TrackScan, n: nat)
    requires
        all_good(start),
        n <= events.len(),
        forall|i: int| 0 <= i < events.len() ==> event_in_range(#[trigger] events[i]),
    ensures
        all_good(scan_events(events, start, n)),
    decreases n,
{
    if n > 0 {
        lemma_scan_events_good(events, start, (n - 1) as nat);
        lemma_scan_event_good(scan_events(events, start, (n - 1) as nat), events[n - 1]);
    }
}

/// Notes sorted by start, then pitch.
pub open spec fn sorted_notes(notes: Seq<Note>) -> bool {
    forall|i: int, j: int| 0 <= i < j < notes.len() ==> key_le(
        ((#[trigger] notes[i]).span.start.ticks, notes[i].pitch.0),
        ((#[trigger] notes[j]).span.start.ticks, notes[j].pitch.0),
    )
}

/// What every score read from MIDI keeps within the first `n` tracks.
pub open spec fn good_model(m: ScoreModel) -> bool {
    &&& forall|i: int| 0 <= i < m.tempos.len() ==> good_tempo(#[trigger] m.tempos[i])
    &&& forall|i: int| 0 <= i < m.meters.len() ==> good_meter(#[trigger] m.meters[i])
    &&& forall|i: int| 0 <= i < m.parts.len() ==> {
        let notes = (#[trigger] m.parts[i]).1;
        &&& notes.len() > 0
        &&& sorted_notes(notes)
        &&& forall|k: int| 0 <= k < notes.len() ==> good_note(#[trigger] notes[k])
    }
}

proof fn lemma_sorted_part(notes: Seq<Note>)
    requires
        notes.len() <= usize::MAX,
        forall|k: int| 0 <= k < notes.len() ==> good_note(#[trigger] notes[k]),
    ensures
        sorted_notes(sorted_by_start_and_pitch(notes)),
        sorted_by_start_and_pitch(notes).len() == notes.len(),
        forall|k: int| 0 <= k < notes.len() ==> good_note(#[trigger] sorted_by_start_and_pitch(notes)[k]),
{
    let keys = start_pitch_keys(notes);
    let order = stable_order(keys, notes.len());
    lemma_stable_order(keys, notes.len());
    let r = sorted_by_start_and_pitch(notes);
    assert forall|i: int, j: int| 0 <= i < j < r.len() implies key_le(
        ((#[trigger] r[i]).span.start.ticks, r[i].pitch.0),
        ((#[trigger] r[j]).span.start.ticks, r[j].pitch.0),
    ) by {
        assert(key_le(keys[order[i] as int], keys[order[j] as int]));
    }
    assert forall|k: int| 0 <= k < notes.len() implies good_note(#[trigger] r[k]) by {
        assert(r[k] == notes[order[k] as int]);
    }
}

proof fn lemma_scan_tracks_good(tracks: Seq<Seq<MidiEvent>>, n: nat)
    requires
        n <= tracks.len(),
        events_in_range(tracks),
        forall|i: int| 0 <= i < tracks.len() ==> (#[trigger] tracks[i]).len() <= usize::MAX,
    ensures
        good_model(scan_tracks(tracks, n)),
    decreases n,
{
    if n > 0 {
        lemma_scan_tracks_good(tracks, (n - 1) as nat);
        let before = scan_tracks(tracks, (n - 1) as nat);
        let start = TrackScan {
            ticks: 0,
            name: crate::midi::default_track_name((n - 1) as nat),
            held: Seq::empty(),
            notes: Seq::empty(),
            tempos: before.tempos,
            meters: before.meters,
        };
        assert forall|i: int| 0 <= i < tracks[n - 1].len() implies event_in_range(#[trigger] tracks[n - 1][i]) by {
            assert(event_in_range(tracks[n - 1][i]));
        }
        lemma_scan_events_good(tracks[n - 1], start, tracks[n - 1].len());
        let s = scan_events(tracks[n - 1], start, tracks[n - 1].len());
        let m = scan_tracks(tracks, n);
        if s.notes.len() > 0 {
            lemma_notes_bounded(tracks[n - 1], start, tracks[n - 1].len());
            lemma_sorted_part(s.notes);
            assert forall|i: int| 0 <= i < m.parts.len() implies {
                let notes = (#[trigger] m.parts[i]).1;
                &&& notes.len() > 0
                &&& sorted_notes(notes)
                &&& forall|k: int| 0 <= k < notes.len() ==> good_note(#[trigger] notes[k])
            } by {
                if i < before.parts.len() {
                    assert(m.parts[i] == before.parts[i]);
                }
            }
        }
    }
}

proof fn lemma_notes_bounded(events: Seq<MidiEvent>, start: TrackScan, n: nat)
    requires
        start.notes.len() == 0,
        n <= events.len(),
        events.len() <= usize::MAX,
    ensures
        scan_events(events, start, n).notes.len() <= n,
    decreases n,
{
    if n > 0 {
        lemma_notes_bounded(events, start, (n - 1) as nat);
        let s = scan_events(events, start, (n - 1) as nat);
        let ticks = if s.ticks + events[n - 1].delta > u64::MAX { u64::MAX } else { (s.ticks + events[n - 1].delta) as u64 };
        let t = TrackScan { ticks, ..s };
        match events[n - 1].kind {
            crate::midi::MidiEventKind::NoteOn { channel, key, velocity } => {
                lemma_release_count(t, channel, key);
            },
            crate::midi::MidiEventKind::NoteOff { channel, key } => {
                lemma_release_count(t, channel, key);
            },
            _ => {},
        }
    }
}

proof fn lemma_release_count(s: TrackScan, channel: u8, key: u8)
    ensures
        release(s, channel, key).notes.len() <= s.notes.len() + 1,
{
}

/// Every score read from MIDI events in range (as midly gives them) has at
/// least one part, each with notes sorted by start and then pitch, each of a
/// key below 128 pressed with a velocity from 1 to 127, none before the
/// start, each lasting at least one tick; at least one tempo, each of at
/// least one beat per minute; and at least one time signature, none with a
/// zero part.
pub proof fn lemma_midi_score_well_formed(ticks_per_beat: Option<u16>, tracks: Seq<Seq<MidiEvent>>)
    requires
        forall|i: int| 0 <= i < tracks.len() ==> (#[trigger] tracks[i]).len() <= usize::MAX,
        events_in_range(tracks),
    ensures
        midi_score_spec(ticks_per_beat, tracks) matches Ok(m) ==> {
            &&& m.parts.len() > 0
            &&& m.tempos.len() > 0
            &&& m.meters.len() > 0
            &&& good_model(m)
        },
{
    if let Some(tpb) = ticks_per_beat {
        if tpb > 0 {
            lemma_scan_tracks_good(tracks, tracks.len());
            let m = scan_tracks(tracks, tracks.len());
            if m.parts.len() > 0 {
                let r = midi_score_spec(ticks_per_beat, tracks)->Ok_0;
                assert forall|i: int| 0 <= i < r.tempos.len() implies good_tempo(#[trigger] r.tempos[i]) by {
                    if m.tempos.len() > 0 {
                        assert(r.tempos[i] == m.tempos[i]);
                    }
                }
                assert forall|i: int| 0 <= i < r.meters.len() implies good_meter(#[trigger] r.meters[i]) by {
                    if m.meters.len() > 0 {
                        assert(r.meters[i] == m.meters[i]);
                    }
                }
            }
        }
    }
}

/// The tick at which the first `n` events of a track happen: the sum of
/// their deltas, at most `u64::MAX`.
pub open spec fn tick_after(events: Seq<MidiEvent>, n: nat) -> u64
    decreases n,
{
    if n == 0 {
        0
    } else {
        let t = tick_after(events, (n - 1) as nat) + events[n - 1].delta;
        if t > u64::MAX { u64::MAX } else { t as u64 }
    }
}

/// The tempos that the first `n` events of a track set: one for each tempo
/// event with a positive number of microseconds per quarter note, of
/// 60 000 000 over that many beats per minute, at the event's tick; in order.
pub open spec fn track_tempos(events: Seq<MidiEvent>, n: nat) -> Seq<Tempo>
    decreases n,
{
    if n == 0 {
        Seq::empty()
    } else {
        let before = track_tempos(events, (n - 1) as nat);
        match events[n - 1].kind {
            MidiEventKind::Tempo(micros) => if micros > 0 {
                before.push(tempo_of(score_ticks(tick_after(events, n) as int), 60_000_000, micros as u64))
            } else {
                before
            },
            _ => before,
        }
    }
}

/// The tempos that the first `n` tracks set, track after track.
pub open spec fn file_tempos(tracks: Seq<Seq<MidiEvent>>, n: nat) -> Seq<Tempo>
    decreases n,
{
    if n == 0 {
        Seq::empty()
    } else {
        file_tempos(tracks, (n - 1) as nat) + track_tempos(tracks[n - 1], tracks[n - 1].len())
    }
}

proof fn lemma_scan_events_tempos(events: Seq<MidiEvent>, start: TrackScan, n: nat)
    requires
        start.ticks == 0,
        n <= events.len(),
    ensures
        scan_events(events, start, n).ticks == tick_after(events, n),
        scan_events(events, start, n).tempos == start.tempos + track_tempos(events, n),
    decreases n,
{
    if n == 0 {
        assert(start.tempos + Seq::<Tempo>::empty() =~= start.tempos);
    } else {
        lemma_scan_events_tempos(events, start, (n - 1) as nat);
        let s0 = scan_events(events, start, (n - 1) as nat);
        let ev = events[n - 1];
        let ticks = if s0.ticks + ev.delta > u64::MAX { u64::MAX } else { (s0.ticks + ev.delta) as u64 };
        let s = TrackScan { ticks, ..s0 };
        match ev.kind {
            MidiEventKind::NoteOn { channel, key, velocity } => {
                if velocity == 0 {
                    lemma_release_keeps_tempos(s, channel, key);
                }
            },
            MidiEventKind::NoteOff { channel, key } => {
                lemma_release_keeps_tempos(s, channel, key);
            },
            MidiEventKind::Tempo(micros) => {
                if micros > 0 {
                    assert(start.tempos + track_tempos(events, n)
                        =~= (start.tempos + track_tempos(events, (n - 1) as nat)).push(
                            tempo_of(score_ticks(ticks as int), 60_000_000, micros as u64)));
                }
            },
            _ => {},
        }
    }
}

proof fn lemma_release_keeps_tempos(s: TrackScan, channel: u8, key: u8)
    ensures
        release(s, channel, key).ticks == s.ticks,
        release(s, channel, key).tempos == s.tempos,
{
}

proof fn lemma_scan_tracks_tempos(tracks: Seq<Seq<MidiEvent>>, n: nat)
    requires
        n <= tracks.len(),
    ensures
        scan_tracks(tracks, n).tempos == file_tempos(tracks, n),
    decreases n,
{
    if n > 0 {
        lemma_scan_tracks_tempos(tracks, (n - 1) as nat);
        let before = scan_tracks(tracks, (n - 1) as nat);
        let start = TrackScan {
            ticks: 0,
            name: crate::midi::default_track_name((n - 1) as nat),
            held: Seq::empty(),
            notes: Seq::empty(),
            tempos: before.tempos,
            meters: before.meters,
        };
        lemma_scan_events_tempos(tracks[n - 1], start, tracks[n - 1].len());
    }
}

/// Every tempo event of a MIDI file reaches the score: the score's tempos
/// are those of all the tempo events with a positive number of microseconds
/// per quarter note, of every track (whether or not it holds notes), in track
/// then event order, each at its own tick; 120 beats per minute at the start
/// only when the file sets none.
pub proof fn lemma_every_tempo_event_is_kept(ticks_per_beat: Option<u16>, tracks: Seq<Seq<MidiEvent>>)
    ensures
        midi_score_spec(ticks_per_beat, tracks) matches Ok(m) ==> m.tempos == if file_tempos(tracks, tracks.len()).len() == 0 {
            seq![tempo_of(0, 120, 1)]
        } else {
            file_tempos(tracks, tracks.len())
        },
{
    lemma_scan_tracks_tempos(tracks, tracks.len());
}

} // verus!
