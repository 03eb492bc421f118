use vstd::prelude::*;
use midly::{MetaMessage, MidiMessage, Timing, TrackEventKind};
use crate::music::{BeatPosition, BeatSpan, Meter, Note, PianoScore, Pitch, ScorePart, Tempo};
use crate::judge::reorder;
use crate::order::{stable_order, stable_sort_order};
use crate::text::{decimal_spec, decimal_text, owned, push_str, trim_spec, trim_str};

verus! {

// ---------------------------------------------------------------------------
// The events of a standard MIDI file, as the score reads them.

/// What a track event says, as far as a score needs it.
#[derive(Debug, Clone)]
pub enum MidiEventKind {
    /// The name of the track, as raw bytes.
    TrackName(Vec<u8>),
    /// A tempo, in microseconds per quarter note.
    Tempo(u32),
    /// A time signature: the numerator and the power of two of the denominator.
    TimeSignature(u8, u8),
    /// A key pressed on a channel, with a velocity.
    NoteOn { channel: u8, key: u8, velocity: u8 },
    /// A key released on a channel.
    NoteOff { channel: u8, key: u8 },
    /// Anything else.
    Other,
}

/// A track event and the ticks since the previous one.
#[derive(Debug, Clone)]
pub struct MidiEvent {
    pub delta: u32,
    pub kind: MidiEventKind,
}

/// A MIDI file: its metrical timing (ticks per quarter note), or `None` for
/// SMPTE timecode, and its tracks of events.
#[derive(Debug, Clone)]
pub struct MidiFile {
    pub ticks_per_beat: Option<u16>,
    pub tracks: Vec<Vec<MidiEvent>>,
}

/// Whether an event holds what midly's event types allow: a channel below
/// 16, and keys and velocities below 128.
pub open spec fn event_in_range(ev: MidiEvent) -> bool {
    kind_in_range(ev.kind)
}

/// Whether an event kind holds a channel below 16, and keys and velocities below 128.
pub open spec fn kind_in_range(kind: MidiEventKind) -> bool {
    match kind {
        MidiEventKind::NoteOn { channel, key, velocity } => channel < 16 && key < 128 && velocity < 128,
        MidiEventKind::NoteOff { channel, key } => channel < 16 && key < 128,
        _ => true,
    }
}

/// Whether every event of the tracks is in range.
pub open spec fn events_in_range(tracks: Seq<Seq<MidiEvent>>) -> bool {
    forall|t: int, i: int| 0 <= t < tracks.len() && 0 <= i < tracks[t].len() ==> event_in_range(#[trigger] tracks[t][i])
}

#[verifier::external_type_specification]
#[verifier::external_body]
pub struct ExSmf<'a>(midly::Smf<'a>);

/// The events of each track of a parsed MIDI file.
pub uninterp spec fn smf_events(smf: midly::Smf) -> Seq<Seq<MidiEvent>>;

/// The timing of a parsed MIDI file: ticks per quarter note, or `None` for timecode.
pub uninterp spec fn smf_timing(smf: midly::Smf) -> Option<u16>;

/// What `midly::Smf::parse` makes of some bytes: the timing and the track
/// events of the file, or the text of its error.
pub uninterp spec fn midi_decoding(bytes: Seq<u8>) -> MidiDecoding;

/// The timing and track events of a MIDI file, or the text of its parse error.
pub type MidiDecoding = Result<(Option<u16>, Seq<Seq<MidiEvent>>), Seq<char>>;

/// `midly::Smf::parse`: the file that the bytes hold, or the text of the
/// parse error; either is what `midi_decoding` names for these bytes.
#[verifier::external_body]
fn parse_smf(bytes: &[u8]) -> (r: Result<midly::Smf<'_>, String>)
    ensures
        r matches Ok(smf) ==> midi_decoding(bytes@) == MidiDecoding::Ok((smf_timing(smf), smf_events(smf))),
        r matches Err(e) ==> midi_decoding(bytes@) == MidiDecoding::Err(e@),
{
    midly::Smf::parse(bytes).map_err(|e| e.to_string())
}

/// The `timing` field of a parsed file's header: its ticks per quarter note
/// when it is metrical.
#[verifier::external_body]
fn smf_ticks_per_beat(smf: &midly::Smf) -> (r: Option<u16>)
    ensures
        r == smf_timing(*smf),
{
    match smf.header.timing {
        Timing::Metrical(ticks) => Some(ticks.as_int()),
        Timing::Timecode(..) => None,
    }
}

/// The number of tracks of a parsed file.
#[verifier::external_body]
fn smf_track_count(smf: &midly::Smf) -> (r: usize)
    ensures
        r == smf_events(*smf).len(),
{
    smf.tracks.len()
}

/// The number of events of one track of a parsed file.
#[verifier::external_body]
fn smf_track_len(smf: &midly::Smf, track: usize) -> (r: usize)
    requires
        track < smf_events(*smf).len(),
    ensures
        r == smf_events(*smf)[track as int].len(),
{
    smf.tracks[track].len()
}

/// The `delta` of one event of a parsed file.
#[verifier::external_body]
fn smf_event_delta(smf: &midly::Smf, track: usize, index: usize) -> (r: u32)
    requires
        track < smf_events(*smf).len(),
        index < smf_events(*smf)[track as int].len(),
    ensures
        r == smf_events(*smf)[track as int][index as int].delta,
{
    smf.tracks[track][index].delta.as_int()
}

/// The `kind` of one event of a parsed file, told apart by its variant. midly
/// keeps a channel in four bits and a key or velocity in seven.
#[verifier::external_body]
fn smf_event_kind(smf: &midly::Smf, track: usize, index: usize) -> (r: MidiEventKind)
    requires
        track < smf_events(*smf).len(),
        index < smf_events(*smf)[track as int].len(),
    ensures
        r == smf_events(*smf)[track as int][index as int].kind,
        kind_in_range(r),
{
    match smf.tracks[track][index].kind {
        TrackEventKind::Meta(MetaMessage::TrackName(n)) => MidiEventKind::TrackName(n.to_vec()),
        TrackEventKind::Meta(MetaMessage::Tempo(t)) => MidiEventKind::Tempo(t.as_int()),
        TrackEventKind::Meta(MetaMessage::TimeSignature(n, d, _, _)) => MidiEventKind::TimeSignature(n, d),
        TrackEventKind::Midi { channel: c, message: MidiMessage::NoteOn { key: k, vel: v } } =>
            MidiEventKind::NoteOn { channel: c.as_int(), key: k.as_int(), velocity: v.as_int() },
        TrackEventKind::Midi { channel: c, message: MidiMessage::NoteOff { key: k, .. } } =>
            MidiEventKind::NoteOff { channel: c.as_int(), key: k.as_int() },
        _ => MidiEventKind::Other,
    }
}

/// `std::str::from_utf8`: the text that the bytes encode, when they are valid UTF-8.
#[verifier::external_body]
fn utf8_text(bytes: &[u8]) -> (r: Option<&str>)
    ensures
        r is Some <==> vstd::utf8::valid_utf8(bytes@),
        r matches Some(s) ==> s@ == vstd::utf8::decode_utf8(bytes@),
{
    std::str::from_utf8(bytes).ok()
}

// ---------------------------------------------------------------------------
// From events to a score.

/// A key held down: channel, key, the tick it was pressed at, its velocity.
pub type HeldKey = (u8, u8, u64, u8);

/// What reading a track has gathered so far.
pub ghost struct TrackScan {
    pub ticks: u64,
    pub name: Seq<char>,
    pub held: Seq<HeldKey>,
    pub notes: Seq<Note>,
    pub tempos: Seq<Tempo>,
    pub meters: Seq<Meter>,
}

/// The score as plain values: each part's name and notes, the tempos, the meters.
pub ghost struct ScoreModel {
    pub parts: Seq<(Seq<char>, Seq<Note>)>,
    pub tempos: Seq<Tempo>,
    pub meters: Seq<Meter>,
}

/// A score seen as plain values.
pub open spec fn score_model(score: PianoScore) -> ScoreModel {
    ScoreModel {
        parts: Seq::new(score.parts@.len(), |i: int| (score.parts@[i].name@, score.parts@[i].notes@)),
        tempos: score.tempos@,
        meters: score.meters@,
    }
}

/// A count of MIDI ticks as a score position: the same ticks, at most `i64::MAX`.
pub open spec fn score_ticks(ticks: int) -> i64 {
    if ticks > i64::MAX { i64::MAX } else { ticks as i64 }
}

/// `2u8.saturating_pow(power)`: two to the power, or 255 when that does not fit.
pub open spec fn meter_denominator(power: u8) -> u8 {
    if power == 0 { 1 }
    else if power == 1 { 2 }
    else if power == 2 { 4 }
    else if power == 3 { 8 }
    else if power == 4 { 16 }
    else if power == 5 { 32 }
    else if power == 6 { 64 }
    else if power == 7 { 128 }
    else { 255 }
}

/// `Tempo::new` at a position, of `numerator / denominator` beats per minute.
pub open spec fn tempo_of(at: i64, numerator: u64, denominator: u64) -> Tempo {
    Tempo {
        at: BeatPosition { ticks: if at < 0 { 0 } else { at } },
        bpm_numerator: if denominator == 0 || numerator < denominator { 1 } else { numerator },
        bpm_denominator: if denominator == 0 || numerator < denominator { 1 } else { denominator },
    }
}

/// `Meter::new`.
pub open spec fn meter_of(numerator: u8, denominator: u8) -> Meter {
    Meter {
        numerator: if numerator == 0 { 1 } else { numerator },
        denominator: if denominator == 0 { 1 } else { denominator },
    }
}

/// The index of the most recently pressed key among those held that matches
/// the channel and key.
pub open spec fn last_held(held: Seq<HeldKey>, channel: u8, key: u8) -> Option<int>
    decreases held.len(),
{
    if held.len() == 0 {
        None
    } else if held.last().0 == channel && held.last().1 == key {
        Some(held.len() - 1)
    } else {
        last_held(held.drop_last(), channel, key)
    }
}

/// The effect of releasing `channel`/`key` at the current tick: the most
/// recently pressed matching key is let go, and a note is written when it was
/// held for at least one tick.
pub open spec fn release(s: TrackScan, channel: u8, key: u8) -> TrackScan {
    match last_held(s.held, channel, key) {
        None => s,
        Some(k) => {
            let (c, p, start, vel) = s.held[k];
            let held = s.held.remove(k);
            let duration = s.ticks - start;
            if duration <= 0 {
                TrackScan { held, ..s }
            } else {
                let note = Note {
                    pitch: Pitch(key),
                    span: BeatSpan {
                        start: BeatPosition { ticks: score_ticks(start as int) },
                        duration_ticks: score_ticks(duration),
                    },
                    velocity: Some(vel),
                };
                TrackScan { held, notes: s.notes.push(note), ..s }
            }
        },
    }
}

/// The effect of one event on what a track has gathered.
pub open spec fn scan_event(s0: TrackScan, ev: MidiEvent) -> TrackScan {
    let ticks = if s0.ticks + ev.delta > u64::MAX { u64::MAX } else { (s0.ticks + ev.delta) as u64 };
    let s = TrackScan { ticks, ..s0 };
    match ev.kind {
        MidiEventKind::TrackName(bytes) => {
            if vstd::utf8::valid_utf8(bytes@) && trim_spec(vstd::utf8::decode_utf8(bytes@)).len() > 0 {
                TrackScan { name: trim_spec(vstd::utf8::decode_utf8(bytes@)), ..s }
            } else {
                s
            }
        },
        MidiEventKind::Tempo(micros) => {
            if micros > 0 {
                TrackScan {
                    tempos: s.tempos.push(tempo_of(score_ticks(ticks as int), 60_000_000, micros as u64)),
                    ..s
                }
            } else {
                s
            }
        },
        MidiEventKind::TimeSignature(numerator, power) => {
            let d = meter_denominator(power);
            TrackScan { meters: s.meters.push(meter_of(numerator, if d == 0 { 1 } else { d })), ..s }
        },
        MidiEventKind::NoteOn { channel, key, velocity } => {
            if velocity > 0 {
                TrackScan { held: s.held.push((channel, key, ticks, velocity)), ..s }
            } else {
                release(s, channel, key)
            }
        },
        MidiEventKind::NoteOff { channel, key } => release(s, channel, key),
        MidiEventKind::Other => s,
    }
}

/// What the first `n` events of a track gather, from `start`.
pub open spec fn scan_events(events: Seq<MidiEvent>, start: TrackScan, n: nat) -> TrackScan
    decreases n,
{
    if n == 0 {
        start
    } else {
        scan_event(scan_events(events, start, (n - 1) as nat), events[n - 1])
    }
}

/// The default name of the track at `index`: `Track ` and its number from one.
pub open spec fn default_track_name(index: nat) -> Seq<char> {
    "Track "@ + decimal_spec(index + 1)
}

/// The sort keys of notes ordered by start, then by pitch.
pub open spec fn start_pitch_keys(notes: Seq<Note>) -> Seq<(i64, u8)> {
    Seq::new(notes.len(), |i: int| (notes[i].span.start.ticks, notes[i].pitch.0))
}

/// Notes stably sorted by start, then by pitch.
pub open spec fn sorted_by_start_and_pitch(notes: Seq<Note>) -> Seq<Note> {
    stable_order(start_pitch_keys(notes), notes.len()).map_values(|i: usize| notes[i as int])
}

/// What the first `n` tracks give: the parts with notes, and the tempos and
/// meters of all their events.
pub open spec fn scan_tracks(tracks: Seq<Seq<MidiEvent>>, n: nat) -> ScoreModel
    decreases n,
{
    if n == 0 {
        ScoreModel { parts: Seq::empty(), tempos: Seq::empty(), meters: Seq::empty() }
    } else {
        let before = scan_tracks(tracks, (n - 1) as nat);
        let start = TrackScan {
            ticks: 0,
            name: default_track_name((n - 1) as nat),
            held: Seq::empty(),
            notes: Seq::empty(),
            tempos: before.tempos,
            meters: before.meters,
        };
        let s = scan_events(tracks[n - 1], start, tracks[n - 1].len());
        ScoreModel {
            parts: if s.notes.len() > 0 {
                before.parts.push((s.name, sorted_by_start_and_pitch(s.notes)))
            } else {
                before.parts
            },
            tempos: s.tempos,
            meters: s.meters,
        }
    }
}

/// The score of a MIDI file, its positions and lengths in the file's own
/// ticks: the parts of its tracks that have notes, the
/// tempos (120 beats per minute at the start when there is none) and the
/// meters (4/4 when there is none); or the error when the timing is not
/// metrical, when it has no ticks per beat, or when no track has a note.
pub open spec fn midi_score_spec(ticks_per_beat: Option<u16>, tracks: Seq<Seq<MidiEvent>>) -> Result<ScoreModel, Seq<char>> {
    match ticks_per_beat {
        None => Err("SMPTE timecode MIDI timing is not supported yet"@),
        Some(tpb) => {
            if tpb == 0 {
                Err("MIDI ticks per beat is invalid"@)
            } else {
                let m = scan_tracks(tracks, tracks.len());
                if m.parts.len() == 0 {
                    Err("MIDI contains no note events"@)
                } else {
                    Ok(ScoreModel {
                        parts: m.parts,
                        tempos: if m.tempos.len() == 0 { seq![tempo_of(0, 120, 1)] } else { m.tempos },
                        meters: if m.meters.len() == 0 { seq![meter_of(4, 4)] } else { m.meters },
                    })
                }
            }
        },
    }
}

/// A file's tracks as plain sequences of events.
pub open spec fn tracks_model(tracks: Seq<Vec<MidiEvent>>) -> Seq<Seq<MidiEvent>> {
    Seq::new(tracks.len(), |i: int| tracks[i]@)
}

/// Whether a score has only what a MIDI score has: no tonality, no key signature.
pub open spec fn plain_midi_score(score: PianoScore) -> bool {
    &&& score.key_signatures@.len() == 0
    &&& forall|i: int| 0 <= i < score.parts@.len() ==> (#[trigger] score.parts@[i]).tonality is None
}

fn meter_denominator_of(power: u8) -> (r: u8)
    ensures
        r == meter_denominator(power),
{
    if power == 0 { 1 }
    else if power == 1 { 2 }
    else if power == 2 { 4 }
    else if power == 3 { 8 }
    else if power == 4 { 16 }
    else if power == 5 { 32 }
    else if power == 6 { 64 }
    else if power == 7 { 128 }
    else { 255 }
}

/// A count of MIDI ticks as a score position.
fn to_score_ticks(ticks: u64) -> (r: i64)
    ensures
        r == score_ticks(ticks as int),
{
    if ticks > i64::MAX as u64 { i64::MAX } else { ticks as i64 }
}

/// The index of the most recently pressed matching key among those held.
fn find_last_held(held: &Vec<HeldKey>, channel: u8, key: u8) -> (r: Option<usize>)
    ensures
        match r {
            Some(k) => last_held(held@, channel, key) == Some(k as int),
            None => last_held(held@, channel, key) is None,
        },
        r matches Some(k) ==> k < held.len(),
{
    let mut j = held.len();
    proof {
        assert(held@.subrange(0, j as int) =~= held@);
    }
    while j > 0
        invariant
            j <= held.len(),
            last_held(held@, channel, key) == last_held(held@.subrange(0, j as int), channel, key),
        decreases j,
    {
        proof {
            assert(held@.subrange(0, j as int).drop_last() =~= held@.subrange(0, j - 1));
        }
        if held[j - 1].0 == channel && held[j - 1].1 == key {
            return Some(j - 1);
        }
        j = j - 1;
    }
    None
}

/// The view of what a track has gathered so far.
pub open spec fn scan_of(
    ticks: u64,
    name: Seq<char>,
    held: Seq<HeldKey>,
    notes: Seq<Note>,
    tempos: Seq<Tempo>,
    meters: Seq<Meter>,
) -> TrackScan {
    TrackScan { ticks, name, held, notes, tempos, meters }
}

/// Reads one track: its name (the default one unless a track name event
/// gives another) and its notes in event order; its tempos and meters are
/// appended to `tempos` and `meters`.
fn scan_track(
    events: &Vec<MidiEvent>,
    index: usize,
    tempos: &mut Vec<Tempo>,
    meters: &mut Vec<Meter>,
) -> (r: (String, Vec<Note>))
    requires
        index < usize::MAX,
    ensures
        ({
            let start = scan_of(0, default_track_name(index as nat), Seq::empty(), Seq::empty(), old(tempos)@, old(meters)@);
            let s = scan_events(events@, start, events@.len());
            &&& r.0@ == s.name
            &&& r.1@ == s.notes
            &&& final(tempos)@ == s.tempos
            &&& final(meters)@ == s.meters
        }),
{
    let ghost start = scan_of(0, default_track_name(index as nat), Seq::empty(), Seq::empty(), tempos@, meters@);
    let mut ticks: u64 = 0;
    let mut name = owned("Track ");
    let number = decimal_text((index + 1) as u128);
    push_str(&mut name, number.as_str());
    let mut held: Vec<HeldKey> = Vec::new();
    let mut notes: Vec<Note> = Vec::new();
    let mut i: usize = 0;
    while i < events.len()
        invariant
            i <= events.len(),
            scan_of(ticks, name@, held@, notes@, tempos@, meters@) == scan_events(events@, start, i as nat),
        decreases events.len() - i,
    {
        let ghost before = scan_of(ticks, name@, held@, notes@, tempos@, meters@);
        let ev = &events[i];
        ticks = if ticks as u128 + ev.delta as u128 > u64::MAX as u128 { u64::MAX } else { ticks + ev.delta as u64 };
        match &ev.kind {
            MidiEventKind::TrackName(bytes) => {
                match utf8_text(bytes.as_slice()) {
                    Some(text) => {
                        let t = trim_str(text);
                        if !t.is_empty() {
                            name = owned(t);
                        }
                    },
                    None => {},
                }
            },
            MidiEventKind::Tempo(micros) => {
                if *micros > 0 {
                    let at = to_score_ticks(ticks);
                    tempos.push(Tempo::new(BeatPosition::new(at), 60_000_000, *micros as u64));
                }
            },
            MidiEventKind::TimeSignature(numerator, power) => {
                let d = meter_denominator_of(*power);
                meters.push(Meter::new(*numerator, if d == 0 { 1 } else { d }));
            },
            MidiEventKind::NoteOn { channel, key, velocity } => {
                if *velocity > 0 {
                    held.push((*channel, *key, ticks, *velocity));
                } else {
                    release_key(&mut held, &mut notes, *channel, *key, ticks);
                }
            },
            MidiEventKind::NoteOff { channel, key } => {
                release_key(&mut held, &mut notes, *channel, *key, ticks);
            },
            MidiEventKind::Other => {},
        }
        i = i + 1;
    }
    (name, notes)
}

/// Lets go of the most recently pressed matching key, and writes its note
/// when it was held for at least one tick.
fn release_key(held: &mut Vec<HeldKey>, notes: &mut Vec<Note>, channel: u8, key: u8, ticks: u64)
    ensures
        ({
            let s = release(scan_of(ticks, Seq::empty(), old(held)@, old(notes)@, Seq::empty(), Seq::empty()), channel, key);
            final(held)@ == s.held && final(notes)@ == s.notes
        }),
{
    match find_last_held(held, channel, key) {
        None => {},
        Some(k) => {
            let (_, _, start, velocity) = held[k];
            held.remove(k);
            if ticks > start {
                let duration = ticks - start;
                notes.push(Note {
                    pitch: Pitch(key),
                    span: BeatSpan {
                        start: BeatPosition { ticks: to_score_ticks(start) },
                        duration_ticks: to_score_ticks(duration),
                    },
                    velocity: Some(velocity),
                });
            }
        },
    }
}

/// Notes stably sorted by start, then by pitch.
pub fn sort_by_start_and_pitch(notes: &Vec<Note>) -> (r: Vec<Note>)
    ensures
        r@ == sorted_by_start_and_pitch(notes@),
{
    let mut keys: Vec<(i64, u8)> = Vec::new();
    let mut i: usize = 0;
    while i < notes.len()
        invariant
            i <= notes.len(),
            keys@ =~= start_pitch_keys(notes@).subrange(0, i as int),
        decreases notes.len() - i,
    {
        keys.push((notes[i].span.start.ticks, notes[i].pitch.0));
        i = i + 1;
    }
    proof {
        assert(keys@ =~= start_pitch_keys(notes@));
        crate::order::lemma_stable_order(keys@, keys@.len());
    }
    let order = stable_sort_order(&keys);
    reorder(notes, &order)
}

/// The score of a MIDI file, counting the file's own ticks per beat, its
/// positions and lengths in those ticks: one part per track with notes (named by its
/// track name event, or `Track` and its number), its notes sorted by start
/// and pitch; the tempos and meters of all tracks, with 120 beats per minute
/// and 4/4 when there are none. An error when the timing is SMPTE timecode,
/// when there are no ticks per beat, or when no track has a note.
pub fn score_from_midi(file: &MidiFile) -> (r: Result<PianoScore, String>)
    ensures
        match r {
            Ok(score) => midi_score_spec(file.ticks_per_beat, tracks_model(file.tracks@)) == Ok::<ScoreModel, Seq<char>>(score_model(score))
                && plain_midi_score(score)
                && file.ticks_per_beat == Some(score.ticks_per_beat),
            Err(e) => midi_score_spec(file.ticks_per_beat, tracks_model(file.tracks@)) == Err::<ScoreModel, Seq<char>>(e@),
        },
{
    let tpb = match file.ticks_per_beat {
        Some(t) => t,
        None => {
            return Err(owned("SMPTE timecode MIDI timing is not supported yet"));
        },
    };
    if tpb == 0 {
        return Err(owned("MIDI ticks per beat is invalid"));
    }
    let ghost tracks = tracks_model(file.tracks@);
    let mut parts: Vec<ScorePart> = Vec::new();
    let mut tempos: Vec<Tempo> = Vec::new();
    let mut meters: Vec<Meter> = Vec::new();
    let mut t: usize = 0;
    while t < file.tracks.len()
        invariant
            t <= file.tracks.len(),
            tpb > 0,
            tracks == tracks_model(file.tracks@),
            Seq::new(parts@.len(), |i: int| (parts@[i].name@, parts@[i].notes@)) == scan_tracks(tracks, t as nat).parts,
            tempos@ == scan_tracks(tracks, t as nat).tempos,
            meters@ == scan_tracks(tracks, t as nat).meters,
            forall|i: int| 0 <= i < parts@.len() ==> (#[trigger] parts@[i]).tonality is None,
        decreases file.tracks.len() - t,
    {
        let ghost before_parts = parts@;
        let (name, notes) = scan_track(&file.tracks[t], t, &mut tempos, &mut meters);
        if notes.len() > 0 {
            let sorted = sort_by_start_and_pitch(&notes);
            parts.push(ScorePart { name, tonality: None, notes: sorted });
            proof {
                assert(Seq::new(parts@.len(), |i: int| (parts@[i].name@, parts@[i].notes@))
                    =~= Seq::new(before_parts.len(), |i: int| (before_parts[i].name@, before_parts[i].notes@))
                        .push((name@, sorted@)));
            }
        }
        t = t + 1;
    }
    if tempos.len() == 0 {
        tempos.push(Tempo::new(BeatPosition::new(0), 120, 1));
    }
    if meters.len() == 0 {
        meters.push(Meter::new(4, 4));
    }
    if parts.len() == 0 {
        return Err(owned("MIDI contains no note events"));
    }
    let score = PianoScore { parts, tempos, meters, key_signatures: Vec::new(), ticks_per_beat: tpb };
    proof {
        let m = scan_tracks(tracks, tracks.len());
        assert(tracks.len() == t);
        assert(score_model(score).parts =~= m.parts);
        assert(score_model(score).tempos =~= if m.tempos.len() == 0 { seq![tempo_of(0, 120, 1)] } else { m.tempos });
        assert(score_model(score).meters =~= if m.meters.len() == 0 { seq![meter_of(4, 4)] } else { m.meters });
    }
    Ok(score)
}

/// The timing and the track events of the MIDI file that the bytes hold, or
/// the text of the parse error.
pub fn read_midi_file(bytes: &[u8]) -> (r: Result<MidiFile, String>)
    ensures
        r matches Ok(f) ==> midi_decoding(bytes@) == MidiDecoding::Ok((f.ticks_per_beat, tracks_model(f.tracks@))),
        r matches Ok(f) ==> events_in_range(tracks_model(f.tracks@)),
        r matches Err(e) ==> midi_decoding(bytes@) == MidiDecoding::Err(e@),
{
    let smf = match parse_smf(bytes) {
        Ok(smf) => smf,
        Err(e) => {
            return Err(e);
        },
    };
    let ticks_per_beat = smf_ticks_per_beat(&smf);
    let count = smf_track_count(&smf);
    let mut tracks: Vec<Vec<MidiEvent>> = Vec::new();
    let mut t: usize = 0;
    while t < count
        invariant
            t <= count,
            count == smf_events(smf).len(),
            tracks_model(tracks@) =~= smf_events(smf).subrange(0, t as int),
            events_in_range(tracks_model(tracks@)),
        decreases count - t,
    {
        let len = smf_track_len(&smf, t);
        let mut events: Vec<MidiEvent> = Vec::new();
        let mut i: usize = 0;
        while i < len
            invariant
                i <= len,
                t < count,
                count == smf_events(smf).len(),
                len == smf_events(smf)[t as int].len(),
                events@ =~= smf_events(smf)[t as int].subrange(0, i as int),
                forall|k: int| 0 <= k < events@.len() ==> event_in_range(#[trigger] events@[k]),
            decreases len - i,
        {
            let delta = smf_event_delta(&smf, t, i);
            let kind = smf_event_kind(&smf, t, i);
            let ghost expected = smf_events(smf)[t as int][i as int];
            events.push(MidiEvent { delta, kind });
            proof {
                assert(events@.last() == expected);
            }
            i = i + 1;
        }
        proof {
            assert(smf_events(smf)[t as int].subrange(0, len as int) =~= smf_events(smf)[t as int]);
        }
        let ghost before = tracks@;
        tracks.push(events);
        proof {
            assert(tracks_model(tracks@) =~= tracks_model(before).push(smf_events(smf)[t as int]));
            assert forall|u: int, k: int| 0 <= u < tracks_model(tracks@).len() && 0 <= k < tracks_model(tracks@)[u].len()
                implies event_in_range(#[trigger] tracks_model(tracks@)[u][k]) by {
                if u < before.len() {
                    assert(tracks_model(tracks@)[u] == tracks_model(before)[u]);
                }
            }
            assert(smf_events(smf).subrange(0, t + 1) =~= smf_events(smf).subrange(0, t as int).push(smf_events(smf)[t as int]));
        }
        t = t + 1;
    }
    proof {
        assert(smf_events(smf).subrange(0, count as int) =~= smf_events(smf));
    }
    Ok(MidiFile { ticks_per_beat, tracks })
}

/// The score of the MIDI file that the bytes hold: the parse error's text
/// when `midly` cannot read it, otherwise what `score_from_midi` makes of it.
pub fn parse_midi_score(bytes: &[u8]) -> (r: Result<PianoScore, String>)
    ensures
        match midi_decoding(bytes@) {
            Err(e) => r matches Err(m) && m@ == e,
            Ok(d) => match r {
                Ok(score) => midi_score_spec(d.0, d.1) == Ok::<ScoreModel, Seq<char>>(score_model(score))
                    && plain_midi_score(score)
                    && d.0 == Some(score.ticks_per_beat)
                    && crate::midi_laws::good_model(score_model(score)),
                Err(m) => midi_score_spec(d.0, d.1) == Err::<ScoreModel, Seq<char>>(m@),
            },
        },
{
    match read_midi_file(bytes) {
        Ok(file) => {
            proof {
                let tracks = tracks_model(file.tracks@);
                assert forall|i: int| 0 <= i < tracks.len() implies (#[trigger] tracks[i]).len() <= usize::MAX by {
                    assert(tracks[i] == file.tracks@[i]@);
                    vstd::std_specs::vec::axiom_spec_len(&file.tracks@[i]);
                }
                crate::midi_laws::lemma_midi_score_well_formed(file.ticks_per_beat, tracks);
            }
            score_from_midi(&file)
        },
        Err(e) => Err(e),
    }
}

} // verus!
