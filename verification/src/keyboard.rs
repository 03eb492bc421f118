use vstd::prelude::*;
use crate::api::FallingNoteDTO;
use crate::text::{decimal_spec, decimal_text, owned, push_str};

verus! {

/// Whether a MIDI pitch is a black key: C#, D#, F#, G# or A#.
pub open spec fn is_black_key_spec(pitch: u8) -> bool {
    let k = pitch % 12;
    k == 1 || k == 3 || k == 6 || k == 8 || k == 10
}

pub fn is_black_key(pitch: u8) -> (r: bool)
    ensures
        r == is_black_key_spec(pitch),
{
    let k = pitch % 12;
    k == 1 || k == 3 || k == 6 || k == 8 || k == 10
}

/// The name of a pitch class, from C at zero.
pub open spec fn pitch_class_name(k: nat) -> Seq<char> {
    if k == 0 { "C"@ }
    else if k == 1 { "C#"@ }
    else if k == 2 { "D"@ }
    else if k == 3 { "D#"@ }
    else if k == 4 { "E"@ }
    else if k == 5 { "F"@ }
    else if k == 6 { "F#"@ }
    else if k == 7 { "G"@ }
    else if k == 8 { "G#"@ }
    else if k == 9 { "A"@ }
    else if k == 10 { "A#"@ }
    else { "B"@ }
}

/// The label of a key: its pitch class and `pitch / 12` (middle C, 60, is `C5`).
pub open spec fn pitch_label_spec(pitch: u8) -> Seq<char> {
    pitch_class_name((pitch % 12) as nat) + decimal_spec((pitch / 12) as nat)
}

pub fn pitch_label(pitch: u8) -> (r: String)
    ensures
        r@ == pitch_label_spec(pitch),
{
    let k = pitch % 12;
    let name = if k == 0 { "C" }
        else if k == 1 { "C#" }
        else if k == 2 { "D" }
        else if k == 3 { "D#" }
        else if k == 4 { "E" }
        else if k == 5 { "F" }
        else if k == 6 { "F#" }
        else if k == 7 { "G" }
        else if k == 8 { "G#" }
        else if k == 9 { "A" }
        else if k == 10 { "A#" }
        else { "B" };
    let mut r = owned(name);
    let octave = decimal_text((pitch / 12) as u128);
    push_str(&mut r, octave.as_str());
    r
}

/// The keys a practice keyboard shows for notes between two pitches: two
/// keys more on each side, within the 88 keys of a piano (21 to 108).
pub open spec fn keyboard_range_spec(lowest: u8, highest: u8) -> (u8, u8) {
    let low = if lowest < 2 { 0 } else { (lowest - 2) as int };
    let high = if highest > 253 { 255 } else { highest + 2 };
    (
        (if low < 21 { 21 } else { low }) as u8,
        (if high > 108 { 108 } else { high }) as u8,
    )
}

pub fn keyboard_range(lowest: u8, highest: u8) -> (r: (u8, u8))
    ensures
        r == keyboard_range_spec(lowest, highest),
{
    let low = lowest.saturating_sub(2);
    let high = highest.saturating_add(2);
    (if low < 21 { 21 } else { low }, if high > 108 { 108 } else { high })
}

/// The pitches from `low` to `high`, both included.
pub open spec fn pitches_between(low: u8, high: u8) -> Seq<u8> {
    Seq::new(if low <= high { (high - low + 1) as nat } else { 0 }, |i: int| (low + i) as u8)
}

/// The white keys from `low` to `high`, lowest first.
pub open spec fn white_keys_spec(low: u8, high: u8) -> Seq<u8> {
    pitches_between(low, high).filter(|p: u8| !is_black_key_spec(p))
}

pub fn white_keys(low: u8, high: u8) -> (r: Vec<u8>)
    ensures
        r@ == white_keys_spec(low, high),
{
    let ghost all = pitches_between(low, high);
    let ghost keep = |p: u8| !is_black_key_spec(p);
    let mut r: Vec<u8> = Vec::new();
    if low > high {
        proof {
            assert(all =~= Seq::<u8>::empty());
            assert(all.filter(keep) =~= Seq::<u8>::empty());
        }
        return r;
    }
    let mut p: u16 = low as u16;
    proof {
        assert(all.subrange(0, 0).filter(keep) =~= Seq::<u8>::empty());
    }
    while p <= high as u16
        invariant
            low <= high,
            low <= p <= high as u16 + 1,
            all == pitches_between(low, high),
            keep == (|q: u8| !is_black_key_spec(q)),
            r@ =~= all.subrange(0, p - low).filter(keep),
        decreases high as u16 + 1 - p,
    {
        let pitch = p as u8;
        proof {
            assert(all[p - low] == pitch);
            all.subrange(0, p - low).lemma_filter_push(pitch, keep);
            assert(all.subrange(0, p - low).push(pitch) =~= all.subrange(0, p - low + 1));
        }
        if !is_black_key(pitch) {
            r.push(pitch);
        }
        p = p + 1;
    }
    proof {
        assert(all.subrange(0, all.len() as int) =~= all);
    }
    r
}

/// Whether a preview note sounds at the given tick: from its start to its end, both included.
pub open spec fn sounds_at(note: FallingNoteDTO, tick: int) -> bool {
    note.start_ticks <= tick <= note.start_ticks + note.duration_ticks
}

/// The pitches of the preview notes that sound at the given tick, in their order.
pub open spec fn sounding_pitches_spec(notes: Seq<FallingNoteDTO>, tick: int) -> Seq<u8> {
    notes.filter(|n: FallingNoteDTO| sounds_at(n, tick)).map_values(|n: FallingNoteDTO| n.pitch)
}

pub fn sounding_pitches(notes: &Vec<FallingNoteDTO>, tick: i64) -> (r: Vec<u8>)
    ensures
        r@ == sounding_pitches_spec(notes@, tick as int),
{
    let ghost keep = |n: FallingNoteDTO| sounds_at(n, tick as int);
    let ghost pitch_of = |n: FallingNoteDTO| n.pitch;
    let mut r: Vec<u8> = Vec::new();
    let mut i: usize = 0;
    proof {
        assert(notes@.subrange(0, 0).filter(keep) =~= Seq::<FallingNoteDTO>::empty());
    }
    while i < notes.len()
        invariant
            i <= notes.len(),
            keep == (|n: FallingNoteDTO| sounds_at(n, tick as int)),
            pitch_of == (|n: FallingNoteDTO| n.pitch),
            r@ =~= notes@.subrange(0, i as int).filter(keep).map_values(pitch_of),
        decreases notes.len() - i,
    {
        let n = &notes[i];
        proof {
            notes@.subrange(0, i as int).lemma_filter_push(notes@[i as int], keep);
            assert(notes@.subrange(0, i as int).push(notes@[i as int]) =~= notes@.subrange(0, i + 1));
        }
        let start = n.start_ticks as i128;
        let end = start + n.duration_ticks as i128;
        if start <= tick as i128 && tick as i128 <= end {
            proof {
                let f = notes@.subrange(0, i as int).filter(keep);
                assert(f.push(notes@[i as int]).map_values(pitch_of) =~= f.map_values(pitch_of).push(n.pitch));
            }
            r.push(n.pitch);
        }
        i = i + 1;
    }
    proof {
        assert(notes@.subrange(0, notes@.len() as int) =~= notes@);
    }
    r
}

} // verus!
