use vstd::prelude::*;
use crate::learning::{range_holds, Judgement, JudgementKind, PlayableRange, UserPerformance};
use crate::music::{BeatSpan, Note, ScorePart};
use crate::order::{stable_order, stable_sort_order};

verus! {

/// Where a note starts, in ticks.
pub open spec fn start_of(n: Note) -> int {
    n.span.start.ticks as int
}

pub open spec fn abs_int(x: int) -> int {
    if x < 0 { -x } else { x }
}

/// How far the performed note `p` lies from the target `t`.
pub open spec fn offset_of(p: Note, t: Note) -> int {
    start_of(p) - start_of(t)
}

// ---------------------------------------------------------------------------
// The notes an exercise asks for.

/// Whether a note starts inside the segment (both ends included); every note
/// does when there is no segment.
pub open spec fn in_segment(n: Note, segment: Option<BeatSpan>) -> bool {
    match segment {
        Some(s) => s.start.ticks <= start_of(n) <= s.start.ticks + s.duration_ticks,
        None => true,
    }
}

/// Whether a note lies in the playable range; every note does when there is none.
pub open spec fn in_playable_range(n: Note, range: Option<PlayableRange>) -> bool {
    match range {
        Some(r) => range_holds(r, n.pitch),
        None => true,
    }
}

/// Whether the exercise asks for a note.
pub open spec fn is_target(n: Note, segment: Option<BeatSpan>, range: Option<PlayableRange>) -> bool {
    in_playable_range(n, range) && in_segment(n, segment)
}

/// The notes of `notes` that the exercise asks for, in their order.
pub open spec fn targets_in(notes: Seq<Note>, segment: Option<BeatSpan>, range: Option<PlayableRange>) -> Seq<Note>
    decreases notes.len(),
{
    if notes.len() == 0 {
        Seq::empty()
    } else {
        let kept = targets_in(notes.drop_last(), segment, range);
        if is_target(notes.last(), segment, range) {
            kept.push(notes.last())
        } else {
            kept
        }
    }
}

/// The notes of all parts that the exercise asks for, part after part.
pub open spec fn targets_in_parts(parts: Seq<ScorePart>, segment: Option<BeatSpan>, range: Option<PlayableRange>) -> Seq<Note>
    decreases parts.len(),
{
    if parts.len() == 0 {
        Seq::empty()
    } else {
        targets_in_parts(parts.drop_last(), segment, range) + targets_in(parts.last().notes@, segment, range)
    }
}

/// The sort keys of notes ordered by start alone.
pub open spec fn start_keys(notes: Seq<Note>) -> Seq<(i64, u8)> {
    Seq::new(notes.len(), |i: int| (notes[i].span.start.ticks, 0u8))
}

/// The notes stably sorted by where they start.
pub open spec fn sorted_by_start(notes: Seq<Note>) -> Seq<Note> {
    stable_order(start_keys(notes), notes.len()).map_values(|i: usize| notes[i as int])
}

/// The notes an exercise asks for: those of the parts within the playable
/// range and the segment, stably sorted by start.
pub open spec fn target_notes_spec(parts: Seq<ScorePart>, segment: Option<BeatSpan>, range: Option<PlayableRange>) -> Seq<Note> {
    sorted_by_start(targets_in_parts(parts, segment, range))
}

/// Reorders `items` by the given permutation of their indices.
pub fn reorder(items: &Vec<Note>, order: &Vec<usize>) -> (r: Vec<Note>)
    requires
        forall|i: int| 0 <= i < order.len() ==> #[trigger] order@[i] < items.len(),
    ensures
        r@ == order@.map_values(|i: usize| items@[i as int]),
{
    let mut r: Vec<Note> = Vec::new();
    let mut k: usize = 0;
    while k < order.len()
        invariant
            k <= order.len(),
            forall|i: int| 0 <= i < order.len() ==> #[trigger] order@[i] < items.len(),
            r@ =~= order@.subrange(0, k as int).map_values(|i: usize| items@[i as int]),
        decreases order.len() - k,
    {
        r.push(items[order[k]]);
        k = k + 1;
        proof {
            assert(order@.subrange(0, k as int).drop_last() =~= order@.subrange(0, k - 1));
        }
    }
    proof {
        assert(order@.subrange(0, k as int) =~= order@);
    }
    r
}

/// Notes stably sorted by where they start.
pub fn sort_by_start(notes: &Vec<Note>) -> (r: Vec<Note>)
    ensures
        r@ == sorted_by_start(notes@),
{
    let mut keys: Vec<(i64, u8)> = Vec::new();
    let mut i: usize = 0;
    while i < notes.len()
        invariant
            i <= notes.len(),
            keys@ =~= start_keys(notes@).subrange(0, i as int),
        decreases notes.len() - i,
    {
        keys.push((notes[i].span.start.ticks, 0u8));
        i = i + 1;
    }
    proof {
        assert(keys@ =~= start_keys(notes@));
        crate::order::lemma_stable_order(keys@, keys@.len());
    }
    let order = stable_sort_order(&keys);
    reorder(notes, &order)
}

fn is_target_note(n: Note, segment: Option<BeatSpan>, playable_range: Option<&PlayableRange>) -> (r: bool)
    ensures
        r == is_target(n, segment, match playable_range { Some(p) => Some(*p), None => None }),
{
    let in_range = match playable_range {
        Some(range) => range.contains(n.pitch),
        None => true,
    };
    let in_seg = match segment {
        Some(s) => {
            let start = n.span.start.ticks as i128;
            let seg_start = s.start.ticks as i128;
            let seg_end = seg_start + s.duration_ticks as i128;
            seg_start <= start && start <= seg_end
        },
        None => true,
    };
    in_range && in_seg
}

/// The notes an exercise asks for: the notes of all parts that lie in the
/// playable range and start in the segment, stably sorted by start.
pub fn collect_target_notes(
    parts: &Vec<ScorePart>,
    segment: Option<BeatSpan>,
    playable_range: Option<&PlayableRange>,
) -> (r: Vec<Note>)
    ensures
        r@ == target_notes_spec(parts@, segment, match playable_range { Some(p) => Some(*p), None => None }),
{
    let ghost range = match playable_range { Some(p) => Some(*p), None => None };
    let mut kept: Vec<Note> = Vec::new();
    let mut p: usize = 0;
    while p < parts.len()
        invariant
            p <= parts.len(),
            range == match playable_range { Some(x) => Some(*x), None => None },
            kept@ =~= targets_in_parts(parts@.subrange(0, p as int), segment, range),
        decreases parts.len() - p,
    {
        let notes = &parts[p].notes;
        let ghost before = kept@;
        let mut k: usize = 0;
        while k < notes.len()
            invariant
                k <= notes.len(),
                range == match playable_range { Some(x) => Some(*x), None => None },
                kept@ =~= before + targets_in(notes@.subrange(0, k as int), segment, range),
            decreases notes.len() - k,
        {
            let n = notes[k];
            proof {
                assert(notes@.subrange(0, k + 1).drop_last() =~= notes@.subrange(0, k as int));
            }
            if is_target_note(n, segment, playable_range) {
                kept.push(n);
            }
            k = k + 1;
        }
        proof {
            assert(notes@.subrange(0, k as int) =~= notes@);
            assert(parts@.subrange(0, p + 1).drop_last() =~= parts@.subrange(0, p as int));
        }
        p = p + 1;
    }
    proof {
        assert(parts@.subrange(0, p as int) =~= parts@);
    }
    sort_by_start(&kept)
}

// ---------------------------------------------------------------------------
// Judging a performance against the target notes.

/// Whether performed note `i` can answer target `t`: it is not yet taken,
/// has the target's pitch and starts within the tolerance of it.
pub open spec fn can_answer(perf: Seq<Note>, taken: Seq<bool>, t: Note, tol: int, i: int) -> bool {
    &&& !taken[i]
    &&& perf[i].pitch == t.pitch
    &&& abs_int(offset_of(perf[i], t)) <= tol
}

/// Among the performed notes below index `n` that can answer `t`, the one
/// closest in time to it; the first of them on a tie.
pub open spec fn closest_answer(perf: Seq<Note>, taken: Seq<bool>, t: Note, tol: int, n: nat) -> Option<int>
    decreases n,
{
    if n == 0 {
        None
    } else {
        let best = closest_answer(perf, taken, t, tol, (n - 1) as nat);
        let i = n - 1;
        if can_answer(perf, taken, t, tol, i) && (best is None
            || abs_int(offset_of(perf[i], t)) < abs_int(offset_of(perf[best->0], t))) {
            Some(i)
        } else {
            best
        }
    }
}

/// The judgement of the first `k` targets, in order, and which performed
/// notes they took: each target takes the closest free performed note that
/// can answer it (a hit), or none (a miss).
pub open spec fn judge_targets(targets: Seq<Note>, perf: Seq<Note>, tol: int, k: nat) -> (Seq<Judgement>, Seq<bool>)
    decreases k,
{
    if k == 0 {
        (Seq::empty(), Seq::new(perf.len(), |i: int| false))
    } else {
        let (js, taken) = judge_targets(targets, perf, tol, (k - 1) as nat);
        let t = targets[k - 1];
        match closest_answer(perf, taken, t, tol, perf.len()) {
            Some(i) => (
                js.push(Judgement { kind: JudgementKind::Hit, timing_offset_ticks: offset_of(perf[i], t) as i128 }),
                taken.update(i, true),
            ),
            None => (js.push(Judgement { kind: JudgementKind::Missed, timing_offset_ticks: 0 }), taken),
        }
    }
}

/// Among the first `n` targets, the offset of `p` from the closest one; the
/// first of them on a tie.
pub open spec fn nearest_offset(targets: Seq<Note>, p: Note, n: nat) -> Option<int>
    decreases n,
{
    if n == 0 {
        None
    } else {
        let best = nearest_offset(targets, p, (n - 1) as nat);
        let o = offset_of(p, targets[n - 1]);
        if best is None || abs_int(o) < abs_int(best->0) {
            Some(o)
        } else {
            best
        }
    }
}

/// The judgement of a performed note that no target took: a wrong pitch when
/// the nearest target lies within the tolerance, otherwise an extra note.
pub open spec fn leftover_judgement(targets: Seq<Note>, p: Note, tol: int) -> Judgement {
    match nearest_offset(targets, p, targets.len()) {
        Some(o) => Judgement {
            kind: if abs_int(o) <= tol { JudgementKind::WrongPitch } else { JudgementKind::Extra },
            timing_offset_ticks: o as i128,
        },
        None => Judgement { kind: JudgementKind::Extra, timing_offset_ticks: 0 },
    }
}

/// The judgements of the first `n` performed notes that no target took, in order.
pub open spec fn judge_leftovers(targets: Seq<Note>, perf: Seq<Note>, taken: Seq<bool>, tol: int, n: nat) -> Seq<Judgement>
    decreases n,
{
    if n == 0 {
        Seq::empty()
    } else {
        let prev = judge_leftovers(targets, perf, taken, tol, (n - 1) as nat);
        if taken[n - 1] {
            prev
        } else {
            prev.push(leftover_judgement(targets, perf[n - 1], tol))
        }
    }
}

/// The judgement of a performance: one per target, in order, then one per
/// performed note that no target took, in order.
pub open spec fn judge_spec(targets: Seq<Note>, perf: Seq<Note>, tol: int) -> Seq<Judgement> {
    let (js, taken) = judge_targets(targets, perf, tol, targets.len());
    js + judge_leftovers(targets, perf, taken, tol, perf.len())
}

/// Judges a performance against the target notes.
pub struct PracticeJudge;

fn abs_i128(x: i128) -> (r: i128)
    requires
        x > i128::MIN,
    ensures
        r == abs_int(x as int),
{
    if x < 0 { -x } else { x }
}

pub proof fn lemma_judge_targets_len(targets: Seq<Note>, perf: Seq<Note>, tol: int, k: nat)
    ensures
        judge_targets(targets, perf, tol, k).0.len() == k,
        judge_targets(targets, perf, tol, k).1.len() == perf.len(),
    decreases k,
{
    if k > 0 {
        lemma_judge_targets_len(targets, perf, tol, (k - 1) as nat);
        let (js, taken) = judge_targets(targets, perf, tol, (k - 1) as nat);
        lemma_closest_in_bounds(perf, taken, targets[k - 1], tol, perf.len());
    }
}

pub proof fn lemma_closest_in_bounds(perf: Seq<Note>, taken: Seq<bool>, t: Note, tol: int, n: nat)
    ensures
        closest_answer(perf, taken, t, tol, n) matches Some(i) ==> 0 <= i < n && can_answer(perf, taken, t, tol, i),
    decreases n,
{
    if n > 0 {
        lemma_closest_in_bounds(perf, taken, t, tol, (n - 1) as nat);
    }
}

impl PracticeJudge {
    /// Judges `performance` against `target_notes`: each target in order takes
    /// the closest free performed note of its pitch within the tolerance (a
    /// hit, with its offset) or is missed; each performed note left over is a
    /// wrong pitch when a target lies within the tolerance of it, otherwise an
    /// extra note.
    pub fn judge(target_notes: &Vec<Note>, performance: &UserPerformance, timing_tolerance_ticks: i64) -> (r: Vec<Judgement>)
        ensures
            r@ == judge_spec(target_notes@, performance.notes@, timing_tolerance_ticks as int),
    {
        let perf = &performance.notes;
        let tol = timing_tolerance_ticks as i128;
        let ghost targets = target_notes@;
        let ghost tolerance = timing_tolerance_ticks as int;
        let mut taken: Vec<bool> = Vec::new();
        let mut i: usize = 0;
        while i < perf.len()
            invariant
                i <= perf.len(),
                taken@ =~= Seq::new(i as nat, |k: int| false),
            decreases perf.len() - i,
        {
            taken.push(false);
            i = i + 1;
        }
        let mut judgements: Vec<Judgement> = Vec::new();
        let mut j: usize = 0;
        proof {
            assert(judge_targets(targets, perf@, tolerance, 0).1 =~= taken@);
        }
        while j < target_notes.len()
            invariant
                j <= target_notes.len(),
                targets == target_notes@,
                tolerance == tol,
                (judgements@, taken@) == judge_targets(targets, perf@, tolerance, j as nat),
                taken@.len() == perf@.len(),
            decreases target_notes.len() - j,
        {
            let t = target_notes[j];
            let mut best: Option<usize> = None;
            let mut best_abs: i128 = 0;
            let mut i: usize = 0;
            while i < perf.len()
                invariant
                    i <= perf.len(),
                    taken@.len() == perf@.len(),
                    tolerance == tol,
                    t == targets[j as int],
                    targets == target_notes@,
                    j < target_notes.len(),
                    best matches Some(b) ==> closest_answer(perf@, taken@, t, tolerance, i as nat) == Some(b as int),
                    best is None ==> closest_answer(perf@, taken@, t, tolerance, i as nat) is None,
                    best matches Some(b) ==> b < i && best_abs == abs_int(offset_of(perf@[b as int], t)),
                decreases perf.len() - i,
            {
                let p = perf[i];
                if !taken[i] && p.pitch.0 == t.pitch.0 {
                    let off = p.span.start.ticks as i128 - t.span.start.ticks as i128;
                    let a = abs_i128(off);
                    if a <= tol {
                        if best.is_none() || a < best_abs {
                            best = Some(i);
                            best_abs = a;
                        }
                    }
                }
                i = i + 1;
            }
            proof {
                lemma_judge_targets_len(targets, perf@, tolerance, j as nat);
            }
            match best {
                Some(b) => {
                    let off = perf[b].span.start.ticks as i128 - t.span.start.ticks as i128;
                    judgements.push(Judgement { kind: JudgementKind::Hit, timing_offset_ticks: off });
                    taken.set(b, true);
                },
                None => {
                    judgements.push(Judgement { kind: JudgementKind::Missed, timing_offset_ticks: 0 });
                },
            }
            j = j + 1;
        }
        let ghost taken_all = taken@;
        let ghost hits = judgements@;
        let mut i: usize = 0;
        while i < perf.len()
            invariant
                i <= perf.len(),
                taken@ == taken_all,
                taken_all.len() == perf@.len(),
                targets == target_notes@,
                tolerance == tol,
                judgements@ == hits + judge_leftovers(targets, perf@, taken_all, tolerance, i as nat),
            decreases perf.len() - i,
        {
            if !taken[i] {
                let ps = perf[i].span.start.ticks as i128;
                let mut nearest: Option<i128> = None;
                let mut nearest_abs: i128 = 0;
                let mut k: usize = 0;
                while k < target_notes.len()
                    invariant
                        k <= target_notes.len(),
                        targets == target_notes@,
                        ps == start_of(perf@[i as int]),
                        i < perf.len(),
                        nearest matches Some(o) ==> nearest_offset(targets, perf@[i as int], k as nat) == Some(o as int)
                            && nearest_abs == abs_int(o as int),
                        nearest is None ==> nearest_offset(targets, perf@[i as int], k as nat) is None,
                        nearest is None ==> k == 0,
                    decreases target_notes.len() - k,
                {
                    let o = ps - target_notes[k].span.start.ticks as i128;
                    let a = abs_i128(o);
                    if nearest.is_none() || a < nearest_abs {
                        nearest = Some(o);
                        nearest_abs = a;
                    }
                    k = k + 1;
                }
                let judgement = match nearest {
                    Some(o) => Judgement {
                        kind: if nearest_abs <= tol { JudgementKind::WrongPitch } else { JudgementKind::Extra },
                        timing_offset_ticks: o,
                    },
                    None => Judgement { kind: JudgementKind::Extra, timing_offset_ticks: 0 },
                };
                judgements.push(judgement);
            }
            i = i + 1;
        }
        judgements
    }
}

} // verus!
