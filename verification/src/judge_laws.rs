use vstd::prelude::*;
use crate::judge::{
    lemma_closest_in_bounds, lemma_judge_targets_len, can_answer, closest_answer, is_target, judge_leftovers, judge_spec, judge_targets, leftover_judgement,
    start_keys, start_of, target_notes_spec, targets_in, targets_in_parts,
};
use crate::learning::{Judgement, JudgementKind, PlayableRange};
use crate::music::{BeatSpan, Note, ScorePart};
use crate::order::{key_le, stable_order, lemma_stable_order, lemma_stable_order_values};

verus! {

/// How many judgements of `js` have the given kind.
pub open spec fn count_kind(js: Seq<Judgement>, kind: JudgementKind) -> nat
    decreases js.len(),
{
    if js.len() == 0 {
        0
    } else {
        count_kind(js.drop_last(), kind) + if js.last().kind == kind { 1nat } else { 0nat }
    }
}

/// How many entries of `s` are true.
pub open spec fn count_true(s: Seq<bool>) -> nat
    decreases s.len(),
{
    if s.len() == 0 {
        0
    } else {
        count_true(s.drop_last()) + if s.last() { 1nat } else { 0nat }
    }
}

proof fn lemma_count_kind_concat(a: Seq<Judgement>, b: Seq<Judgement>, kind: JudgementKind)
    ensures
        count_kind(a + b, kind) == count_kind(a, kind) + count_kind(b, kind),
    decreases b.len(),
{
    if b.len() > 0 {
        lemma_count_kind_concat(a, b.drop_last(), kind);
        assert((a + b).drop_last() =~= a + b.drop_last());
    } else {
        assert(a + b =~= a);
    }
}

proof fn lemma_count_true_update(s: Seq<bool>, i: int)
    requires
        0 <= i < s.len(),
        !s[i],
    ensures
        count_true(s.update(i, true)) == count_true(s) + 1,
    decreases s.len(),
{
    if i < s.len() - 1 {
        lemma_count_true_update(s.drop_last(), i);
        assert(s.update(i, true).drop_last() =~= s.drop_last().update(i, true));
    } else {
        assert(s.update(i, true).drop_last() =~= s.drop_last());
    }
}

proof fn lemma_count_true_all_false(n: nat)
    ensures
        count_true(Seq::new(n, |i: int| false)) == 0,
    decreases n,
{
    if n > 0 {
        lemma_count_true_all_false((n - 1) as nat);
        assert(Seq::new(n, |i: int| false).drop_last() =~= Seq::new((n - 1) as nat, |i: int| false));
    }
}

/// How many of the first `n` entries of `s` are false.
spec fn count_false_prefix(s: Seq<bool>, n: nat) -> nat
    decreases n,
{
    if n == 0 {
        0
    } else {
        count_false_prefix(s, (n - 1) as nat) + if s[n - 1] { 0nat } else { 1nat }
    }
}

proof fn lemma_count_prefix(s: Seq<bool>, n: nat)
    requires
        n <= s.len(),
    ensures
        count_false_prefix(s, n) + count_true(s.subrange(0, n as int)) == n,
    decreases n,
{
    if n > 0 {
        lemma_count_prefix(s, (n - 1) as nat);
        assert(s.subrange(0, n as int).drop_last() =~= s.subrange(0, n - 1));
    } else {
        assert(s.subrange(0, 0).len() == 0);
    }
}

proof fn lemma_targets_part(targets: Seq<Note>, perf: Seq<Note>, tol: int, k: nat)
    requires
        k <= targets.len(),
    ensures
        ({
            let (js, taken) = judge_targets(targets, perf, tol, k);
            &&& js.len() == k
            &&& taken.len() == perf.len()
            &&& count_true(taken) == count_kind(js, JudgementKind::Hit)
            &&& count_kind(js, JudgementKind::Hit) + count_kind(js, JudgementKind::Missed) == k
            &&& count_kind(js, JudgementKind::WrongPitch) == 0
            &&& count_kind(js, JudgementKind::Extra) == 0
            &&& forall|j: int| 0 <= j < k ==> (#[trigger] js[j]).kind == JudgementKind::Hit
                || js[j].kind == JudgementKind::Missed
            &&& forall|j: int| 0 <= j < k && (#[trigger] js[j]).kind == JudgementKind::Hit
                ==> -tol <= js[j].timing_offset_ticks <= tol
            &&& forall|j: int| 0 <= j < k && (#[trigger] js[j]).kind == JudgementKind::Missed
                ==> js[j].timing_offset_ticks == 0
        }),
    decreases k,
{
    if k == 0 {
        lemma_count_true_all_false(perf.len());
    } else {
        lemma_targets_part(targets, perf, tol, (k - 1) as nat);
        let (js, taken) = judge_targets(targets, perf, tol, (k - 1) as nat);
        let t = targets[k - 1];
        lemma_closest(perf, taken, t, tol, perf.len());
        let (js2, taken2) = judge_targets(targets, perf, tol, k);
        assert(js2.drop_last() =~= js);
        match closest_answer(perf, taken, t, tol, perf.len()) {
            Some(i) => {
                lemma_count_true_update(taken, i);
            },
            None => {},
        }
    }
}

proof fn lemma_closest(perf: Seq<Note>, taken: Seq<bool>, t: Note, tol: int, n: nat)
    ensures
        closest_answer(perf, taken, t, tol, n) matches Some(i) ==> 0 <= i < n && can_answer(perf, taken, t, tol, i),
    decreases n,
{
    if n > 0 {
        lemma_closest(perf, taken, t, tol, (n - 1) as nat);
    }
}

proof fn lemma_leftovers(targets: Seq<Note>, perf: Seq<Note>, taken: Seq<bool>, tol: int, n: nat)
    requires
        n <= taken.len(),
    ensures
        judge_leftovers(targets, perf, taken, tol, n).len() == count_false_prefix(taken, n),
        count_kind(judge_leftovers(targets, perf, taken, tol, n), JudgementKind::WrongPitch)
            + count_kind(judge_leftovers(targets, perf, taken, tol, n), JudgementKind::Extra)
            == count_false_prefix(taken, n),
        count_kind(judge_leftovers(targets, perf, taken, tol, n), JudgementKind::Hit) == 0,
        count_kind(judge_leftovers(targets, perf, taken, tol, n), JudgementKind::Missed) == 0,
        forall|j: int| 0 <= j < judge_leftovers(targets, perf, taken, tol, n).len() ==>
            (#[trigger] judge_leftovers(targets, perf, taken, tol, n)[j]).kind == JudgementKind::WrongPitch
            || judge_leftovers(targets, perf, taken, tol, n)[j].kind == JudgementKind::Extra,
    decreases n,
{
    if n > 0 {
        lemma_leftovers(targets, perf, taken, tol, (n - 1) as nat);
        let prev = judge_leftovers(targets, perf, taken, tol, (n - 1) as nat);
        if !taken[n - 1] {
            assert(prev.push(leftover_judgement(targets, perf[n - 1], tol)).drop_last() =~= prev);
        }
    }
}

/// Every performed note is judged exactly once, as a hit or as a wrong or
/// extra note, and every target exactly once, as a hit or a miss: the first
/// judgements, one per target, are hits and misses, the rest are wrong or
/// extra notes; a hit lies within the tolerance of its target and a miss has
/// no offset.
pub proof fn lemma_judge_accounts_for_every_note(targets: Seq<Note>, perf: Seq<Note>, tol: int)
    ensures
        ({
            let r = judge_spec(targets, perf, tol);
            &&& r.len() >= targets.len()
            &&& count_kind(r, JudgementKind::Hit) + count_kind(r, JudgementKind::Missed) == targets.len()
            &&& count_kind(r, JudgementKind::Hit) + count_kind(r, JudgementKind::WrongPitch)
                + count_kind(r, JudgementKind::Extra) == perf.len()
            &&& forall|j: int| 0 <= j < targets.len() ==> (#[trigger] r[j]).kind == JudgementKind::Hit
                || r[j].kind == JudgementKind::Missed
            &&& forall|j: int| targets.len() <= j < r.len() ==> (#[trigger] r[j]).kind == JudgementKind::WrongPitch
                || r[j].kind == JudgementKind::Extra
            &&& forall|j: int| 0 <= j < r.len() && (#[trigger] r[j]).kind == JudgementKind::Hit
                ==> -tol <= r[j].timing_offset_ticks <= tol
            &&& forall|j: int| 0 <= j < r.len() && (#[trigger] r[j]).kind == JudgementKind::Missed
                ==> r[j].timing_offset_ticks == 0
        }),
{
    let (js, taken) = judge_targets(targets, perf, tol, targets.len());
    lemma_targets_part(targets, perf, tol, targets.len());
    lemma_leftovers(targets, perf, taken, tol, perf.len());
    lemma_count_prefix(taken, perf.len());
    assert(taken.subrange(0, perf.len() as int) =~= taken);
    let rest = judge_leftovers(targets, perf, taken, tol, perf.len());
    lemma_count_kind_concat(js, rest, JudgementKind::Hit);
    lemma_count_kind_concat(js, rest, JudgementKind::Missed);
    lemma_count_kind_concat(js, rest, JudgementKind::WrongPitch);
    lemma_count_kind_concat(js, rest, JudgementKind::Extra);
    let r = js + rest;
    assert forall|j: int| targets.len() <= j < r.len() implies (#[trigger] r[j]).kind == JudgementKind::WrongPitch
        || r[j].kind == JudgementKind::Extra by {
        assert(r[j] == rest[j - targets.len()]);
    }
}

/// Judgements as `count` copies of one.
pub open spec fn repeated(count: nat, kind: JudgementKind) -> Seq<Judgement> {
    Seq::new(count, |i: int| Judgement { kind, timing_offset_ticks: 0 })
}

proof fn lemma_closest_when_exact(targets: Seq<Note>, tol: int, k: int, n: nat)
    requires
        0 <= k < targets.len(),
        k < n <= targets.len(),
        tol >= 0,
    ensures
        closest_answer(targets, Seq::new(targets.len(), |i: int| i < k), targets[k], tol, n) == Some(k),
    decreases n,
{
    let taken = Seq::new(targets.len(), |i: int| i < k);
    if n == k + 1 {
        lemma_closest_none_below(targets, taken, targets[k], tol, k as nat, k);
    } else {
        lemma_closest_when_exact(targets, tol, k, (n - 1) as nat);
    }
}

proof fn lemma_closest_none_below(perf: Seq<Note>, taken: Seq<bool>, t: Note, tol: int, n: nat, k: int)
    requires
        n <= k,
        k <= taken.len(),
        forall|i: int| 0 <= i < k ==> #[trigger] taken[i],
    ensures
        closest_answer(perf, taken, t, tol, n) is None,
    decreases n,
{
    if n > 0 {
        lemma_closest_none_below(perf, taken, t, tol, (n - 1) as nat, k);
    }
}

/// Playing exactly the target notes, with a tolerance that is not negative,
/// hits every target on time and leaves nothing over.
pub proof fn lemma_exact_performance_hits_everything(targets: Seq<Note>, tol: int)
    requires
        tol >= 0,
    ensures
        judge_spec(targets, targets, tol) == repeated(targets.len(), JudgementKind::Hit),
{
    let n = targets.len();
    assert forall|k: nat| k <= n implies #[trigger] judge_targets(targets, targets, tol, k)
        == (repeated(k, JudgementKind::Hit), Seq::new(n, |i: int| i < k)) by {
        lemma_exact_prefix(targets, tol, k);
    }
    let taken = Seq::new(n, |i: int| i < n);
    lemma_leftovers_none(targets, targets, taken, tol, n);
    assert(judge_spec(targets, targets, tol) =~= repeated(n, JudgementKind::Hit));
}

proof fn lemma_exact_prefix(targets: Seq<Note>, tol: int, k: nat)
    requires
        tol >= 0,
        k <= targets.len(),
    ensures
        judge_targets(targets, targets, tol, k) == (repeated(k, JudgementKind::Hit), Seq::new(targets.len(), |i: int| i < k)),
    decreases k,
{
    let n = targets.len();
    if k == 0 {
        assert(Seq::new(n, |i: int| false) =~= Seq::new(n, |i: int| i < 0));
        assert(repeated(0, JudgementKind::Hit) =~= Seq::empty());
    } else {
        lemma_exact_prefix(targets, tol, (k - 1) as nat);
        let kk = k - 1;
        lemma_closest_when_exact(targets, tol, kk, n);
        assert(Seq::new(n, |i: int| i < kk).update(kk, true) =~= Seq::new(n, |i: int| i < k));
        assert(repeated((k - 1) as nat, JudgementKind::Hit).push(
            Judgement { kind: JudgementKind::Hit, timing_offset_ticks: 0 }) =~= repeated(k, JudgementKind::Hit));
    }
}

proof fn lemma_leftovers_none(targets: Seq<Note>, perf: Seq<Note>, taken: Seq<bool>, tol: int, n: nat)
    requires
        n <= taken.len(),
        forall|i: int| 0 <= i < n ==> #[trigger] taken[i],
    ensures
        judge_leftovers(targets, perf, taken, tol, n) == Seq::<Judgement>::empty(),
    decreases n,
{
    if n > 0 {
        lemma_leftovers_none(targets, perf, taken, tol, (n - 1) as nat);
    }
}

/// When nothing is played, every target is missed.
pub proof fn lemma_silence_misses_everything(targets: Seq<Note>, tol: int)
    ensures
        judge_spec(targets, Seq::empty(), tol) == repeated(targets.len(), JudgementKind::Missed),
{
    let n = targets.len();
    assert forall|k: nat| k <= n implies #[trigger] judge_targets(targets, Seq::empty(), tol, k).0
        == repeated(k, JudgementKind::Missed) by {
        lemma_silence_prefix(targets, tol, k);
    }
    assert(judge_spec(targets, Seq::empty(), tol) =~= repeated(n, JudgementKind::Missed));
}

proof fn lemma_silence_prefix(targets: Seq<Note>, tol: int, k: nat)
    requires
        k <= targets.len(),
    ensures
        judge_targets(targets, Seq::empty(), tol, k).0 == repeated(k, JudgementKind::Missed),
        judge_targets(targets, Seq::empty(), tol, k).1.len() == 0,
    decreases k,
{
    if k == 0 {
        assert(repeated(0, JudgementKind::Missed) =~= Seq::empty());
    } else {
        lemma_silence_prefix(targets, tol, (k - 1) as nat);
        assert(repeated((k - 1) as nat, JudgementKind::Missed).push(
            Judgement { kind: JudgementKind::Missed, timing_offset_ticks: 0 }) =~= repeated(k, JudgementKind::Missed));
    }
}

/// When the exercise asks for no note, every performed note is an extra note.
pub proof fn lemma_nothing_asked_everything_extra(perf: Seq<Note>, tol: int)
    ensures
        judge_spec(Seq::empty(), perf, tol) == repeated(perf.len(), JudgementKind::Extra),
{
    let taken = Seq::new(perf.len(), |i: int| false);
    assert forall|n: nat| n <= perf.len() implies #[trigger] judge_leftovers(Seq::empty(), perf, taken, tol, n)
        == repeated(n, JudgementKind::Extra) by {
        lemma_all_extra(perf, taken, tol, n);
    }
    assert(judge_spec(Seq::empty(), perf, tol) =~= repeated(perf.len(), JudgementKind::Extra));
}

proof fn lemma_all_extra(perf: Seq<Note>, taken: Seq<bool>, tol: int, n: nat)
    requires
        n <= perf.len(),
        taken == Seq::new(perf.len(), |i: int| false),
    ensures
        judge_leftovers(Seq::empty(), perf, taken, tol, n) == repeated(n, JudgementKind::Extra),
    decreases n,
{
    if n == 0 {
        assert(repeated(0, JudgementKind::Extra) =~= Seq::empty());
    } else {
        lemma_all_extra(perf, taken, tol, (n - 1) as nat);
        assert(repeated((n - 1) as nat, JudgementKind::Extra).push(
            Judgement { kind: JudgementKind::Extra, timing_offset_ticks: 0 }) =~= repeated(n, JudgementKind::Extra));
    }
}

// ---------------------------------------------------------------------------
// The target notes.

proof fn lemma_targets_in_selected(notes: Seq<Note>, segment: Option<BeatSpan>, range: Option<PlayableRange>)
    ensures
        forall|i: int| 0 <= i < targets_in(notes, segment, range).len()
            ==> is_target(#[trigger] targets_in(notes, segment, range)[i], segment, range),
    decreases notes.len(),
{
    if notes.len() > 0 {
        lemma_targets_in_selected(notes.drop_last(), segment, range);
        let kept = targets_in(notes.drop_last(), segment, range);
        if is_target(notes.last(), segment, range) {
            assert forall|i: int| 0 <= i < kept.push(notes.last()).len()
                implies is_target(#[trigger] kept.push(notes.last())[i], segment, range) by {
                if i < kept.len() {
                    assert(kept.push(notes.last())[i] == kept[i]);
                }
            }
        }
    }
}

proof fn lemma_targets_in_parts_selected(parts: Seq<ScorePart>, segment: Option<BeatSpan>, range: Option<PlayableRange>)
    ensures
        forall|i: int| 0 <= i < targets_in_parts(parts, segment, range).len()
            ==> is_target(#[trigger] targets_in_parts(parts, segment, range)[i], segment, range),
    decreases parts.len(),
{
    if parts.len() > 0 {
        lemma_targets_in_parts_selected(parts.drop_last(), segment, range);
        lemma_targets_in_selected(parts.last().notes@, segment, range);
        let a = targets_in_parts(parts.drop_last(), segment, range);
        let b = targets_in(parts.last().notes@, segment, range);
        assert forall|i: int| 0 <= i < (a + b).len() implies is_target(#[trigger] (a + b)[i], segment, range) by {
            if i >= a.len() {
                assert((a + b)[i] == b[i - a.len()]);
            }
        }
    }
}

/// The target notes of an exercise are the notes of its parts that lie in the
/// playable range and start in the segment, each exactly once, sorted by
/// where they start.
pub proof fn lemma_target_notes_selected_and_sorted(
    parts: Seq<ScorePart>,
    segment: Option<BeatSpan>,
    range: Option<PlayableRange>,
)
    requires
        targets_in_parts(parts, segment, range).len() <= usize::MAX,
    ensures
        ({
            let r = target_notes_spec(parts, segment, range);
            &&& r.to_multiset() == targets_in_parts(parts, segment, range).to_multiset()
            &&& forall|i: int| 0 <= i < r.len() ==> is_target(#[trigger] r[i], segment, range)
            &&& forall|i: int, j: int| 0 <= i < j < r.len() ==> start_of(#[trigger] r[i]) <= start_of(#[trigger] r[j])
        }),
{
    let kept = targets_in_parts(parts, segment, range);
    let keys = start_keys(kept);
    let order = stable_order(keys, kept.len());
    lemma_stable_order(keys, kept.len());
    lemma_stable_order_values(keys, kept, kept.len());
    assert(kept.subrange(0, kept.len() as int) =~= kept);
    lemma_targets_in_parts_selected(parts, segment, range);
    let r = target_notes_spec(parts, segment, range);
    assert forall|i: int| 0 <= i < r.len() implies is_target(#[trigger] r[i], segment, range) by {
        assert(r[i] == kept[order[i] as int]);
    }
    assert forall|i: int, j: int| 0 <= i < j < r.len() implies start_of(#[trigger] r[i]) <= start_of(#[trigger] r[j]) by {
        assert(key_le(keys[order[i] as int], keys[order[j] as int]));
    }
}

/// The judgement of target `j` is the one made when it was judged: later
/// targets only add judgements after it.
proof fn lemma_target_judgement_stays(targets: Seq<Note>, perf: Seq<Note>, tol: int, j: int, k: nat)
    requires
        0 <= j < k,
    ensures
        judge_targets(targets, perf, tol, k).0[j] == judge_targets(targets, perf, tol, (j + 1) as nat).0[j],
    decreases k,
{
    if k > j + 1 {
        lemma_target_judgement_stays(targets, perf, tol, j, (k - 1) as nat);
        lemma_judge_targets_len(targets, perf, tol, (k - 1) as nat);
        let (js, taken) = judge_targets(targets, perf, tol, (k - 1) as nat);
        lemma_closest_in_bounds(perf, taken, targets[k - 1], tol, perf.len());
    }
}

/// A hit needs a performed note of exactly the target's pitch: for every
/// target judged a hit there is a performed note with the same MIDI pitch,
/// starting within the tolerance of it, whose distance from the target is the
/// judgement's offset; and a target whose pitch nobody played is missed.
pub proof fn lemma_hits_need_the_exact_pitch(targets: Seq<Note>, perf: Seq<Note>, tol: int)
    ensures
        forall|j: int| 0 <= j < targets.len() && (#[trigger] judge_spec(targets, perf, tol)[j]).kind == JudgementKind::Hit
            ==> exists|i: int| 0 <= i < perf.len() && {
                &&& (#[trigger] perf[i]).pitch == targets[j].pitch
                &&& -tol <= perf[i].span.start.ticks - targets[j].span.start.ticks <= tol
                &&& judge_spec(targets, perf, tol)[j].timing_offset_ticks == perf[i].span.start.ticks - targets[j].span.start.ticks
            },
        forall|j: int| 0 <= j < targets.len() && (forall|i: int| 0 <= i < perf.len() ==> (#[trigger] perf[i]).pitch != targets[j].pitch)
            ==> (#[trigger] judge_spec(targets, perf, tol)[j]).kind == JudgementKind::Missed,
{
    let n = targets.len();
    let (js, taken) = judge_targets(targets, perf, tol, n);
    lemma_judge_targets_len(targets, perf, tol, n);
    let r = judge_spec(targets, perf, tol);
    assert forall|j: int| 0 <= j < n implies {
        let x = #[trigger] r[j];
        let (pj, tj) = judge_targets(targets, perf, tol, j as nat);
        &&& x == judge_targets(targets, perf, tol, (j + 1) as nat).0[j]
        &&& match closest_answer(perf, tj, targets[j], tol, perf.len()) {
            Some(i) => 0 <= i < perf.len() && can_answer(perf, tj, targets[j], tol, i)
                && x == Judgement { kind: JudgementKind::Hit, timing_offset_ticks: (perf[i].span.start.ticks - targets[j].span.start.ticks) as i128 },
            None => x.kind == JudgementKind::Missed,
        }
    } by {
        lemma_target_judgement_stays(targets, perf, tol, j, n);
        assert(r[j] == js[j]);
        lemma_judge_targets_len(targets, perf, tol, j as nat);
        let (pj, tj) = judge_targets(targets, perf, tol, j as nat);
        lemma_closest_in_bounds(perf, tj, targets[j], tol, perf.len());
    }
    assert forall|j: int| 0 <= j < n && (#[trigger] r[j]).kind == JudgementKind::Hit implies exists|i: int| 0 <= i < perf.len() && {
        &&& (#[trigger] perf[i]).pitch == targets[j].pitch
        &&& -tol <= perf[i].span.start.ticks - targets[j].span.start.ticks <= tol
        &&& r[j].timing_offset_ticks == perf[i].span.start.ticks - targets[j].span.start.ticks
    } by {
        let (pj, tj) = judge_targets(targets, perf, tol, j as nat);
        let i = closest_answer(perf, tj, targets[j], tol, perf.len())->0;
        assert(perf[i].pitch == targets[j].pitch);
    }
    assert forall|j: int| 0 <= j < n && (forall|i: int| 0 <= i < perf.len() ==> (#[trigger] perf[i]).pitch != targets[j].pitch)
        implies (#[trigger] r[j]).kind == JudgementKind::Missed by {
        let (pj, tj) = judge_targets(targets, perf, tol, j as nat);
        if let Some(i) = closest_answer(perf, tj, targets[j], tol, perf.len()) {
            assert(perf[i].pitch == targets[j].pitch);
        }
    }
}

} // verus!
