use vstd::prelude::*;
use crate::learning::{AttemptView, PracticeSessionStatus, SessionView};
use crate::music::ArrangementView;
use crate::music_commands::{first_arrangement, imported_arrangement, piece_after_import, without_arrangement, ImportPianoArrangementCommand};
use crate::music::PieceView;
use crate::local_library::midi_arrangement_id;
use crate::learning_commands::{ended_session, session_with_attempt};
use crate::demo::{demo_step_spec, DemoStep};
use crate::learning::{JudgementKind, PlayableRange};
use crate::music::{BeatSpan, Note, PartView};
use crate::judge::{judge_spec, sorted_by_start, start_keys, targets_in};
use crate::judge_laws::{count_kind, lemma_judge_accounts_for_every_note};
use crate::learning_commands::{attempt_judgements, target_notes_spec_of_parts, targets_in_part_views};
use crate::order::{lemma_stable_order, stable_order};

verus! {

proof fn lemma_without_has_none(arrangements: Seq<ArrangementView>, id: Seq<char>)
    ensures
        forall|i: int| 0 <= i < without_arrangement(arrangements, id).len()
            ==> (#[trigger] without_arrangement(arrangements, id)[i]).id != id,
    decreases arrangements.len(),
{
    if arrangements.len() > 0 {
        lemma_without_has_none(arrangements.drop_last(), id);
        let kept = without_arrangement(arrangements.drop_last(), id);
        if arrangements.last().id != id {
            assert forall|i: int| 0 <= i < kept.push(arrangements.last()).len()
                implies (#[trigger] kept.push(arrangements.last())[i]).id != id by {
                if i < kept.len() {
                    assert(kept.push(arrangements.last())[i] == kept[i]);
                }
            }
        }
    }
}

proof fn lemma_without_unchanged(arrangements: Seq<ArrangementView>, id: Seq<char>)
    requires
        forall|i: int| 0 <= i < arrangements.len() ==> (#[trigger] arrangements[i]).id != id,
    ensures
        without_arrangement(arrangements, id) == arrangements,
    decreases arrangements.len(),
{
    if arrangements.len() > 0 {
        lemma_without_unchanged(arrangements.drop_last(), id);
        assert(arrangements.drop_last().push(arrangements.last()) =~= arrangements);
    } else {
        assert(arrangements =~= Seq::<ArrangementView>::empty());
    }
}

proof fn lemma_first_none(arrangements: Seq<ArrangementView>, id: Seq<char>)
    requires
        forall|i: int| 0 <= i < arrangements.len() ==> (#[trigger] arrangements[i]).id != id,
    ensures
        first_arrangement(arrangements, id) is None,
    decreases arrangements.len(),
{
    if arrangements.len() > 0 {
        lemma_first_none(arrangements.drop_last(), id);
    }
}

/// After an import the piece holds exactly one arrangement with the imported
/// identity, the imported one, last; the others stay as they were, in order;
/// and it is the one found under that identity.
pub proof fn lemma_import_replaces(piece: PieceView, input: ImportPianoArrangementCommand)
    ensures
        ({
            let after = piece_after_import(piece, input).arrangements;
            let id = input.arrangement_id@;
            &&& after.len() > 0
            &&& after.last() == imported_arrangement(input)
            &&& forall|i: int| 0 <= i < after.len() - 1 ==> (#[trigger] after[i]).id != id
            &&& without_arrangement(after, id) == without_arrangement(piece.arrangements, id)
            &&& first_arrangement(after, id) == Some(after.len() - 1)
        }),
{
    let id = input.arrangement_id@;
    let kept = without_arrangement(piece.arrangements, id);
    let after = kept.push(imported_arrangement(input));
    lemma_without_has_none(piece.arrangements, id);
    assert(after.drop_last() =~= kept);
    assert forall|i: int| 0 <= i < after.len() - 1 implies (#[trigger] after[i]).id != id by {
        assert(after[i] == kept[i]);
    }
    lemma_without_unchanged(kept, id);
    lemma_first_none(kept, id);
}

/// Importing the same arrangement twice leaves the piece's arrangements as
/// importing it once does.
pub proof fn lemma_import_idempotent(piece: PieceView, input: ImportPianoArrangementCommand)
    ensures
        piece_after_import(piece_after_import(piece, input), input).arrangements
            == piece_after_import(piece, input).arrangements,
{
    let id = input.arrangement_id@;
    lemma_import_replaces(piece, input);
    let once = piece_after_import(piece, input);
    let kept = without_arrangement(piece.arrangements, id);
    assert(once.arrangements.drop_last() =~= kept);
    lemma_without_has_none(piece.arrangements, id);
    lemma_without_unchanged(kept, id);
}

/// A MIDI file is registered once: after the import that registers it, the
/// piece holds the file's arrangement, so a later registration of the same
/// file finds it there and imports nothing.
pub proof fn lemma_registered_once(piece: PieceView, input: ImportPianoArrangementCommand, fingerprint: Seq<char>)
    requires
        input.arrangement_id@ == midi_arrangement_id(fingerprint),
    ensures
        first_arrangement(piece_after_import(piece, input).arrangements, midi_arrangement_id(fingerprint)) is Some,
{
    lemma_import_replaces(piece, input);
}

/// Making sure that the demo exists settles: once its arrangement is
/// imported into the demo piece, the next step is none, so a second call
/// changes nothing.
pub proof fn lemma_demo_settles(piece: PieceView, input: ImportPianoArrangementCommand)
    requires
        input.arrangement_id@ == "demo-twinkle-piano"@,
    ensures
        demo_step_spec(Some(piece_after_import(piece, input))) == DemoStep::Ready,
{
    lemma_import_replaces(piece, input);
}

/// An ended session (completed or abandoned), as `finish_session`,
/// `complete_session` and `abandon_session` give it, is no longer active, so
/// ending it again and recording an attempt in it are refused; its attempts
/// and everything else but the status and end time stay as they were.
pub proof fn lemma_end_is_final(session: SessionView, status: PracticeSessionStatus, ended_at: Seq<char>)
    requires
        status == PracticeSessionStatus::Completed || status == PracticeSessionStatus::Abandoned,
    ensures
        ({
            let ended = ended_session(session, status, ended_at);
            &&& ended.status != PracticeSessionStatus::Active
            &&& ended.ended_at == Some(ended_at)
            &&& ended.attempts == session.attempts
            &&& ended.exercise == session.exercise
            &&& ended.id == session.id
            &&& ended.piece_id == session.piece_id
            &&& ended.arrangement_id == session.arrangement_id
            &&& ended.started_at == session.started_at
        }),
{
}

/// Recording an attempt, as `record_attempt` gives the session, keeps every
/// earlier attempt where it was and adds the new one last; the status and
/// everything else stay as they were, so an active session stays active.
pub proof fn lemma_attempts_only_grow(session: SessionView, attempt: AttemptView)
    ensures
        ({
            let after = session_with_attempt(session, attempt);
            &&& after.attempts.len() == session.attempts.len() + 1
            &&& after.attempts.subrange(0, session.attempts.len() as int) == session.attempts
            &&& after.attempts.last() == attempt
            &&& after.status == session.status
            &&& after.ended_at == session.ended_at
            &&& after.exercise == session.exercise
        }),
{
    assert(session.attempts.push(attempt).subrange(0, session.attempts.len() as int) =~= session.attempts);
}

/// Whether a note starts within a segment, from the segment's start to its
/// end, both included; any note does when there is no segment.
pub open spec fn starts_within(n: Note, segment: Option<BeatSpan>) -> bool {
    match segment {
        Some(s) => s.start.ticks <= n.span.start.ticks && n.span.start.ticks <= s.start.ticks + s.duration_ticks,
        None => true,
    }
}

/// Whether a note's key lies from the lowest to the highest key of the range;
/// any note does when there is no range.
pub open spec fn playable_in(n: Note, range: Option<PlayableRange>) -> bool {
    match range {
        Some(r) => r.lowest.0 <= n.pitch.0 && n.pitch.0 <= r.highest.0,
        None => true,
    }
}

/// How many of the notes start within the segment and lie in the range.
pub open spec fn asked_notes(notes: Seq<Note>, segment: Option<BeatSpan>, range: Option<PlayableRange>) -> nat
    decreases notes.len(),
{
    if notes.len() == 0 {
        0
    } else {
        asked_notes(notes.drop_last(), segment, range)
            + if starts_within(notes.last(), segment) && playable_in(notes.last(), range) { 1nat } else { 0nat }
    }
}

/// How many notes of all the parts start within the segment and lie in the range.
pub open spec fn asked_notes_of_parts(parts: Seq<PartView>, segment: Option<BeatSpan>, range: Option<PlayableRange>) -> nat
    decreases parts.len(),
{
    if parts.len() == 0 {
        0
    } else {
        asked_notes_of_parts(parts.drop_last(), segment, range) + asked_notes(parts.last().notes, segment, range)
    }
}

proof fn lemma_targets_in_are_asked(notes: Seq<Note>, segment: Option<BeatSpan>, range: Option<PlayableRange>)
    ensures
        targets_in(notes, segment, range).len() == asked_notes(notes, segment, range),
        forall|i: int| 0 <= i < targets_in(notes, segment, range).len() ==> starts_within(#[trigger] targets_in(notes, segment, range)[i], segment)
            && playable_in(targets_in(notes, segment, range)[i], range),
    decreases notes.len(),
{
    if notes.len() > 0 {
        lemma_targets_in_are_asked(notes.drop_last(), segment, range);
    }
}

proof fn lemma_part_targets_are_asked(parts: Seq<PartView>, segment: Option<BeatSpan>, range: Option<PlayableRange>)
    ensures
        targets_in_part_views(parts, segment, range).len() == asked_notes_of_parts(parts, segment, range),
        forall|i: int| 0 <= i < targets_in_part_views(parts, segment, range).len()
            ==> starts_within(#[trigger] targets_in_part_views(parts, segment, range)[i], segment)
                && playable_in(targets_in_part_views(parts, segment, range)[i], range),
    decreases parts.len(),
{
    if parts.len() > 0 {
        lemma_part_targets_are_asked(parts.drop_last(), segment, range);
        lemma_targets_in_are_asked(parts.last().notes, segment, range);
        let a = targets_in_part_views(parts.drop_last(), segment, range);
        let b = targets_in(parts.last().notes, segment, range);
        assert forall|i: int| 0 <= i < (a + b).len() implies starts_within(#[trigger] (a + b)[i], segment)
            && playable_in((a + b)[i], range) by {
            if i >= a.len() {
                assert((a + b)[i] == b[i - a.len()]);
            } else {
                assert((a + b)[i] == a[i]);
            }
        }
    }
}

/// An attempt is judged against exactly the notes its exercise asks for:
/// there are notes, every one of them starting within the session's segment
/// and lying in its playable range, as many as the arrangement has such
/// notes, such that the attempt's judgements are those of the performance
/// against them; so the hits and misses together number the arrangement's
/// notes that start within the segment and lie in the range.
pub proof fn lemma_attempt_judged_against_the_segment(
    session: SessionView,
    arrangement: ArrangementView,
    performance: Seq<Note>,
    tolerance: i64,
)
    requires
        asked_notes_of_parts(arrangement.score.parts, session.exercise.segment, session.exercise.playable_range) <= usize::MAX,
    ensures
        ({
            let asked = asked_notes_of_parts(arrangement.score.parts, session.exercise.segment, session.exercise.playable_range);
            let js = attempt_judgements(session, arrangement, performance, tolerance);
            &&& exists|targets: Seq<Note>| {
                &&& targets.len() == asked
                &&& forall|i: int| 0 <= i < targets.len() ==> starts_within(#[trigger] targets[i], session.exercise.segment)
                    && playable_in(targets[i], session.exercise.playable_range)
                &&& js == judge_spec(targets, performance, if tolerance < 0 { 0 } else { tolerance as int })
            }
            &&& count_kind(js, JudgementKind::Hit) + count_kind(js, JudgementKind::Missed) == asked
        }),
{
    let segment = session.exercise.segment;
    let range = session.exercise.playable_range;
    let kept = targets_in_part_views(arrangement.score.parts, segment, range);
    lemma_part_targets_are_asked(arrangement.score.parts, segment, range);
    let keys = start_keys(kept);
    lemma_stable_order(keys, kept.len());
    let order = stable_order(keys, kept.len());
    let targets = target_notes_spec_of_parts(arrangement.score.parts, segment, range);
    assert(targets == sorted_by_start(kept));
    assert(targets.len() == kept.len());
    assert forall|i: int| 0 <= i < targets.len() implies starts_within(#[trigger] targets[i], segment)
        && playable_in(targets[i], range) by {
        assert(targets[i] == kept[order[i] as int]);
        assert(order[i] < kept.len());
    }
    let tol = if tolerance < 0 { 0 } else { tolerance as int };
    lemma_judge_accounts_for_every_note(targets, performance, tol);
}

} // verus!
