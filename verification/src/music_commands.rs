use vstd::prelude::*;
use crate::app_error::{is_not_found, is_validation, AppError};
use crate::music::{
    ArrangementId, ArrangementView, MusicPiece, MusicPieceCreated, MusicPieceId, PianoArrangement, PianoScore,
    PieceView, ScoreView,
};
use crate::text::{owned, push_str, trim_spec, trim_str};

verus! {

/// A request to create a music piece.
#[derive(Debug, Clone)]
pub struct CreateMusicPieceCommand {
    pub piece_id: MusicPieceId,
    pub title: String,
    pub creator: Option<String>,
    pub now: String,
}

/// A request to add (or replace) an arrangement of a piece.
#[derive(Debug, Clone)]
pub struct ImportPianoArrangementCommand {
    pub piece_id: MusicPieceId,
    pub arrangement_id: ArrangementId,
    pub title: String,
    pub score: PianoScore,
    pub now: String,
}

#[derive(Debug, Clone)]
pub struct CreateMusicPieceResult {
    pub piece: MusicPiece,
}

#[derive(Debug, Clone)]
pub struct ImportPianoArrangementResult {
    pub piece: MusicPiece,
    pub arrangement: PianoArrangement,
}

/// The creator a piece keeps: the given one trimmed, none when that leaves nothing.
pub open spec fn kept_creator(creator: Option<String>) -> Option<Seq<char>> {
    match creator {
        Some(c) => if trim_spec(c@).len() > 0 { Some(trim_spec(c@)) } else { None },
        None => None,
    }
}

/// The message of creating a piece whose identity is taken.
pub open spec fn piece_exists_message(id: Seq<char>) -> Seq<char> {
    "music piece already exists: "@ + id
}

/// The piece that a creation request makes.
pub open spec fn created_piece(input: CreateMusicPieceCommand) -> PieceView {
    PieceView {
        id: input.piece_id@,
        title: trim_spec(input.title@),
        creator: kept_creator(input.creator),
        arrangements: Seq::empty(),
        created_at: input.now@,
        updated_at: input.now@,
    }
}

/// The title of a new piece: the given one trimmed, refused when that leaves nothing.
pub fn check_piece_title(title: &str) -> (r: Result<String, AppError>)
    ensures
        r is Err <==> trim_spec(title@).len() == 0,
        r matches Ok(t) ==> t@ == trim_spec(title@),
        r matches Err(e) ==> is_validation(e, "music piece title is empty"@),
{
    let t = trim_str(title);
    if t.is_empty() {
        return Err(AppError::validation(owned("music piece title is empty")));
    }
    Ok(owned(t))
}

/// Creates a piece: the title must not be empty once trimmed, and no piece
/// may have the identity yet; the creator is kept trimmed, or dropped when
/// that leaves nothing; both timestamps are the request's.
pub fn create_piece(input: CreateMusicPieceCommand, already_exists: bool) -> (r: Result<CreateMusicPieceResult, AppError>)
    ensures
        trim_spec(input.title@).len() == 0 ==> (r matches Err(e) && is_validation(e, "music piece title is empty"@)),
        trim_spec(input.title@).len() > 0 && already_exists
            ==> (r matches Err(e) && is_validation(e, piece_exists_message(input.piece_id@))),
        trim_spec(input.title@).len() > 0 && !already_exists
            ==> (r matches Ok(res) && res.piece@ == created_piece(input)),
{
    let title = match check_piece_title(input.title.as_str()) {
        Ok(t) => t,
        Err(e) => {
            return Err(e);
        },
    };
    if already_exists {
        let mut message = owned("music piece already exists: ");
        push_str(&mut message, input.piece_id.as_str());
        return Err(AppError::validation(message));
    }
    let creator = match &input.creator {
        Some(value) => {
            let value = trim_str(value.as_str());
            if !value.is_empty() { Some(owned(value)) } else { None }
        },
        None => None,
    };
    let piece = MusicPiece {
        id: input.piece_id,
        title,
        creator,
        arrangements: Vec::new(),
        created_at: input.now.clone(),
        updated_at: input.now,
    };
    proof {
        assert(piece@.arrangements =~= Seq::<ArrangementView>::empty());
    }
    Ok(CreateMusicPieceResult { piece })
}

/// The event that announces a created piece.
pub fn piece_created(piece: &MusicPiece) -> (r: MusicPieceCreated)
    ensures
        r.piece_id@ == piece.id@,
{
    MusicPieceCreated { piece_id: piece.id.copy() }
}

/// Reacts to music events; it has nothing to do yet.
#[derive(Debug, Clone, Copy, Default)]
pub struct MusicEventHandler;

impl MusicEventHandler {
    pub fn new() -> (r: Self) {
        MusicEventHandler
    }

    /// Handles the creation of a piece: nothing to do, so it succeeds.
    pub fn handle_music_piece_created(&self, event: &MusicPieceCreated) -> (r: Result<(), AppError>)
        ensures
            r is Ok,
    {
        Ok(())
    }
}

/// How many notes the parts of a score hold together.
pub open spec fn total_notes(parts: Seq<crate::music::PartView>) -> nat
    decreases parts.len(),
{
    if parts.len() == 0 {
        0
    } else {
        total_notes(parts.drop_last()) + parts.last().notes.len()
    }
}

/// How many notes a score holds.
pub fn score_note_count(score: &PianoScore) -> (r: usize)
    requires
        total_notes(score@.parts) <= usize::MAX,
    ensures
        r == total_notes(score@.parts),
{
    let mut total: usize = 0;
    let mut i: usize = 0;
    while i < score.parts.len()
        invariant
            i <= score.parts.len(),
            total_notes(score@.parts) <= usize::MAX,
            total == total_notes(score@.parts.subrange(0, i as int)),
        decreases score.parts.len() - i,
    {
        proof {
            assert(score@.parts.subrange(0, i + 1).drop_last() =~= score@.parts.subrange(0, i as int));
            lemma_total_notes_prefix(score@.parts, i + 1);
        }
        total = total + score.parts[i].notes.len();
        i = i + 1;
    }
    proof {
        assert(score@.parts.subrange(0, i as int) =~= score@.parts);
    }
    total
}

proof fn lemma_total_notes_prefix(parts: Seq<crate::music::PartView>, n: int)
    requires
        0 <= n <= parts.len(),
    ensures
        total_notes(parts.subrange(0, n)) <= total_notes(parts),
    decreases parts.len(),
{
    if n < parts.len() {
        lemma_total_notes_prefix(parts.drop_last(), n);
        assert(parts.drop_last().subrange(0, n) =~= parts.subrange(0, n));
    } else {
        assert(parts.subrange(0, n) =~= parts);
    }
}

proof fn lemma_total_notes_zero(parts: Seq<crate::music::PartView>)
    ensures
        total_notes(parts) == 0 <==> forall|i: int| 0 <= i < parts.len() ==> (#[trigger] parts[i]).notes.len() == 0,
    decreases parts.len(),
{
    if parts.len() > 0 {
        lemma_total_notes_zero(parts.drop_last());
        assert forall|i: int| 0 <= i < parts.drop_last().len() implies #[trigger] parts.drop_last()[i] == parts[i] by {}
        if total_notes(parts) == 0 {
            assert forall|i: int| 0 <= i < parts.len() implies (#[trigger] parts[i]).notes.len() == 0 by {
                if i < parts.len() - 1 {
                    assert(parts.drop_last()[i] == parts[i]);
                }
            }
        }
    }
}

/// Whether any part of a score holds a note.
pub fn score_has_notes(score: &PianoScore) -> (r: bool)
    ensures
        r == (total_notes(score@.parts) > 0),
{
    proof {
        lemma_total_notes_zero(score@.parts);
    }
    let mut i: usize = 0;
    while i < score.parts.len()
        invariant
            i <= score.parts.len(),
            forall|k: int| 0 <= k < i ==> (#[trigger] score@.parts[k]).notes.len() == 0,
        decreases score.parts.len() - i,
    {
        if score.parts[i].notes.len() > 0 {
            proof {
                assert(score@.parts[i as int].notes.len() > 0);
                assert(!(forall|k: int| 0 <= k < score@.parts.len() ==> (#[trigger] score@.parts[k]).notes.len() == 0));
                lemma_total_notes_zero(score@.parts);
                assert(total_notes(score@.parts) != 0);
            }
            return true;
        }
        i = i + 1;
    }
    false
}

/// The arrangements without those that have the given identity, in order.
pub open spec fn without_arrangement(arrangements: Seq<ArrangementView>, id: Seq<char>) -> Seq<ArrangementView>
    decreases arrangements.len(),
{
    if arrangements.len() == 0 {
        Seq::empty()
    } else {
        let kept = without_arrangement(arrangements.drop_last(), id);
        if arrangements.last().id == id {
            kept
        } else {
            kept.push(arrangements.last())
        }
    }
}

/// The arrangement an import request makes.
pub open spec fn imported_arrangement(input: ImportPianoArrangementCommand) -> ArrangementView {
    ArrangementView {
        id: input.arrangement_id@,
        piece_id: input.piece_id@,
        title: trim_spec(input.title@),
        score: input.score@,
    }
}

/// A piece after an import: the arrangement with the imported identity, if
/// any, gives way to the imported one, which comes last; the piece is updated now.
pub open spec fn piece_after_import(piece: PieceView, input: ImportPianoArrangementCommand) -> PieceView {
    PieceView {
        arrangements: without_arrangement(piece.arrangements, input.arrangement_id@).push(imported_arrangement(input)),
        updated_at: input.now@,
        ..piece
    }
}

/// Adds an arrangement to the piece found for the request (or replaces the
/// one with the same identity): refused when there is no piece, when the
/// title is empty once trimmed, or when the score holds no note.
pub fn import_arrangement(piece: Option<MusicPiece>, input: ImportPianoArrangementCommand) -> (r: Result<ImportPianoArrangementResult, AppError>)
    ensures
        piece is None ==> (r matches Err(e) && is_not_found(e, "music piece"@)),
        piece is Some && trim_spec(input.title@).len() == 0
            ==> (r matches Err(e) && is_validation(e, "arrangement title is empty"@)),
        piece is Some && trim_spec(input.title@).len() > 0 && total_notes(input.score@.parts) == 0
            ==> (r matches Err(e) && is_validation(e, "arrangement score contains no notes"@)),
        piece is Some && trim_spec(input.title@).len() > 0 && total_notes(input.score@.parts) > 0
            ==> (r matches Ok(res) && res.arrangement@ == imported_arrangement(input)
                && res.piece@ == piece_after_import(piece->0@, input)),
{
    let mut piece = match piece {
        Some(p) => p,
        None => {
            return Err(AppError::not_found(owned("music piece")));
        },
    };
    let t = trim_str(input.title.as_str());
    if t.is_empty() {
        return Err(AppError::validation(owned("arrangement title is empty")));
    }
    let title = owned(t);
    if !score_has_notes(&input.score) {
        return Err(AppError::validation(owned("arrangement score contains no notes")));
    }
    let arrangement = PianoArrangement {
        id: input.arrangement_id,
        piece_id: input.piece_id,
        title,
        score: input.score,
    };
    let ghost old_views = piece@.arrangements;
    let mut kept: Vec<PianoArrangement> = Vec::new();
    let mut i: usize = 0;
    while i < piece.arrangements.len()
        invariant
            i <= piece.arrangements.len(),
            old_views == piece@.arrangements,
            kept@.map_values(|a: PianoArrangement| a@)
                == without_arrangement(old_views.subrange(0, i as int), arrangement.id@),
        decreases piece.arrangements.len() - i,
    {
        let ghost before = kept@;
        proof {
            assert(old_views.subrange(0, i + 1).drop_last() =~= old_views.subrange(0, i as int));
            assert(old_views.subrange(0, i + 1).last() == piece.arrangements@[i as int]@);
        }
        if !(piece.arrangements[i].id == arrangement.id) {
            kept.push(piece.arrangements[i].copy());
            proof {
                assert(kept@.map_values(|a: PianoArrangement| a@)
                    =~= before.map_values(|a: PianoArrangement| a@).push(piece.arrangements@[i as int]@));
            }
        }
        i = i + 1;
    }
    proof {
        assert(old_views.subrange(0, i as int) =~= old_views);
    }
    let ghost kept_views = kept@.map_values(|a: PianoArrangement| a@);
    kept.push(arrangement.copy());
    proof {
        assert(kept@.map_values(|a: PianoArrangement| a@) =~= kept_views.push(arrangement@));
    }
    piece.arrangements = kept;
    piece.updated_at = input.now;
    Ok(ImportPianoArrangementResult { piece, arrangement })
}

/// The position of the first arrangement with the given identity.
pub open spec fn first_arrangement(arrangements: Seq<ArrangementView>, id: Seq<char>) -> Option<int>
    decreases arrangements.len(),
{
    if arrangements.len() == 0 {
        None
    } else {
        match first_arrangement(arrangements.drop_last(), id) {
            Some(k) => Some(k),
            None => if arrangements.last().id == id { Some(arrangements.len() - 1) } else { None },
        }
    }
}

/// The position of the first arrangement of the piece with the given identity.
pub fn position_of_arrangement(piece: &MusicPiece, id: &ArrangementId) -> (r: Option<usize>)
    ensures
        match r {
            Some(k) => first_arrangement(piece@.arrangements, id@) == Some(k as int) && k < piece.arrangements.len(),
            None => first_arrangement(piece@.arrangements, id@) is None,
        },
{
    let ghost views = piece@.arrangements;
    let mut i: usize = 0;
    while i < piece.arrangements.len()
        invariant
            i <= piece.arrangements.len(),
            views == piece@.arrangements,
            first_arrangement(views.subrange(0, i as int), id@) is None,
        decreases piece.arrangements.len() - i,
    {
        proof {
            assert(views.subrange(0, i + 1).drop_last() =~= views.subrange(0, i as int));
            assert(views.subrange(0, i + 1).last() == piece.arrangements@[i as int]@);
        }
        if piece.arrangements[i].id == *id {
            proof {
                lemma_first_arrangement_extends(views, (i + 1) as int, id@);
            }
            return Some(i);
        }
        i = i + 1;
    }
    proof {
        assert(views.subrange(0, i as int) =~= views);
    }
    None
}

proof fn lemma_first_arrangement_extends(views: Seq<ArrangementView>, n: int, id: Seq<char>)
    requires
        0 <= n <= views.len(),
        first_arrangement(views.subrange(0, n), id) is Some,
    ensures
        first_arrangement(views, id) == first_arrangement(views.subrange(0, n), id),
    decreases views.len() - n,
{
    if n < views.len() {
        assert(views.subrange(0, n + 1).drop_last() =~= views.subrange(0, n));
        lemma_first_arrangement_extends(views, n + 1, id);
    } else {
        assert(views.subrange(0, n) =~= views);
    }
}

/// Whether the piece has an arrangement with the given identity.
pub fn has_arrangement(piece: &MusicPiece, id: &ArrangementId) -> (r: bool)
    ensures
        r == first_arrangement(piece@.arrangements, id@) is Some,
{
    position_of_arrangement(piece, id).is_some()
}

/// The arrangement with the given identity of the piece found, if any (the
/// first one when several have it).
pub fn find_arrangement(piece: Option<MusicPiece>, arrangement_id: &ArrangementId) -> (r: Option<PianoArrangement>)
    ensures
        match piece {
            None => r is None,
            Some(p) => match first_arrangement(p@.arrangements, arrangement_id@) {
                Some(k) => r matches Some(a) && a@ == p@.arrangements[k],
                None => r is None,
            },
        },
{
    match piece {
        None => None,
        Some(p) => match position_of_arrangement(&p, arrangement_id) {
            Some(k) => Some(p.arrangements[k].copy()),
            None => None,
        },
    }
}

} // verus!
