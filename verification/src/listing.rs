use vstd::prelude::*;
use crate::learning::{PracticeSession, SessionView};
use crate::music::{MusicPiece, MusicPieceId, PieceView};
use crate::order::{
    is_permutation_of_range, keeps_ties_by, lemma_insert_at_by, lemma_stable_order_by, lemma_stable_order_values_by,
    sorted_by, stable_order_by, total_preorder,
};

verus! {

// ---------------------------------------------------------------------------
// The order of texts: character by character, by code point, a proper prefix
// first. It is the order of `String`'s `Ord`, whose byte order UTF-8 keeps.

/// Whether `a` comes before `b` when both are compared from position `i` on.
pub open spec fn text_before_from(a: Seq<char>, b: Seq<char>, i: int) -> bool
    decreases a.len() - i,
{
    if i >= a.len() {
        i < b.len()
    } else if i >= b.len() {
        false
    } else if a[i] != b[i] {
        (a[i] as int) < (b[i] as int)
    } else {
        text_before_from(a, b, i + 1)
    }
}

/// Whether text `a` comes before text `b`.
pub open spec fn text_before(a: Seq<char>, b: Seq<char>) -> bool {
    text_before_from(a, b, 0)
}

proof fn lemma_text_pair(a: Seq<char>, b: Seq<char>, i: int)
    requires
        0 <= i <= a.len(),
        i <= b.len(),
    ensures
        !text_before_from(a, a, i),
        text_before_from(a, b, i) ==> !text_before_from(b, a, i),
        text_before_from(a, b, i) || text_before_from(b, a, i)
            || (a.len() == b.len() && forall|k: int| i <= k < a.len() ==> a[k] == b[k]),
    decreases a.len() - i,
{
    if i < a.len() && i < b.len() {
        lemma_text_pair(a, b, i + 1);
        lemma_text_pair(a, a, i + 1);
        if a[i] == b[i] && !text_before_from(a, b, i + 1) && !text_before_from(b, a, i + 1) {
            assert forall|k: int| i <= k < a.len() implies a[k] == b[k] by {
                if k > i {
                    assert(i + 1 <= k < a.len());
                }
            }
        }
    } else if i < a.len() {
        lemma_text_pair(a, a, i + 1);
    }
}

proof fn lemma_text_trans(a: Seq<char>, b: Seq<char>, c: Seq<char>, i: int)
    requires
        0 <= i <= a.len(),
        i <= b.len(),
        i <= c.len(),
    ensures
        text_before_from(a, b, i) && text_before_from(b, c, i) ==> text_before_from(a, c, i),
    decreases a.len() - i,
{
    if i < a.len() && i < b.len() && i < c.len() {
        lemma_text_trans(a, b, c, i + 1);
    }
}

/// Texts are totally ordered: no text comes before itself, of two different
/// texts exactly one comes first, and coming first is transitive.
pub proof fn lemma_text_order(a: Seq<char>, b: Seq<char>, c: Seq<char>)
    ensures
        !text_before(a, a),
        text_before(a, b) ==> !text_before(b, a),
        a != b ==> text_before(a, b) || text_before(b, a),
        text_before(a, b) && text_before(b, c) ==> text_before(a, c),
{
    lemma_text_pair(a, b, 0);
    lemma_text_pair(a, a, 0);
    lemma_text_trans(a, b, c, 0);
    if !text_before(a, b) && !text_before(b, a) {
        assert(a =~= b);
    }
}

/// Whether text `a` comes before text `b`.
pub fn text_comes_before(a: &str, b: &str) -> (r: bool)
    ensures
        r == text_before(a@, b@),
{
    let na = a.unicode_len();
    let nb = b.unicode_len();
    let mut i: usize = 0;
    while i < na && i < nb
        invariant
            i <= na,
            i <= nb,
            na == a@.len(),
            nb == b@.len(),
            text_before(a@, b@) == text_before_from(a@, b@, i as int),
        decreases na - i,
    {
        let ca = a.get_char(i);
        let cb = b.get_char(i);
        if ca != cb {
            return (ca as u32) < (cb as u32);
        }
        i = i + 1;
    }
    i == na && i < nb
}

// ---------------------------------------------------------------------------
// Listing keys: a text, then another text for ties.

/// The order of listing keys: by the first text, then by the second.
pub open spec fn listing_le(a: (Seq<char>, Seq<char>), b: (Seq<char>, Seq<char>)) -> bool {
    text_before(a.0, b.0) || (a.0 == b.0 && !text_before(b.1, a.1))
}

/// `listing_le` as a relation.
pub open spec fn listing_order() -> spec_fn((Seq<char>, Seq<char>), (Seq<char>, Seq<char>)) -> bool {
    |a: (Seq<char>, Seq<char>), b: (Seq<char>, Seq<char>)| listing_le(a, b)
}

/// Listing keys are ordered totally and transitively.
pub proof fn lemma_listing_order()
    ensures
        total_preorder(listing_order()),
{
    let le = listing_order();
    assert forall|a: (Seq<char>, Seq<char>), b: (Seq<char>, Seq<char>)| #![trigger le(a, b)] le(a, b) || le(b, a) by {
        lemma_text_order(a.0, b.0, a.0);
        lemma_text_order(a.1, b.1, a.1);
        assert(le(a, b) == listing_le(a, b));
        assert(le(b, a) == listing_le(b, a));
    }
    assert forall|a: (Seq<char>, Seq<char>), b: (Seq<char>, Seq<char>), c: (Seq<char>, Seq<char>)|
        #![trigger le(a, b), le(b, c)] le(a, b) && le(b, c) implies le(a, c) by {
        assert(le(a, b) == listing_le(a, b));
        assert(le(b, c) == listing_le(b, c));
        assert(le(a, c) == listing_le(a, c));
        lemma_text_order(a.0, b.0, c.0);
        lemma_text_order(c.1, b.1, a.1);
        lemma_text_order(a.0, c.0, b.0);
        lemma_text_order(a.1, b.1, c.1);
        lemma_text_order(b.0, a.0, c.0);
    }
}

fn listing_key_le(a0: &str, a1: &str, b0: &str, b1: &str) -> (r: bool)
    ensures
        r == listing_le((a0@, a1@), (b0@, b1@)),
{
    if text_comes_before(a0, b0) {
        true
    } else if text_comes_before(b0, a0) {
        false
    } else {
        proof {
            lemma_text_order(a0@, b0@, a0@);
        }
        !text_comes_before(b1, a1)
    }
}

// ---------------------------------------------------------------------------
// The order in which pieces and sessions are listed.

/// The listing keys of pieces: the title, then the identity.
pub open spec fn piece_keys(pieces: Seq<PieceView>) -> Seq<(Seq<char>, Seq<char>)> {
    Seq::new(pieces.len(), |i: int| (pieces[i].title, pieces[i].id))
}

/// Pieces as they are listed: sorted by title, then by identity, stably.
pub open spec fn pieces_in_listing_order(pieces: Seq<PieceView>) -> Seq<PieceView> {
    stable_order_by(listing_order(), piece_keys(pieces), pieces.len()).map_values(|i: usize| pieces[i as int])
}

/// The listing keys of sessions: the start time, then the identity.
pub open spec fn session_keys(sessions: Seq<SessionView>) -> Seq<(Seq<char>, Seq<char>)> {
    Seq::new(sessions.len(), |i: int| (sessions[i].started_at, sessions[i].id))
}

/// Sessions as they are listed: sorted by start time, then by identity, stably.
pub open spec fn sessions_in_listing_order(sessions: Seq<SessionView>) -> Seq<SessionView> {
    stable_order_by(listing_order(), session_keys(sessions), sessions.len()).map_values(|i: usize| sessions[i as int])
}

/// The views of some pieces.
pub open spec fn piece_views(pieces: Seq<MusicPiece>) -> Seq<PieceView> {
    pieces.map_values(|p: MusicPiece| p@)
}

/// The views of some sessions.
pub open spec fn session_views(sessions: Seq<PracticeSession>) -> Seq<SessionView> {
    sessions.map_values(|s: PracticeSession| s@)
}

/// What listing in stable order gives: the items in order, each as often as
/// before, with keys that never decrease.
pub proof fn lemma_listing<T>(keys: Seq<(Seq<char>, Seq<char>)>, items: Seq<T>)
    requires
        keys.len() == items.len(),
        items.len() <= usize::MAX,
    ensures
        ({
            let order = stable_order_by(listing_order(), keys, items.len());
            let r = order.map_values(|i: usize| items[i as int]);
            &&& r.to_multiset() =~= items.to_multiset()
            &&& forall|i: int, j: int| 0 <= i < j < r.len() ==> #[trigger] listing_le(keys[order[i] as int], keys[order[j] as int])
            &&& keeps_ties_by(keys, order)
        }),
{
    lemma_listing_order();
    lemma_stable_order_by(listing_order(), keys, items.len());
    lemma_stable_order_values_by(listing_order(), keys, items, items.len());
    assert(items.subrange(0, items.len() as int) =~= items);
    let order = stable_order_by(listing_order(), keys, items.len());
    assert(sorted_by(listing_order(), keys, order));
    assert forall|i: int, j: int| 0 <= i < j < order.len() implies #[trigger] listing_le(keys[order[i] as int], keys[order[j] as int]) by {
        assert(listing_order()(keys[order[i] as int], keys[order[j] as int]));
    }
}

/// The texts of listing keys.
pub open spec fn key_texts(keys: Seq<(String, String)>) -> Seq<(Seq<char>, Seq<char>)> {
    keys.map_values(|k: (String, String)| (k.0@, k.1@))
}

/// The items in the stable order of their listing keys.
fn stable_listing<T>(items: Vec<T>, keys: Vec<(String, String)>) -> (r: Vec<T>)
    requires
        items@.len() == keys@.len(),
    ensures
        r@ == stable_order_by(listing_order(), key_texts(keys@), items@.len()).map_values(|i: usize| items@[i as int]),
{
    let ghost all = items@;
    let ghost texts = key_texts(keys@);
    let ghost le = listing_order();
    let n = items.len();
    let mut rest = items;
    let mut rest_keys = keys;
    let mut r: Vec<T> = Vec::new();
    let mut r_keys: Vec<(String, String)> = Vec::new();
    let mut x: usize = 0;
    proof {
        lemma_listing_order();
        assert(rest@ =~= all.subrange(0, n as int));
        assert(key_texts(rest_keys@) =~= texts.subrange(0, n as int));
    }
    while x < n
        invariant
            x <= n,
            n == all.len(),
            n == texts.len(),
            le == listing_order(),
            total_preorder(le),
            rest@ =~= all.subrange(x as int, n as int),
            key_texts(rest_keys@) =~= texts.subrange(x as int, n as int),
            r@ =~= stable_order_by(le, texts, x as nat).map_values(|i: usize| all[i as int]),
            key_texts(r_keys@) =~= stable_order_by(le, texts, x as nat).map_values(|i: usize| texts[i as int]),
        decreases n - x,
    {
        proof {
            lemma_stable_order_by(le, texts, x as nat);
        }
        let ghost order = stable_order_by(le, texts, x as nat);
        let ghost keys_before = rest_keys@;
        assert(key_texts(r_keys@).len() == r_keys@.len());
        assert(rest@.len() > 0 && rest@[0] == all[x as int]);
        assert(key_texts(keys_before).len() == keys_before.len());
        assert(keys_before.len() > 0);
        assert(key_texts(keys_before)[0] == texts[x as int]);
        let item = rest.remove(0);
        let key = rest_keys.remove(0);
        proof {
            assert(rest@ =~= all.subrange(x + 1, n as int));
            assert forall|k: int| 0 <= k < rest_keys@.len() implies #[trigger] key_texts(rest_keys@)[k] == texts[x + 1 + k] by {
                assert(rest_keys@[k] == keys_before[k + 1]);
                assert(key_texts(keys_before)[k + 1] == texts.subrange(x as int, n as int)[k + 1]);
            }
            assert(key_texts(rest_keys@) =~= texts.subrange(x + 1, n as int));
            assert((key.0@, key.1@) == texts[x as int]);
        }
        let mut j = r.len();
        while j > 0 && !listing_key_le(r_keys[j - 1].0.as_str(), r_keys[j - 1].1.as_str(), key.0.as_str(), key.1.as_str())
            invariant
                j <= r.len(),
                r@.len() == order.len(),
                r_keys@.len() == order.len(),
                key_texts(r_keys@) =~= order.map_values(|i: usize| texts[i as int]),
                is_permutation_of_range(order, x as nat),
                (key.0@, key.1@) == texts[x as int],
                le == listing_order(),
                x < n,
                n == texts.len(),
                forall|k: int| j <= k < order.len() ==> !le(texts[#[trigger] order[k] as int], texts[x as int]),
            decreases j,
        {
            proof {
                let k = j - 1;
                assert(key_texts(r_keys@)[k as int] == (r_keys@[k as int].0@, r_keys@[k as int].1@));
                assert(order.map_values(|i: usize| texts[i as int])[k as int] == texts[order[k as int] as int]);
            }
            j = j - 1;
        }
        proof {
            if j > 0 {
                assert(key_texts(r_keys@)[j - 1] == (r_keys@[j - 1].0@, r_keys@[j - 1].1@));
                assert(order.map_values(|i: usize| texts[i as int])[j - 1] == texts[order[j - 1] as int]);
                assert(le(texts[order[j - 1] as int], texts[x as int]) == listing_le(texts[order[j - 1] as int], texts[x as int]));
            }
            lemma_insert_at_by(le, texts, order, x, j as int);
            lemma_stable_order_by(le, texts, (x + 1) as nat);
        }
        let ghost old_keys = r_keys@;
        r.insert(j, item);
        r_keys.insert(j, key);
        proof {
            let f = |i: usize| texts[i as int];
            assert forall|k: int| 0 <= k < r_keys@.len() implies #[trigger] key_texts(r_keys@)[k] == order.insert(j as int, x).map_values(f)[k] by {
                assert(key_texts(r_keys@)[k] == (r_keys@[k].0@, r_keys@[k].1@));
                if k < j {
                    assert(key_texts(old_keys)[k] == (old_keys[k].0@, old_keys[k].1@));
                    assert(order.map_values(f)[k] == texts[order[k] as int]);
                } else if k > j {
                    assert(key_texts(old_keys)[k - 1] == (old_keys[k - 1].0@, old_keys[k - 1].1@));
                    assert(order.map_values(f)[k - 1] == texts[order[k - 1] as int]);
                }
            }
            assert(key_texts(r_keys@) =~= order.insert(j as int, x).map_values(f));
            assert(r@ =~= order.insert(j as int, x).map_values(|i: usize| all[i as int]));
        }
        x = x + 1;
    }
    r
}

/// The listing keys of some pieces, in their order.
fn piece_listing_keys(pieces: &Vec<MusicPiece>) -> (r: Vec<(String, String)>)
    ensures
        key_texts(r@) == piece_keys(piece_views(pieces@)),
{
    let mut r: Vec<(String, String)> = Vec::new();
    let mut i: usize = 0;
    while i < pieces.len()
        invariant
            i <= pieces.len(),
            key_texts(r@) =~= piece_keys(piece_views(pieces@)).subrange(0, i as int),
        decreases pieces.len() - i,
    {
        let ghost before = r@;
        r.push((pieces[i].title.clone(), pieces[i].id.0.clone()));
        proof {
            let all = piece_keys(piece_views(pieces@));
            assert(piece_views(pieces@)[i as int] == pieces@[i as int]@);
            assert(all[i as int] == (pieces@[i as int]@.title, pieces@[i as int]@.id));
            assert(key_texts(r@) =~= key_texts(before).push(all[i as int]));
            assert(all.subrange(0, i + 1) =~= all.subrange(0, i as int).push(all[i as int]));
        }
        i = i + 1;
    }
    r
}

/// The listing keys of some sessions, in their order.
fn session_listing_keys(sessions: &Vec<PracticeSession>) -> (r: Vec<(String, String)>)
    ensures
        key_texts(r@) == session_keys(session_views(sessions@)),
{
    let mut r: Vec<(String, String)> = Vec::new();
    let mut i: usize = 0;
    while i < sessions.len()
        invariant
            i <= sessions.len(),
            key_texts(r@) =~= session_keys(session_views(sessions@)).subrange(0, i as int),
        decreases sessions.len() - i,
    {
        let ghost before = r@;
        r.push((sessions[i].started_at.clone(), sessions[i].id.0.clone()));
        proof {
            let all = session_keys(session_views(sessions@));
            assert(session_views(sessions@)[i as int] == sessions@[i as int]@);
            assert(all[i as int] == (sessions@[i as int]@.started_at, sessions@[i as int]@.id));
            assert(key_texts(r@) =~= key_texts(before).push(all[i as int]));
            assert(all.subrange(0, i + 1) =~= all.subrange(0, i as int).push(all[i as int]));
        }
        i = i + 1;
    }
    r
}

/// Pieces in the order they are listed: by title, then by identity; pieces
/// with the same title and identity keep their order.
pub fn list_pieces_in_order(pieces: Vec<MusicPiece>) -> (r: Vec<MusicPiece>)
    ensures
        piece_views(r@) == pieces_in_listing_order(piece_views(pieces@)),
        piece_views(r@).to_multiset() == piece_views(pieces@).to_multiset(),
        forall|i: int, j: int| 0 <= i < j < r@.len() ==>
            #[trigger] listing_le((r@[i]@.title, r@[i]@.id), (r@[j]@.title, r@[j]@.id)),
{
    let ghost views = piece_views(pieces@);
    let ghost keys = piece_keys(views);
    let n = pieces.len();
    let listing_keys = piece_listing_keys(&pieces);
    assert(views.len() == n && keys.len() == n);
    assert(key_texts(listing_keys@).len() == listing_keys@.len());
    let ghost all = pieces@;
    let r = stable_listing(pieces, listing_keys);
    proof {
        let order = stable_order_by(listing_order(), keys, views.len());
        lemma_listing(keys, views);
        lemma_listing_order();
        lemma_stable_order_by(listing_order(), keys, views.len());
        assert forall|k: int| 0 <= k < r@.len() implies #[trigger] piece_views(r@)[k] == order.map_values(|i: usize| views[i as int])[k] by {
            assert(r@[k] == all[order[k] as int]);
        }
        assert(piece_views(r@) =~= order.map_values(|i: usize| views[i as int]));
        assert forall|i: int, j: int| 0 <= i < j < r@.len() implies
            #[trigger] listing_le((r@[i]@.title, r@[i]@.id), (r@[j]@.title, r@[j]@.id)) by {
            assert(r@[i] == all[order[i] as int]);
            assert(r@[j] == all[order[j] as int]);
            assert(listing_le(keys[order[i] as int], keys[order[j] as int]));
        }
    }
    r
}

/// Sessions in the order they are listed: by start time, then by identity;
/// sessions with the same start time and identity keep their order.
pub fn list_sessions_in_order(sessions: Vec<PracticeSession>) -> (r: Vec<PracticeSession>)
    ensures
        session_views(r@) == sessions_in_listing_order(session_views(sessions@)),
        session_views(r@).to_multiset() == session_views(sessions@).to_multiset(),
        forall|i: int, j: int| 0 <= i < j < r@.len() ==>
            #[trigger] listing_le((r@[i]@.started_at, r@[i]@.id), (r@[j]@.started_at, r@[j]@.id)),
{
    let ghost views = session_views(sessions@);
    let ghost keys = session_keys(views);
    let n = sessions.len();
    let listing_keys = session_listing_keys(&sessions);
    assert(views.len() == n && keys.len() == n);
    assert(key_texts(listing_keys@).len() == listing_keys@.len());
    let ghost all = sessions@;
    let r = stable_listing(sessions, listing_keys);
    proof {
        let order = stable_order_by(listing_order(), keys, views.len());
        lemma_listing(keys, views);
        lemma_listing_order();
        lemma_stable_order_by(listing_order(), keys, views.len());
        assert forall|k: int| 0 <= k < r@.len() implies #[trigger] session_views(r@)[k] == order.map_values(|i: usize| views[i as int])[k] by {
            assert(r@[k] == all[order[k] as int]);
        }
        assert(session_views(r@) =~= order.map_values(|i: usize| views[i as int]));
        assert forall|i: int, j: int| 0 <= i < j < r@.len() implies
            #[trigger] listing_le((r@[i]@.started_at, r@[i]@.id), (r@[j]@.started_at, r@[j]@.id)) by {
            assert(r@[i] == all[order[i] as int]);
            assert(r@[j] == all[order[j] as int]);
            assert(listing_le(keys[order[i] as int], keys[order[j] as int]));
        }
    }
    r
}

/// The sessions that practise the given piece, in their order.
pub fn sessions_of_piece(sessions: Vec<PracticeSession>, piece_id: &MusicPieceId) -> (r: Vec<PracticeSession>)
    ensures
        session_views(r@) == session_views(sessions@).filter(|s: SessionView| s.piece_id == piece_id@),
{
    let ghost views = session_views(sessions@);
    let ghost keep = |s: SessionView| s.piece_id == piece_id@;
    let mut rest = sessions;
    let mut r: Vec<PracticeSession> = Vec::new();
    let n = rest.len();
    let mut i: usize = 0;
    proof {
        assert(session_views(rest@) =~= views.subrange(0, n as int));
        assert(views.subrange(0, 0).filter(keep) =~= Seq::<SessionView>::empty());
    }
    while i < n
        invariant
            i <= n,
            n == views.len(),
            session_views(rest@) =~= views.subrange(i as int, n as int),
            session_views(r@) =~= views.subrange(0, i as int).filter(keep),
            keep == (|s: SessionView| s.piece_id == piece_id@),
        decreases n - i,
    {
        let ghost before = rest@;
        assert(session_views(before).len() == before.len());
        assert(session_views(before)[0] == before[0]@);
        let s = rest.remove(0);
        proof {
            assert forall|k: int| 0 <= k < rest@.len() implies #[trigger] session_views(rest@)[k] == views[i + 1 + k] by {
                assert(rest@[k] == before[k + 1]);
                assert(session_views(before)[k + 1] == before[k + 1]@);
                assert(views.subrange(i as int, n as int)[k + 1] == views[i + 1 + k]);
            }
            assert(session_views(rest@) =~= views.subrange(i + 1, n as int));
            assert(views.subrange(0, i + 1).drop_last() =~= views.subrange(0, i as int));
            assert(s@ == views[i as int]);
        }
        if s.piece_id.0 == piece_id.0 {
            let ghost old_r = r@;
            r.push(s);
            proof {
                assert(session_views(r@) =~= session_views(old_r).push(views[i as int]));
            }
        }
        proof {
            assert(views.subrange(0, i + 1).filter(keep) =~= if keep(views[i as int]) {
                views.subrange(0, i as int).filter(keep).push(views[i as int])
            } else {
                views.subrange(0, i as int).filter(keep)
            }) by {
                views.subrange(0, i as int).lemma_filter_push(views[i as int], keep);
                assert(views.subrange(0, i as int).push(views[i as int]) =~= views.subrange(0, i + 1));
            }
        }
        i = i + 1;
    }
    proof {
        assert(views.subrange(0, n as int) =~= views);
    }
    r
}

} // verus!
