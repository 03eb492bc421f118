use vstd::prelude::*;

verus! {

// ---------------------------------------------------------------------------
// Stable sorting of indices by keys, under any total preorder of the keys.

/// `le` orders every two keys, and transitively.
pub open spec fn total_preorder<K>(le: spec_fn(K, K) -> bool) -> bool {
    &&& forall|a: K, b: K| #![trigger le(a, b)] le(a, b) || le(b, a)
    &&& forall|a: K, b: K, c: K| #![trigger le(a, b), le(b, c)] le(a, b) && le(b, c) ==> le(a, c)
}

/// Inserts index `x` into `s` after every index whose key is not above the key of `x`.
pub open spec fn insert_by<K>(le: spec_fn(K, K) -> bool, keys: Seq<K>, s: Seq<usize>, x: usize) -> Seq<usize>
    decreases s.len(),
{
    if s.len() == 0 {
        seq![x]
    } else if le(keys[s.last() as int], keys[x as int]) {
        s.push(x)
    } else {
        insert_by(le, keys, s.drop_last(), x).push(s.last())
    }
}

/// The indices `0..n` in the order of a stable sort by their keys.
pub open spec fn stable_order_by<K>(le: spec_fn(K, K) -> bool, keys: Seq<K>, n: nat) -> Seq<usize>
    decreases n,
{
    if n == 0 {
        Seq::empty()
    } else {
        insert_by(le, keys, stable_order_by(le, keys, (n - 1) as nat), (n - 1) as usize)
    }
}

/// `order` lists indices whose keys never decrease.
pub open spec fn sorted_by<K>(le: spec_fn(K, K) -> bool, keys: Seq<K>, order: Seq<usize>) -> bool {
    forall|i: int, j: int|
        0 <= i < j < order.len() ==> #[trigger] le(keys[order[i] as int], keys[order[j] as int])
}

/// Among indices with equal keys, `order` keeps the smaller index first.
pub open spec fn keeps_ties_by<K>(keys: Seq<K>, order: Seq<usize>) -> bool {
    forall|i: int, j: int|
        0 <= i < j < order.len() && keys[order[i] as int] == keys[order[j] as int]
            ==> #[trigger] order[i] < #[trigger] order[j]
}

/// `order` lists each of the indices `0..n` exactly once.
pub open spec fn is_permutation_of_range(order: Seq<usize>, n: nat) -> bool {
    &&& order.len() == n
    &&& forall|i: int| 0 <= i < order.len() ==> #[trigger] order[i] < n
    &&& forall|i: int, j: int| 0 <= i < j < order.len() ==> #[trigger] order[i] != #[trigger] order[j]
}

proof fn lemma_insert_contents_by<K>(le: spec_fn(K, K) -> bool, keys: Seq<K>, s: Seq<usize>, x: usize)
    ensures
        insert_by(le, keys, s, x).len() == s.len() + 1,
        forall|y: usize| #[trigger] insert_by(le, keys, s, x).contains(y) <==> (s.contains(y) || y == x),
        insert_by(le, keys, s, x).to_multiset() =~= s.to_multiset().insert(x),
    decreases s.len(),
{
    broadcast use vstd::seq_lib::group_seq_properties;
    if s.len() == 0 {
        assert(seq![x] =~= Seq::<usize>::empty().push(x));
    } else if le(keys[s.last() as int], keys[x as int]) {
    } else {
        lemma_insert_contents_by(le, keys, s.drop_last(), x);
        assert(s =~= s.drop_last().push(s.last()));
        assert forall|y: usize| #[trigger] insert_by(le, keys, s, x).contains(y) <==> (s.contains(y) || y == x) by {
            if s.contains(y) && y != s.last() {
                let k = choose|k: int| 0 <= k < s.len() && s[k] == y;
                assert(s.drop_last()[k] == y);
            }
        }
    }
}

proof fn lemma_insert_distinct_by<K>(le: spec_fn(K, K) -> bool, keys: Seq<K>, s: Seq<usize>, x: usize)
    requires
        forall|i: int, j: int| 0 <= i < j < s.len() ==> #[trigger] s[i] != #[trigger] s[j],
        !s.contains(x),
    ensures
        forall|i: int, j: int|
            0 <= i < j < insert_by(le, keys, s, x).len() ==> #[trigger] insert_by(le, keys, s, x)[i]
                != #[trigger] insert_by(le, keys, s, x)[j],
    decreases s.len(),
{
    if s.len() == 0 {
    } else if le(keys[s.last() as int], keys[x as int]) {
        let r = s.push(x);
        assert forall|i: int, j: int| 0 <= i < j < r.len() implies #[trigger] r[i] != #[trigger] r[j] by {
            if j == s.len() {
                assert(s.contains(s[i]));
            }
        }
    } else {
        let d = s.drop_last();
        assert(!d.contains(x)) by {
            if d.contains(x) {
                let k = choose|k: int| 0 <= k < d.len() && d[k] == x;
                assert(s[k] == x);
            }
        }
        assert forall|i: int, j: int| 0 <= i < j < d.len() implies #[trigger] d[i] != #[trigger] d[j] by {
            assert(s[i] != s[j]);
        }
        lemma_insert_distinct_by(le, keys, d, x);
        lemma_insert_contents_by(le, keys, d, x);
        let m = insert_by(le, keys, d, x);
        let r = m.push(s.last());
        assert forall|i: int, j: int| 0 <= i < j < r.len() implies #[trigger] r[i] != #[trigger] r[j] by {
            if j == m.len() {
                let y = m[i];
                assert(m.contains(y));
                if y == x {
                    if x == s.last() {
                        assert(s[s.len() - 1] == x);
                        assert(s.contains(x));
                    }
                } else {
                    assert(d.contains(y));
                    let k = choose|k: int| 0 <= k < d.len() && d[k] == y;
                    assert(s[k] != s[s.len() - 1]);
                }
            } else {
                assert(m[i] != m[j]);
            }
        }
    }
}

proof fn lemma_insert_sorted_by<K>(le: spec_fn(K, K) -> bool, keys: Seq<K>, s: Seq<usize>, x: usize)
    requires
        total_preorder(le),
        sorted_by(le, keys, s),
    ensures
        sorted_by(le, keys, insert_by(le, keys, s, x)),
    decreases s.len(),
{
    if s.len() == 0 {
    } else if le(keys[s.last() as int], keys[x as int]) {
        let r = s.push(x);
        assert forall|i: int, j: int| 0 <= i < j < r.len() implies #[trigger] le(keys[r[i] as int], keys[r[j] as int]) by {
            if j == s.len() && i < s.len() - 1 {
                assert(le(keys[s[i] as int], keys[s[s.len() - 1] as int]));
            }
        }
    } else {
        let d = s.drop_last();
        assert(sorted_by(le, keys, d)) by {
            assert forall|i: int, j: int| 0 <= i < j < d.len() implies #[trigger] le(keys[d[i] as int], keys[d[j] as int]) by {
                assert(le(keys[s[i] as int], keys[s[j] as int]));
            }
        }
        lemma_insert_sorted_by(le, keys, d, x);
        lemma_insert_contents_by(le, keys, d, x);
        let m = insert_by(le, keys, d, x);
        let r = m.push(s.last());
        assert forall|i: int, j: int| 0 <= i < j < r.len() implies #[trigger] le(keys[r[i] as int], keys[r[j] as int]) by {
            if j == m.len() {
                let y = m[i];
                assert(m.contains(y));
                if y == x {
                } else {
                    assert(d.contains(y));
                    let k = choose|k: int| 0 <= k < d.len() && d[k] == y;
                    assert(le(keys[s[k] as int], keys[s[s.len() - 1] as int]));
                }
            }
        }
    }
}

proof fn lemma_insert_stable_by<K>(le: spec_fn(K, K) -> bool, keys: Seq<K>, s: Seq<usize>, x: usize)
    requires
        total_preorder(le),
        keeps_ties_by(keys, s),
        forall|i: int| 0 <= i < s.len() ==> #[trigger] s[i] < x,
    ensures
        keeps_ties_by(keys, insert_by(le, keys, s, x)),
    decreases s.len(),
{
    if s.len() == 0 {
    } else if le(keys[s.last() as int], keys[x as int]) {
        let r = s.push(x);
        assert forall|i: int, j: int|
            0 <= i < j < r.len() && keys[r[i] as int] == keys[r[j] as int] implies #[trigger] r[i] < #[trigger] r[j] by {
            if j < s.len() {
                assert(s[i] < s[j]);
            }
        }
    } else {
        let d = s.drop_last();
        assert(keeps_ties_by(keys, d)) by {
            assert forall|i: int, j: int|
                0 <= i < j < d.len() && keys[d[i] as int] == keys[d[j] as int] implies #[trigger] d[i] < #[trigger] d[j] by {
                assert(s[i] < s[j]);
            }
        }
        assert forall|i: int| 0 <= i < d.len() implies #[trigger] d[i] < x by {
            assert(s[i] < x);
        }
        lemma_insert_stable_by(le, keys, d, x);
        lemma_insert_contents_by(le, keys, d, x);
        let m = insert_by(le, keys, d, x);
        let r = m.push(s.last());
        assert forall|i: int, j: int|
            0 <= i < j < r.len() && keys[r[i] as int] == keys[r[j] as int] implies #[trigger] r[i] < #[trigger] r[j] by {
            if j == m.len() {
                let y = m[i];
                assert(m.contains(y));
                if y == x {
                    assert(keys[x as int] == keys[s.last() as int]);
                    assert(false);
                } else {
                    assert(d.contains(y));
                    let k = choose|k: int| 0 <= k < d.len() && d[k] == y;
                    assert(s[k] < s[s.len() - 1]);
                }
            } else {
                assert(m[i] < m[j]);
            }
        }
    }
}

/// The stable order of `n` keys is sorted by key, keeps equal keys in their
/// original order, and lists each index below `n` exactly once.
pub proof fn lemma_stable_order_by<K>(le: spec_fn(K, K) -> bool, keys: Seq<K>, n: nat)
    requires
        total_preorder(le),
        n <= usize::MAX,
    ensures
        sorted_by(le, keys, stable_order_by(le, keys, n)),
        keeps_ties_by(keys, stable_order_by(le, keys, n)),
        is_permutation_of_range(stable_order_by(le, keys, n), n),
    decreases n,
{
    if n > 0 {
        let prev = stable_order_by(le, keys, (n - 1) as nat);
        let x = (n - 1) as usize;
        lemma_stable_order_by(le, keys, (n - 1) as nat);
        lemma_insert_sorted_by(le, keys, prev, x);
        lemma_insert_stable_by(le, keys, prev, x);
        lemma_insert_contents_by(le, keys, prev, x);
        let r = insert_by(le, keys, prev, x);
        assert forall|i: int| 0 <= i < r.len() implies #[trigger] r[i] < n by {
            assert(r.contains(r[i]));
            if r[i] != x {
                assert(prev.contains(r[i]));
            }
        }
        assert(!prev.contains(x)) by {
            if prev.contains(x) {
                let k = choose|k: int| 0 <= k < prev.len() && prev[k] == x;
                assert(prev[k] < n - 1);
            }
        }
        lemma_insert_distinct_by(le, keys, prev, x);
    }
}

proof fn lemma_insert_values_by<K, T>(le: spec_fn(K, K) -> bool, keys: Seq<K>, s: Seq<usize>, x: usize, values: Seq<T>)
    ensures
        insert_by(le, keys, s, x).map_values(|i: usize| values[i as int]).to_multiset()
            =~= s.map_values(|i: usize| values[i as int]).to_multiset().insert(values[x as int]),
    decreases s.len(),
{
    broadcast use vstd::seq_lib::group_to_multiset_ensures;
    if s.len() == 0 {
        assert(insert_by(le, keys, s, x).map_values(|i: usize| values[i as int]) =~= Seq::<T>::empty().push(values[x as int]));
        assert(s.map_values(|i: usize| values[i as int]) =~= Seq::<T>::empty());
    } else if le(keys[s.last() as int], keys[x as int]) {
        assert(s.push(x).map_values(|i: usize| values[i as int])
            =~= s.map_values(|i: usize| values[i as int]).push(values[x as int]));
    } else {
        let d = s.drop_last();
        lemma_insert_values_by(le, keys, d, x, values);
        assert(insert_by(le, keys, d, x).push(s.last()).map_values(|i: usize| values[i as int])
            =~= insert_by(le, keys, d, x).map_values(|i: usize| values[i as int]).push(values[s.last() as int]));
        assert(s.map_values(|i: usize| values[i as int])
            =~= d.map_values(|i: usize| values[i as int]).push(values[s.last() as int]));
    }
}

/// The values picked in the stable order of the first `n` keys are the first
/// `n` values, each as often as before.
pub proof fn lemma_stable_order_values_by<K, T>(le: spec_fn(K, K) -> bool, keys: Seq<K>, values: Seq<T>, n: nat)
    requires
        n <= values.len(),
        n <= usize::MAX,
    ensures
        stable_order_by(le, keys, n).map_values(|i: usize| values[i as int]).to_multiset()
            =~= values.subrange(0, n as int).to_multiset(),
    decreases n,
{
    broadcast use vstd::seq_lib::group_to_multiset_ensures;
    if n == 0 {
        assert(stable_order_by(le, keys, 0).map_values(|i: usize| values[i as int]) =~= Seq::<T>::empty());
        assert(values.subrange(0, 0) =~= Seq::<T>::empty());
    } else {
        lemma_stable_order_values_by(le, keys, values, (n - 1) as nat);
        lemma_insert_values_by(le, keys, stable_order_by(le, keys, (n - 1) as nat), (n - 1) as usize, values);
        assert(values.subrange(0, n as int) =~= values.subrange(0, n - 1).push(values[n - 1]));
    }
}

/// Where `x` goes in `s` when it follows index `j - 1` and precedes the rest.
pub proof fn lemma_insert_at_by<K>(le: spec_fn(K, K) -> bool, keys: Seq<K>, s: Seq<usize>, x: usize, j: int)
    requires
        0 <= j <= s.len(),
        j == 0 || le(keys[s[j - 1] as int], keys[x as int]),
        forall|k: int| j <= k < s.len() ==> !le(keys[#[trigger] s[k] as int], keys[x as int]),
    ensures
        insert_by(le, keys, s, x) =~= s.insert(j, x),
    decreases s.len(),
{
    if s.len() == j {
        if s.len() > 0 {
            assert(s.insert(j, x) =~= s.push(x));
        }
    } else {
        let d = s.drop_last();
        lemma_insert_at_by(le, keys, d, x, j);
        assert(s.insert(j, x) =~= d.insert(j, x).push(s.last()));
    }
}

// ---------------------------------------------------------------------------
// Notes are sorted by keys of a start tick and a pitch.

/// The order of two sort keys: by the first part, then by the second.
pub open spec fn key_le(a: (i64, u8), b: (i64, u8)) -> bool {
    a.0 < b.0 || (a.0 == b.0 && a.1 <= b.1)
}

/// `key_le` as a relation.
pub open spec fn key_order() -> spec_fn((i64, u8), (i64, u8)) -> bool {
    |a: (i64, u8), b: (i64, u8)| key_le(a, b)
}

/// The indices `0..n` in the order of a stable sort by their keys.
pub open spec fn stable_order(keys: Seq<(i64, u8)>, n: nat) -> Seq<usize> {
    stable_order_by(key_order(), keys, n)
}

/// `order` lists indices whose keys never decrease.
pub open spec fn sorted_by_keys(keys: Seq<(i64, u8)>, order: Seq<usize>) -> bool {
    forall|i: int, j: int|
        0 <= i < j < order.len() ==> #[trigger] key_le(keys[order[i] as int], keys[order[j] as int])
}

/// Among indices with equal keys, `order` keeps the smaller index first.
pub open spec fn keeps_ties_in_place(keys: Seq<(i64, u8)>, order: Seq<usize>) -> bool {
    keeps_ties_by(keys, order)
}

/// The stable order of `n` keys is sorted by key, keeps equal keys in their
/// original order, and lists each index below `n` exactly once.
pub proof fn lemma_stable_order(keys: Seq<(i64, u8)>, n: nat)
    requires
        n <= usize::MAX,
    ensures
        sorted_by_keys(keys, stable_order(keys, n)),
        keeps_ties_in_place(keys, stable_order(keys, n)),
        is_permutation_of_range(stable_order(keys, n), n),
{
    let le = key_order();
    assert(total_preorder(le));
    lemma_stable_order_by(le, keys, n);
    let order = stable_order(keys, n);
    assert forall|i: int, j: int| 0 <= i < j < order.len() implies #[trigger] key_le(keys[order[i] as int], keys[order[j] as int]) by {
        assert(le(keys[order[i] as int], keys[order[j] as int]));
    }
}

/// The values picked in the stable order of the first `n` keys are the first
/// `n` values, each as often as before.
pub proof fn lemma_stable_order_values<T>(keys: Seq<(i64, u8)>, values: Seq<T>, n: nat)
    requires
        n <= values.len(),
        n <= usize::MAX,
    ensures
        stable_order(keys, n).map_values(|i: usize| values[i as int]).to_multiset()
            =~= values.subrange(0, n as int).to_multiset(),
{
    lemma_stable_order_values_by(key_order(), keys, values, n);
}

/// The stable sort order of `keys`: the indices of `keys`, sorted by key, with
/// equal keys in their original order.
pub fn stable_sort_order(keys: &Vec<(i64, u8)>) -> (r: Vec<usize>)
    ensures
        r@ == stable_order(keys@, keys@.len()),
{
    let mut r: Vec<usize> = Vec::new();
    let mut x: usize = 0;
    while x < keys.len()
        invariant
            x <= keys.len(),
            r@ == stable_order(keys@, x as nat),
            is_permutation_of_range(r@, x as nat),
        decreases keys.len() - x,
    {
        proof { lemma_stable_order(keys@, x as nat); }
        let mut j = r.len();
        while j > 0 && !(keys[r[j - 1]].0 < keys[x].0 || (keys[r[j - 1]].0 == keys[x].0 && keys[r[j - 1]].1 <= keys[x].1))
            invariant
                j <= r.len(),
                x < keys.len(),
                is_permutation_of_range(r@, x as nat),
                forall|k: int| j <= k < r.len() ==> !key_le(keys@[#[trigger] r@[k] as int], keys@[x as int]),
            decreases j,
        {
            j = j - 1;
        }
        proof {
            lemma_insert_at_by(key_order(), keys@, r@, x, j as int);
            lemma_stable_order(keys@, (x + 1) as nat);
        }
        r.insert(j, x);
        x = x + 1;
    }
    r
}

} // verus!
