//! Ordering of character sequences (the order of `String`'s `Ord`: by code
//! point, a proper prefix first) and a stable sort of positions by a pair of
//! such sequences.

use vstd::prelude::*;

verus! {

/// `a` comes strictly before `b`: at the first difference `a` has the
/// smaller character, or `a` is a proper prefix of `b`.
pub open spec fn lex_lt(a: Seq<char>, b: Seq<char>) -> bool
    decreases a.len(),
{
    if a.len() == 0 {
        b.len() > 0
    } else if b.len() == 0 {
        false
    } else if a[0] != b[0] {
        a[0] < b[0]
    } else {
        lex_lt(a.drop_first(), b.drop_first())
    }
}

/// A sort key: two sequences compared one after the other.
pub type Key = (Seq<char>, Seq<char>);

/// Strictly before, on the first sequence and then on the second.
pub open spec fn key_lt(a: Key, b: Key) -> bool {
    lex_lt(a.0, b.0) || (a.0 == b.0 && lex_lt(a.1, b.1))
}

/// Position `i` sorts before position `j`: smaller key, or equal keys and
/// the earlier position (which makes the sort stable).
pub open spec fn pos_lt(keys: Seq<Key>, i: int, j: int) -> bool {
    key_lt(keys[i], keys[j]) || (keys[i] == keys[j] && i < j)
}

/// `idx` lists every position `0..n` once, in strictly increasing
/// `pos_lt` order: the stable sort of the positions by key.
pub open spec fn stable_order(keys: Seq<Key>, idx: Seq<int>) -> bool {
    &&& idx.len() == keys.len()
    &&& forall|i: int| 0 <= i < idx.len() ==> 0 <= #[trigger] idx[i] < keys.len()
    &&& forall|i: int, j: int| 0 <= i < j < idx.len() ==> pos_lt(keys, #[trigger] idx[i], #[trigger] idx[j])
}

/// The first position of `s` whose element satisfies `p`.
pub open spec fn first_where<A>(s: Seq<A>, p: spec_fn(A) -> bool) -> Option<int>
    decreases s.len(),
{
    if s.len() == 0 {
        None
    } else {
        match first_where(s.drop_last(), p) {
            Some(i) => Some(i),
            None => if p(s.last()) {
                Some(s.len() - 1)
            } else {
                None
            },
        }
    }
}

/// An element that satisfies `p` after none did is the first one.
pub proof fn lemma_first_found<A>(s: Seq<A>, p: spec_fn(A) -> bool, i: int)
    requires
        0 <= i < s.len(),
        p(s[i]),
        forall|j: int| 0 <= j < i ==> !p(#[trigger] s[j]),
    ensures
        first_where(s, p) == Some(i),
    decreases s.len(),
{
    if i < s.len() - 1 {
        let t = s.drop_last();
        assert forall|j: int| 0 <= j < i implies !p(#[trigger] t[j]) by {
            assert(t[j] == s[j]);
        }
        assert(t[i] == s[i]);
        lemma_first_found(t, p, i);
    } else {
        lemma_first_none(s.drop_last(), p);
    }
}

/// No element satisfies `p`: there is no first one.
pub proof fn lemma_first_none<A>(s: Seq<A>, p: spec_fn(A) -> bool)
    requires
        forall|j: int| 0 <= j < s.len() ==> !p(#[trigger] s[j]),
    ensures
        first_where(s, p) is None,
    decreases s.len(),
{
    if s.len() > 0 {
        let t = s.drop_last();
        assert forall|j: int| 0 <= j < t.len() implies !p(#[trigger] t[j]) by {
            assert(t[j] == s[j]);
        }
        lemma_first_none(t, p);
        assert(!p(s[s.len() - 1]));
    }
}

/// What `first_where` names: a first satisfying position, or none at all.
pub proof fn lemma_first_where<A>(s: Seq<A>, p: spec_fn(A) -> bool)
    ensures
        match first_where(s, p) {
            Some(i) => 0 <= i < s.len() && p(s[i]) && forall|j: int| 0 <= j < i ==> !p(#[trigger] s[j]),
            None => forall|j: int| 0 <= j < s.len() ==> !p(#[trigger] s[j]),
        },
    decreases s.len(),
{
    if s.len() > 0 {
        let t = s.drop_last();
        lemma_first_where(t, p);
        assert forall|j: int| 0 <= j < t.len() implies t[j] == s[j] by {}
    }
}

/// `lex_lt` is irreflexive.
pub proof fn lemma_lex_irrefl(a: Seq<char>)
    ensures
        !lex_lt(a, a),
    decreases a.len(),
{
    if a.len() > 0 {
        lemma_lex_irrefl(a.drop_first());
    }
}

/// `lex_lt` is total: of two different sequences one comes first.
pub proof fn lemma_lex_total(a: Seq<char>, b: Seq<char>)
    ensures
        lex_lt(a, b) || lex_lt(b, a) || a == b,
    decreases a.len(),
{
    if a.len() > 0 && b.len() > 0 && a[0] == b[0] {
        lemma_lex_total(a.drop_first(), b.drop_first());
        if a.drop_first() == b.drop_first() {
            assert(a =~= seq![a[0]] + a.drop_first());
            assert(b =~= seq![b[0]] + b.drop_first());
        }
    } else if a.len() > 0 && b.len() > 0 {
    } else if a.len() == 0 && b.len() == 0 {
        assert(a =~= b);
    }
}

/// `lex_lt` is asymmetric.
pub proof fn lemma_lex_asym(a: Seq<char>, b: Seq<char>)
    ensures
        !(lex_lt(a, b) && lex_lt(b, a)),
    decreases a.len(),
{
    if a.len() > 0 && b.len() > 0 && a[0] == b[0] {
        lemma_lex_asym(a.drop_first(), b.drop_first());
    }
}

/// `lex_lt` is transitive.
pub proof fn lemma_lex_trans(a: Seq<char>, b: Seq<char>, c: Seq<char>)
    requires
        lex_lt(a, b),
        lex_lt(b, c),
    ensures
        lex_lt(a, c),
    decreases a.len(),
{
    if a.len() > 0 && b.len() > 0 && c.len() > 0 && a[0] == b[0] && b[0] == c[0] {
        lemma_lex_trans(a.drop_first(), b.drop_first(), c.drop_first());
    }
}

/// `pos_lt` is a strict total order on the positions of `keys`.
pub proof fn lemma_pos_order(keys: Seq<Key>, i: int, j: int, k: int)
    ensures
        !pos_lt(keys, i, i),
        i != j ==> (pos_lt(keys, i, j) || pos_lt(keys, j, i)),
        !(pos_lt(keys, i, j) && pos_lt(keys, j, i)),
        pos_lt(keys, i, j) && pos_lt(keys, j, k) ==> pos_lt(keys, i, k),
{
    let (a, b, c) = (keys[i], keys[j], keys[k]);
    lemma_lex_irrefl(a.0);
    lemma_lex_irrefl(a.1);
    lemma_lex_total(a.0, b.0);
    lemma_lex_total(a.1, b.1);
    lemma_lex_asym(a.0, b.0);
    lemma_lex_asym(a.1, b.1);
    if a.0 == b.0 && a.1 == b.1 {
        assert(a == b);
    }
    if pos_lt(keys, i, j) && pos_lt(keys, j, k) {
        if lex_lt(a.0, b.0) && lex_lt(b.0, c.0) {
            lemma_lex_trans(a.0, b.0, c.0);
        } else if lex_lt(a.0, b.0) {
        } else if lex_lt(b.0, c.0) {
        } else if lex_lt(a.1, b.1) && lex_lt(b.1, c.1) {
            lemma_lex_trans(a.1, b.1, c.1);
        }
    }
}

/// Compares two character sequences.
pub fn chars_lt(a: &[char], b: &[char]) -> (r: bool)
    ensures
        r == lex_lt(a@, b@),
{
    let mut i: usize = 0;
    assert(a@.subrange(0, a@.len() as int) =~= a@);
    assert(b@.subrange(0, b@.len() as int) =~= b@);
    while i < a.len() && i < b.len()
        invariant
            i <= a@.len(),
            i <= b@.len(),
            a@.subrange(0, i as int) == b@.subrange(0, i as int),
            lex_lt(a@, b@) == lex_lt(a@.subrange(i as int, a@.len() as int), b@.subrange(i as int, b@.len() as int)),
        decreases a.len() - i,
    {
        let ghost sa = a@.subrange(i as int, a@.len() as int);
        let ghost sb = b@.subrange(i as int, b@.len() as int);
        if a[i] != b[i] {
            return a[i] < b[i];
        }
        assert(sa.drop_first() =~= a@.subrange(i + 1, a@.len() as int));
        assert(sb.drop_first() =~= b@.subrange(i + 1, b@.len() as int));
        assert(a@.subrange(0, i + 1) =~= a@.subrange(0, i as int).push(a@[i as int]));
        assert(b@.subrange(0, i + 1) =~= b@.subrange(0, i as int).push(b@[i as int]));
        i = i + 1;
    }
    i < b.len()
}

/// Whether two character sequences are equal.
pub fn chars_eq(a: &[char], b: &[char]) -> (r: bool)
    ensures
        r == (a@ == b@),
{
    if a.len() != b.len() {
        return false;
    }
    let mut i: usize = 0;
    while i < a.len()
        invariant
            i <= a@.len(),
            a@.len() == b@.len(),
            forall|k: int| 0 <= k < i ==> a@[k] == b@[k],
        decreases a.len() - i,
    {
        if a[i] != b[i] {
            return false;
        }
        i = i + 1;
    }
    assert(a@ =~= b@);
    true
}

/// Whether position `i` sorts before position `j`.
fn pos_before(keys: &Vec<(Vec<char>, Vec<char>)>, i: usize, j: usize) -> (r: bool)
    requires
        i < keys@.len(),
        j < keys@.len(),
    ensures
        r == pos_lt(keys_view(keys@), i as int, j as int),
{
    let a = &keys[i];
    let b = &keys[j];
    if chars_lt(a.0.as_slice(), b.0.as_slice()) {
        return true;
    }
    if !chars_eq(a.0.as_slice(), b.0.as_slice()) {
        return false;
    }
    if chars_lt(a.1.as_slice(), b.1.as_slice()) {
        return true;
    }
    chars_eq(a.1.as_slice(), b.1.as_slice()) && i < j
}

/// The keys as sequence pairs.
pub open spec fn keys_view(v: Seq<(Vec<char>, Vec<char>)>) -> Seq<Key> {
    v.map_values(|p: (Vec<char>, Vec<char>)| (p.0@, p.1@))
}

/// The positions `0..keys.len()` in stable sorted order of their keys.
pub fn sort_positions(keys: &Vec<(Vec<char>, Vec<char>)>) -> (idx: Vec<usize>)
    ensures
        stable_order(keys_view(keys@), idx@.map_values(|p: usize| p as int)),
{
    let ghost ks = keys_view(keys@);
    let mut idx: Vec<usize> = Vec::new();
    let mut k: usize = 0;
    while k < keys.len()
        invariant
            k <= keys@.len(),
            ks == keys_view(keys@),
            idx@.len() == k,
            forall|i: int| 0 <= i < idx@.len() ==> #[trigger] idx@[i] < k,
            forall|i: int, j: int| 0 <= i < j < idx@.len() ==> pos_lt(ks, #[trigger] idx@[i] as int, #[trigger] idx@[j] as int),
        decreases keys.len() - k,
    {
        // first place whose position must come after k
        let mut p: usize = 0;
        while p < idx.len() && !pos_before(keys, k, idx[p])
            invariant
                p <= idx@.len(),
                k < keys@.len(),
                ks == keys_view(keys@),
                forall|i: int| 0 <= i < idx@.len() ==> #[trigger] idx@[i] < k,
                forall|i: int| 0 <= i < p ==> !pos_lt(ks, k as int, #[trigger] idx@[i] as int),
            decreases idx.len() - p,
        {
            p = p + 1;
        }
        let ghost old_idx = idx@;
        idx.insert(p, k);
        proof {
            assert forall|i: int, j: int| 0 <= i < j < idx@.len() implies pos_lt(ks, #[trigger] idx@[i] as int, #[trigger] idx@[j] as int) by {
                if j < p {
                    assert(idx@[i] == old_idx[i] && idx@[j] == old_idx[j]);
                } else if j == p {
                    assert(idx@[i] == old_idx[i]);
                    lemma_pos_order(ks, k as int, old_idx[i] as int, 0);
                } else if i == p {
                    assert(idx@[j] == old_idx[j - 1]);
                    assert(pos_lt(ks, k as int, old_idx[p as int] as int));
                    if j - 1 > p {
                        lemma_pos_order(ks, k as int, old_idx[p as int] as int, old_idx[j - 1] as int);
                    }
                } else if i < p {
                    assert(idx@[i] == old_idx[i] && idx@[j] == old_idx[j - 1]);
                } else {
                    assert(idx@[i] == old_idx[i - 1] && idx@[j] == old_idx[j - 1]);
                }
            }
        }
        k = k + 1;
    }
    idx
}

/// The positions of a stable order are all different.
pub proof fn lemma_stable_order_distinct(keys: Seq<Key>, idx: Seq<int>)
    requires
        stable_order(keys, idx),
    ensures
        idx.no_duplicates(),
{
    assert forall|i: int, j: int| 0 <= i < idx.len() && 0 <= j < idx.len() && i != j implies idx[i]
        != idx[j] by {
        lemma_pos_order(keys, idx[i], idx[j], idx[j]);
        if i < j {
            assert(pos_lt(keys, idx[i], idx[j]));
        } else {
            assert(pos_lt(keys, idx[j], idx[i]));
        }
    }
}

/// Picking the elements of `v` at positions that list each position of `v`
/// once gives back the same elements, each as often.
pub proof fn lemma_reindex_multiset<A>(v: Seq<A>, idx: Seq<int>)
    requires
        idx.len() == v.len(),
        forall|i: int| 0 <= i < idx.len() ==> 0 <= #[trigger] idx[i] < v.len(),
        idx.no_duplicates(),
    ensures
        Seq::new(v.len(), |i: int| v[idx[i]]).to_multiset() == v.to_multiset(),
    decreases v.len(),
{
    broadcast use {vstd::seq_lib::group_to_multiset_ensures, vstd::multiset::group_multiset_axioms};

    let n = v.len() as int;
    let s = Seq::new(v.len(), |i: int| v[idx[i]]);
    if n == 0 {
        assert(s =~= v);
        return;
    }
    // some position holds the last index
    idx.unique_seq_to_set();
    vstd::seq_lib::seq_to_set_is_finite(idx);
    vstd::set_lib::lemma_int_range(0, n);
    assert(idx.to_set().subset_of(vstd::set_lib::set_int_range(0, n)));
    vstd::set_lib::lemma_subset_equality(idx.to_set(), vstd::set_lib::set_int_range(0, n));
    assert(vstd::set_lib::set_int_range(0, n).contains(n - 1));
    assert(idx.to_set().contains(n - 1));
    let i = choose|i: int| 0 <= i < idx.len() && idx[i] == n - 1;
    let idx2 = idx.remove(i);
    let v2 = v.drop_last();
    assert forall|k: int| 0 <= k < idx2.len() implies 0 <= #[trigger] idx2[k] < v2.len() by {
        if k < i {
            assert(idx2[k] == idx[k]);
        } else {
            assert(idx2[k] == idx[k + 1]);
        }
    }
    assert(idx2.no_duplicates()) by {
        assert forall|a: int, b: int| 0 <= a < idx2.len() && 0 <= b < idx2.len() && a != b implies idx2[a]
            != idx2[b] by {
            let a1 = if a < i { a } else { a + 1 };
            let b1 = if b < i { b } else { b + 1 };
            assert(idx2[a] == idx[a1] && idx2[b] == idx[b1]);
        }
    }
    lemma_reindex_multiset(v2, idx2);
    let s2 = Seq::new(v2.len(), |k: int| v2[idx2[k]]);
    assert(s.remove(i) =~= s2) by {
        assert forall|k: int| 0 <= k < s2.len() implies s.remove(i)[k] == s2[k] by {
            if k < i {
                assert(idx2[k] == idx[k]);
            } else {
                assert(idx2[k] == idx[k + 1]);
            }
        }
    }
    vstd::seq_lib::to_multiset_remove(s, i);
    assert(v =~= v2.push(v[n - 1]));
    vstd::seq_lib::to_multiset_build(v2, v[n - 1]);
    assert(s[i] == v[n - 1]);
    assert(s.to_multiset().count(v[n - 1]) > 0);
    assert(s.to_multiset() =~= s.to_multiset().remove(v[n - 1]).insert(v[n - 1]));
}

} // verus!
