//! Deterministic ordering of report entries.
//!
//! Both output modes must be byte-for-byte reproducible, so every collection
//! is emitted in a fixed order: by a numeric rank, then by the lexicographic
//! order of a rendered key, then by the position the item originally held.
//! The order and the sort are defined and proved here.

use vstd::prelude::*;

verus! {

/// Strict lexicographic order on character sequences, by code point.
pub open spec fn str_lt(a: Seq<char>, b: Seq<char>) -> bool
    decreases a.len(),
{
    if b.len() == 0 {
        false
    } else if a.len() == 0 {
        true
    } else if a[0] != b[0] {
        (a[0] as u32) < (b[0] as u32)
    } else {
        str_lt(a.skip(1), b.skip(1))
    }
}

/// Compares two strings in the order of `str_lt`.
pub fn str_less(a: &str, b: &str) -> (r: bool)
    ensures
        r == str_lt(a@, b@),
{
    let alen = a.unicode_len();
    let blen = b.unicode_len();
    let mut i: usize = 0;
    proof {
        assert(a@.skip(0) =~= a@);
        assert(b@.skip(0) =~= b@);
    }
    loop
        invariant
            i <= alen,
            i <= blen,
            alen == a@.len(),
            blen == b@.len(),
            str_lt(a@, b@) == str_lt(a@.skip(i as int), b@.skip(i as int)),
        decreases alen - i,
    {
        if i == blen {
            return false;
        }
        if i == alen {
            return true;
        }
        let ca = a.get_char(i);
        let cb = b.get_char(i);
        if ca != cb {
            proof {
                assert(a@.skip(i as int)[0] == a@[i as int]);
                assert(b@.skip(i as int)[0] == b@[i as int]);
            }
            return (ca as u32) < (cb as u32);
        }
        proof {
            assert(a@.skip(i as int)[0] == a@[i as int]);
            assert(b@.skip(i as int)[0] == b@[i as int]);
            assert(a@.skip(i as int).skip(1) =~= a@.skip(i as int + 1));
            assert(b@.skip(i as int).skip(1) =~= b@.skip(i as int + 1));
        }
        i += 1;
    }
}

/// A sortable item: a numeric rank, a rendered key, and the position the
/// item held before sorting.
pub type RankedKey = (u64, Seq<char>, usize);

/// The spec-level view of one executable `(rank, key, position)` item.
pub open spec fn ranked_view(t: (u64, String, usize)) -> RankedKey {
    (t.0, t.1@, t.2)
}

/// The spec-level view of a whole vector of sortable items.
pub open spec fn ranked_views(s: Seq<(u64, String, usize)>) -> Seq<RankedKey> {
    Seq::new(s.len(), |i: int| ranked_view(s[i]))
}

/// The strict report order: rank, then key, then original position.
pub open spec fn ranked_lt(x: RankedKey, y: RankedKey) -> bool {
    ||| x.0 < y.0
    ||| (x.0 == y.0 && str_lt(x.1, y.1))
    ||| (x.0 == y.0 && x.1 == y.1 && x.2 < y.2)
}

/// Inserts an item into an already sorted sequence, before the first element
/// it precedes.
pub open spec fn spec_insert_ranked(x: RankedKey, s: Seq<RankedKey>) -> Seq<RankedKey>
    decreases s.len(),
{
    if s.len() == 0 {
        seq![x]
    } else if ranked_lt(x, s[0]) {
        seq![x] + s
    } else {
        seq![s[0]] + spec_insert_ranked(x, s.skip(1))
    }
}

/// Insertion sort under the report order.
pub open spec fn spec_sort_ranked(s: Seq<RankedKey>) -> Seq<RankedKey>
    decreases s.len(),
{
    if s.len() == 0 {
        Seq::empty()
    } else {
        spec_insert_ranked(s.last(), spec_sort_ranked(s.drop_last()))
    }
}

pub proof fn lemma_insert_ranked_len(x: RankedKey, s: Seq<RankedKey>)
    ensures
        spec_insert_ranked(x, s).len() == s.len() + 1,
    decreases s.len(),
{
    if s.len() > 0 && !ranked_lt(x, s[0]) {
        lemma_insert_ranked_len(x, s.skip(1));
    }
}

pub proof fn lemma_sort_ranked_len(s: Seq<RankedKey>)
    ensures
        spec_sort_ranked(s).len() == s.len(),
    decreases s.len(),
{
    if s.len() > 0 {
        lemma_sort_ranked_len(s.drop_last());
        lemma_insert_ranked_len(s.last(), spec_sort_ranked(s.drop_last()));
    }
}

pub proof fn lemma_insert_ranked_membership(x: RankedKey, s: Seq<RankedKey>, y: RankedKey)
    ensures
        spec_insert_ranked(x, s).contains(y) <==> (y == x || s.contains(y)),
    decreases s.len(),
{
    let out = spec_insert_ranked(x, s);
    if s.len() == 0 {
        assert(out[0] == x);
        if out.contains(y) {
            let i = choose|i: int| 0 <= i < out.len() && out[i] == y;
            assert(i == 0);
        }
    } else if ranked_lt(x, s[0]) {
        assert(out[0] == x);
        assert(forall|i: int| 0 <= i < s.len() ==> out[i + 1] == s[i]);
        if out.contains(y) {
            let i = choose|i: int| 0 <= i < out.len() && out[i] == y;
            if i > 0 {
                assert(s[i - 1] == y);
            }
        }
        if s.contains(y) {
            let i = choose|i: int| 0 <= i < s.len() && s[i] == y;
            assert(out[i + 1] == y);
        }
    } else {
        lemma_insert_ranked_membership(x, s.skip(1), y);
        let rest = spec_insert_ranked(x, s.skip(1));
        assert(out[0] == s[0]);
        assert(forall|i: int| 0 <= i < rest.len() ==> out[i + 1] == rest[i]);
        if out.contains(y) {
            let i = choose|i: int| 0 <= i < out.len() && out[i] == y;
            if i > 0 {
                assert(rest[i - 1] == y);
            }
            if y != x && y != s[0] {
                let j = choose|j: int| 0 <= j < s.skip(1).len() && s.skip(1)[j] == y;
                assert(s[j + 1] == y);
            }
        }
        if y == x {
            let i = choose|i: int| 0 <= i < rest.len() && rest[i] == y;
            assert(out[i + 1] == y);
        }
        if s.contains(y) {
            let i = choose|i: int| 0 <= i < s.len() && s[i] == y;
            if i > 0 {
                assert(s.skip(1)[i - 1] == y);
                let j = choose|j: int| 0 <= j < rest.len() && rest[j] == y;
                assert(out[j + 1] == y);
            }
        }
    }
}

pub proof fn lemma_sort_ranked_membership(s: Seq<RankedKey>, y: RankedKey)
    ensures
        spec_sort_ranked(s).contains(y) <==> s.contains(y),
    decreases s.len(),
{
    if s.len() > 0 {
        lemma_sort_ranked_membership(s.drop_last(), y);
        lemma_insert_ranked_membership(s.last(), spec_sort_ranked(s.drop_last()), y);
        if s.drop_last().contains(y) {
            let i = choose|i: int| 0 <= i < s.drop_last().len() && s.drop_last()[i] == y;
            assert(s[i] == y);
        }
        if s.contains(y) && y != s.last() {
            let i = choose|i: int| 0 <= i < s.len() && s[i] == y;
            assert(i < s.len() - 1);
            assert(s.drop_last()[i] == y);
        }
        if y == s.last() {
            assert(spec_sort_ranked(s).contains(y));
            assert(s.contains(y)) by {
                assert(s[s.len() - 1] == y);
            }
        }
    }
}

/// Every original position carried through the sort stays within its bound.
pub proof fn lemma_sort_ranked_positions(s: Seq<RankedKey>, n: usize)
    requires
        forall|i: int| 0 <= i < s.len() ==> (#[trigger] s[i]).2 < n,
    ensures
        forall|i: int|
            0 <= i < spec_sort_ranked(s).len() ==> (#[trigger] spec_sort_ranked(s)[i]).2 < n,
{
    let out = spec_sort_ranked(s);
    assert forall|i: int| 0 <= i < out.len() implies (#[trigger] out[i]).2 < n by {
        assert(out.contains(out[i]));
        lemma_sort_ranked_membership(s, out[i]);
        let j = choose|j: int| 0 <= j < s.len() && s[j] == out[i];
    }
}

proof fn lemma_insert_ranked_at(x: RankedKey, s: Seq<RankedKey>, i: int)
    requires
        0 <= i <= s.len(),
        forall|j: int| 0 <= j < i ==> !ranked_lt(x, #[trigger] s[j]),
        i < s.len() ==> ranked_lt(x, s[i]),
    ensures
        spec_insert_ranked(x, s) == s.subrange(0, i) + seq![x] + s.subrange(i, s.len() as int),
    decreases s.len(),
{
    if s.len() == 0 {
        assert(spec_insert_ranked(x, s) =~= s.subrange(0, i) + seq![x] + s.subrange(
            i,
            s.len() as int,
        ));
    } else if ranked_lt(x, s[0]) {
        assert(i == 0);
        assert(seq![x] + s =~= s.subrange(0, i) + seq![x] + s.subrange(i, s.len() as int));
    } else {
        assert(i >= 1);
        assert(forall|j: int|
            0 <= j < i - 1 ==> !ranked_lt(x, #[trigger] s.skip(1)[j]) && s.skip(1)[j] == s[j + 1]);
        lemma_insert_ranked_at(x, s.skip(1), i - 1);
        assert(seq![s[0]] + (s.skip(1).subrange(0, i - 1) + seq![x] + s.skip(1).subrange(
            i - 1,
            s.skip(1).len() as int,
        )) =~= s.subrange(0, i) + seq![x] + s.subrange(i, s.len() as int));
    }
}

/// Compares two sortable items in the report order.
pub fn ranked_less(x: &(u64, String, usize), y: &(u64, String, usize)) -> (r: bool)
    ensures
        r == ranked_lt(ranked_view(*x), ranked_view(*y)),
{
    if x.0 != y.0 {
        return x.0 < y.0;
    }
    if str_less(x.1.as_str(), y.1.as_str()) {
        return true;
    }
    if x.1 == y.1 {
        return x.2 < y.2;
    }
    false
}

/// Sorts the items into the report order: rank, then key, then original
/// position. The order is strict and total over distinct positions, so the
/// result is the unique deterministic arrangement of its input.
pub fn sort_ranked(v: Vec<(u64, String, usize)>) -> (r: Vec<(u64, String, usize)>)
    ensures
        ranked_views(r@) == spec_sort_ranked(ranked_views(v@)),
{
    let mut out: Vec<(u64, String, usize)> = Vec::new();
    let mut k: usize = 0;
    proof {
        assert(ranked_views(v@).take(0) =~= Seq::<RankedKey>::empty());
        assert(ranked_views(out@) =~= Seq::<RankedKey>::empty());
    }
    while k < v.len()
        invariant
            k <= v.len(),
            ranked_views(out@) == spec_sort_ranked(ranked_views(v@).take(k as int)),
        decreases v.len() - k,
    {
        let x = (v[k].0, v[k].1.clone(), v[k].2);
        let ghost xv = ranked_view(x);
        let ghost sorted_pre = ranked_views(out@);
        let mut i: usize = 0;
        while i < out.len() && !ranked_less(&x, &out[i])
            invariant
                i <= out.len(),
                sorted_pre == ranked_views(out@),
                xv == ranked_view(x),
                forall|j: int| 0 <= j < i ==> !ranked_lt(xv, #[trigger] sorted_pre[j]),
            decreases out.len() - i,
        {
            i += 1;
        }
        proof {
            lemma_insert_ranked_at(xv, sorted_pre, i as int);
        }
        out.insert(i, x);
        proof {
            assert(ranked_views(out@) =~= sorted_pre.subrange(0, i as int) + seq![xv]
                + sorted_pre.subrange(i as int, sorted_pre.len() as int));
            let pre = ranked_views(v@).take(k as int);
            let post = ranked_views(v@).take(k as int + 1);
            assert(post.drop_last() =~= pre);
            assert(post.last() == xv);
        }
        k += 1;
    }
    proof {
        assert(ranked_views(v@).take(v@.len() as int) =~= ranked_views(v@));
    }
    out
}

} // verus!
