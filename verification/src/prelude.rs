//! The multiset utility layer: counts, positions and duplicate-index
//! helpers over sequences of canonical texts, used by the duplicate/arity
//! classifier.
//!
//! Keys always appear in order of first occurrence, and indices in
//! ascending order, so every operation here is deterministic.

use vstd::prelude::*;

verus! {

/// The number of occurrences of `v` among the first `n` items.
pub open spec fn count_in_prefix(items: Seq<Seq<char>>, v: Seq<char>, n: int) -> nat
    decreases n,
{
    if n <= 0 {
        0
    } else {
        count_in_prefix(items, v, n - 1) + (if items[n - 1] == v {
            1nat
        } else {
            0nat
        })
    }
}

/// The number of occurrences of `v` in `items`.
pub open spec fn count_in(items: Seq<Seq<char>>, v: Seq<char>) -> nat {
    count_in_prefix(items, v, items.len() as int)
}

/// The ascending indices at which `v` occurs among the first `n` items.
pub open spec fn indices_prefix(items: Seq<Seq<char>>, v: Seq<char>, n: int) -> Seq<int>
    decreases n,
{
    if n <= 0 {
        Seq::empty()
    } else {
        indices_prefix(items, v, n - 1) + (if items[n - 1] == v {
            seq![n - 1]
        } else {
            Seq::<int>::empty()
        })
    }
}

/// The ascending indices at which `v` occurs in `items`.
pub open spec fn indices_in(items: Seq<Seq<char>>, v: Seq<char>) -> Seq<int> {
    indices_prefix(items, v, items.len() as int)
}

/// The distinct items among the first `n`, in order of first occurrence.
pub open spec fn keys_prefix(items: Seq<Seq<char>>, n: int) -> Seq<Seq<char>>
    decreases n,
{
    if n <= 0 {
        Seq::empty()
    } else {
        keys_prefix(items, n - 1) + (if count_in_prefix(items, items[n - 1], n - 1) > 0 {
            Seq::<Seq<char>>::empty()
        } else {
            seq![items[n - 1]]
        })
    }
}

/// The distinct items of `items`, in order of first occurrence.
pub open spec fn key_seq(items: Seq<Seq<char>>) -> Seq<Seq<char>> {
    keys_prefix(items, items.len() as int)
}

/// The members of `keys` whose occurrence count in `items` is over one
/// (`rep` true) or exactly one (`rep` false), keeping their order.
pub open spec fn keys_where(items: Seq<Seq<char>>, keys: Seq<Seq<char>>, rep: bool) -> Seq<
    Seq<char>,
>
    decreases keys.len(),
{
    if keys.len() == 0 {
        Seq::empty()
    } else {
        let rest = keys_where(items, keys.drop_last(), rep);
        if (count_in(items, keys.last()) > 1) == rep {
            rest.push(keys.last())
        } else {
            rest
        }
    }
}

/// The ascending indices, among the first `n`, of items whose occurrence
/// count in all of `items` is over one (`rep` true) or exactly one (`rep`
/// false).
pub open spec fn class_indices_prefix(items: Seq<Seq<char>>, n: int, rep: bool) -> Seq<int>
    decreases n,
{
    if n <= 0 {
        Seq::empty()
    } else {
        class_indices_prefix(items, n - 1, rep) + (if (count_in(items, items[n - 1]) > 1) == rep {
            seq![n - 1]
        } else {
            Seq::<int>::empty()
        })
    }
}

/// The index of the first occurrence of `v` at or after `i`, or `-1`.
pub open spec fn first_ix_from(items: Seq<Seq<char>>, v: Seq<char>, i: int) -> int
    decreases items.len() - i,
{
    if i < 0 || i >= items.len() {
        -1
    } else if items[i] == v {
        i
    } else {
        first_ix_from(items, v, i + 1)
    }
}

/// The index of the first occurrence of `v` in `items`, or `-1`.
pub open spec fn first_ix(items: Seq<Seq<char>>, v: Seq<char>) -> int {
    first_ix_from(items, v, 0)
}

/// A count over a prefix is zero exactly when no item of the prefix is `v`.
pub proof fn lemma_count_zero(items: Seq<Seq<char>>, v: Seq<char>, n: int)
    requires
        n <= items.len(),
    ensures
        (count_in_prefix(items, v, n) == 0) <==> (forall|k: int| 0 <= k < n ==> items[k] != v),
    decreases n,
{
    if n > 0 {
        lemma_count_zero(items, v, n - 1);
    }
}

/// Two distinct occurrences push a prefix count to at least two.
pub proof fn lemma_count_two(items: Seq<Seq<char>>, v: Seq<char>, n: int, i: int, j: int)
    requires
        0 <= i < j < n <= items.len(),
        items[i] == v,
        items[j] == v,
    ensures
        count_in_prefix(items, v, n) >= 2,
    decreases n,
{
    if j == n - 1 {
        lemma_count_zero(items, v, n - 1);
        assert(count_in_prefix(items, v, n - 1) > 0);
    } else {
        lemma_count_two(items, v, n - 1, i, j);
    }
}

/// With a count of one, the occurrence index is unique.
pub proof fn lemma_count_one_unique(items: Seq<Seq<char>>, v: Seq<char>, i: int, j: int)
    requires
        count_in(items, v) == 1,
        0 <= i < items.len(),
        0 <= j < items.len(),
        items[i] == v,
        items[j] == v,
    ensures
        i == j,
{
    if i < j {
        lemma_count_two(items, v, items.len() as int, i, j);
    } else if j < i {
        lemma_count_two(items, v, items.len() as int, j, i);
    }
}

/// Every item that occurs in a prefix is one of the prefix's keys.
pub proof fn lemma_keys_covers(items: Seq<Seq<char>>, v: Seq<char>, n: int)
    requires
        n <= items.len(),
        count_in_prefix(items, v, n) > 0,
    ensures
        keys_prefix(items, n).contains(v),
    decreases n,
{
    if n > 0 {
        if items[n - 1] == v {
            if count_in_prefix(items, v, n - 1) > 0 {
                lemma_keys_covers(items, v, n - 1);
                let w = choose|w: int|
                    0 <= w < keys_prefix(items, n - 1).len() && #[trigger] keys_prefix(
                        items,
                        n - 1,
                    )[w] == v;
                assert(keys_prefix(items, n)[w] == v);
            } else {
                assert(keys_prefix(items, n).last() == v);
            }
        } else {
            lemma_keys_covers(items, v, n - 1);
            let w = choose|w: int|
                0 <= w < keys_prefix(items, n - 1).len() && #[trigger] keys_prefix(items, n - 1)[w]
                    == v;
            assert(keys_prefix(items, n)[w] == v);
        }
    }
}

/// What [`first_ix`] returns: `-1` exactly when `v` does not occur, else
/// the least index holding `v`.
pub proof fn lemma_first_ix(items: Seq<Seq<char>>, v: Seq<char>)
    ensures
        (first_ix(items, v) == -1) <==> (count_in(items, v) == 0),
        first_ix(items, v) != -1 ==> 0 <= first_ix(items, v) < items.len() && items[first_ix(
            items,
            v,
        )] == v && (forall|k: int| 0 <= k < first_ix(items, v) ==> items[k] != v),
{
    lemma_first_ix_from(items, v, 0);
    lemma_count_zero(items, v, items.len() as int);
}

proof fn lemma_first_ix_from(items: Seq<Seq<char>>, v: Seq<char>, i: int)
    requires
        0 <= i <= items.len(),
    ensures
        (first_ix_from(items, v, i) == -1) <==> (forall|k: int| i <= k < items.len() ==> items[k]
            != v),
        first_ix_from(items, v, i) != -1 ==> i <= first_ix_from(items, v, i) < items.len()
            && items[first_ix_from(items, v, i)] == v && (forall|k: int|
            i <= k < first_ix_from(items, v, i) ==> items[k] != v),
    decreases items.len() - i,
{
    if i < items.len() && items[i] != v {
        lemma_first_ix_from(items, v, i + 1);
    }
}

/// The count of one occurrence makes [`first_ix`] point at that occurrence.
pub proof fn lemma_first_ix_unique(items: Seq<Seq<char>>, v: Seq<char>, i: int)
    requires
        count_in(items, v) == 1,
        0 <= i < items.len(),
        items[i] == v,
    ensures
        first_ix(items, v) == i,
{
    lemma_first_ix(items, v);
    lemma_count_zero(items, v, items.len() as int);
    assert(count_in(items, v) > 0);
    lemma_count_one_unique(items, v, first_ix(items, v), i);
}

/// Whether `us`, read as mathematical integers, equals `is_`.
pub open spec fn usizes_are_ints(us: Seq<usize>, is_: Seq<int>) -> bool {
    us.len() == is_.len() && (forall|k: int| 0 <= k < us.len() ==> us[k] as int == #[trigger] is_[
        k
    ])
}

/// Counts the occurrences of `v` among the first `n` items of `items`.
pub fn count_occurrences(items: &Vec<String>, v: &String, n: usize) -> (r: usize)
    requires
        n <= items@.len(),
    ensures
        r == count_in_prefix(items.deep_view(), v@, n as int),
{
    let ghost dv = items.deep_view();
    let mut r: usize = 0;
    let mut i: usize = 0;
    while i < n
        invariant
            i <= n <= items@.len(),
            dv == items.deep_view(),
            r <= i,
            r == count_in_prefix(dv, v@, i as int),
        decreases n - i,
    {
        proof {
            assert(dv[i as int] == items@[i as int]@);
        }
        if items[i].eq(v) {
            r = r + 1;
        }
        i = i + 1;
    }
    r
}

/// What [`Counts::counts`] returns: the distinct items in order of first
/// occurrence, each with its occurrence count.
pub open spec fn counts_post(items: Seq<Seq<char>>, r: Seq<(String, usize)>) -> bool {
    &&& r.len() == key_seq(items).len()
    &&& forall|j: int|
        0 <= j < r.len() ==> (#[trigger] r[j]).0@ == key_seq(items)[j] && r[j].1 == count_in(
            items,
            key_seq(items)[j],
        )
}

/// Counts the occurrences of each distinct item.
pub trait Counts: DeepView<V = Seq<Seq<char>>> {
    /// Each distinct item in order of first occurrence, with its count.
    fn counts(&self) -> (r: Vec<(String, usize)>)
        ensures
            counts_post(self.deep_view(), r@),
    ;
}

impl Counts for Vec<String> {
    fn counts(&self) -> (r: Vec<(String, usize)>)
        ensures
            counts_post(self.deep_view(), r@),
    {
        let ghost dv = self.deep_view();
        let n = self.len();
        let mut out: Vec<(String, usize)> = Vec::new();
        let mut i: usize = 0;
        while i < n
            invariant
                i <= n == self@.len(),
                dv == self.deep_view(),
                out@.len() == keys_prefix(dv, i as int).len(),
                forall|j: int|
                    0 <= j < out@.len() ==> (#[trigger] out@[j]).0@ == keys_prefix(dv, i as int)[j]
                        && out@[j].1 == count_in(dv, keys_prefix(dv, i as int)[j]),
            decreases n - i,
        {
            proof {
                assert(dv[i as int] == self@[i as int]@);
            }
            let before = count_occurrences(self, &self[i], i);
            if before == 0 {
                let total = count_occurrences(self, &self[i], n);
                out.push((self[i].clone(), total));
            }
            i = i + 1;
        }
        out
    }
}

/// What [`Positions::positions`] returns: the distinct items in order of
/// first occurrence, each with the ascending indices at which it occurs.
pub open spec fn positions_post(items: Seq<Seq<char>>, r: Seq<(String, Vec<usize>)>) -> bool {
    &&& r.len() == key_seq(items).len()
    &&& forall|j: int|
        0 <= j < r.len() ==> (#[trigger] r[j]).0@ == key_seq(items)[j] && usizes_are_ints(
            r[j].1@,
            indices_in(items, key_seq(items)[j]),
        )
}

/// Maps each distinct item to the positions at which it occurs.
pub trait Positions: DeepView<V = Seq<Seq<char>>> {
    /// Each distinct item in order of first occurrence, with the ascending
    /// indices at which it occurs.
    fn positions(&self) -> (r: Vec<(String, Vec<usize>)>)
        ensures
            positions_post(self.deep_view(), r@),
    ;
}

impl Positions for Vec<String> {
    fn positions(&self) -> (r: Vec<(String, Vec<usize>)>)
        ensures
            positions_post(self.deep_view(), r@),
    {
        let ghost dv = self.deep_view();
        let n = self.len();
        let mut out: Vec<(String, Vec<usize>)> = Vec::new();
        let mut i: usize = 0;
        while i < n
            invariant
                i <= n == self@.len(),
                dv == self.deep_view(),
                out@.len() == keys_prefix(dv, i as int).len(),
                forall|j: int|
                    0 <= j < out@.len() ==> (#[trigger] out@[j]).0@ == keys_prefix(dv, i as int)[j]
                        && usizes_are_ints(
                        out@[j].1@,
                        indices_in(dv, keys_prefix(dv, i as int)[j]),
                    ),
            decreases n - i,
        {
            proof {
                assert(dv[i as int] == self@[i as int]@);
            }
            let before = count_occurrences(self, &self[i], i);
            if before == 0 {
                let mut idxs: Vec<usize> = Vec::new();
                let mut k: usize = 0;
                while k < n
                    invariant
                        k <= n == self@.len(),
                        i < n,
                        dv == self.deep_view(),
                        usizes_are_ints(idxs@, indices_prefix(dv, dv[i as int], k as int)),
                    decreases n - k,
                {
                    proof {
                        assert(dv[k as int] == self@[k as int]@);
                    }
                    if self[k].eq(&self[i]) {
                        idxs.push(k);
                    }
                    k = k + 1;
                }
                out.push((self[i].clone(), idxs));
            }
            i = i + 1;
        }
        out
    }
}

/// What [`Repeated::repeated`] returns: the distinct items that occur more
/// than once, in order of first occurrence.
pub open spec fn repeated_post(items: Seq<Seq<char>>, r: Seq<String>) -> bool {
    &&& r.len() == keys_where(items, key_seq(items), true).len()
    &&& forall|j: int|
        0 <= j < r.len() ==> (#[trigger] r[j])@ == keys_where(items, key_seq(items), true)[j]
}

/// The distinct items that occur more than once.
pub trait Repeated: DeepView<V = Seq<Seq<char>>> {
    /// The distinct items that occur more than once, in order of first
    /// occurrence.
    fn repeated(&self) -> (r: Vec<String>)
        ensures
            repeated_post(self.deep_view(), r@),
    ;
}

impl Repeated for Vec<String> {
    fn repeated(&self) -> (r: Vec<String>)
        ensures
            repeated_post(self.deep_view(), r@),
    {
        let ghost dv = self.deep_view();
        let n = self.len();
        let mut out: Vec<String> = Vec::new();
        let mut i: usize = 0;
        while i < n
            invariant
                i <= n == self@.len(),
                dv == self.deep_view(),
                out@.len() == keys_where(dv, keys_prefix(dv, i as int), true).len(),
                forall|j: int|
                    0 <= j < out@.len() ==> (#[trigger] out@[j])@ == keys_where(
                        dv,
                        keys_prefix(dv, i as int),
                        true,
                    )[j],
            decreases n - i,
        {
            proof {
                assert(dv[i as int] == self@[i as int]@);
            }
            let before = count_occurrences(self, &self[i], i);
            if before == 0 {
                let total = count_occurrences(self, &self[i], n);
                proof {
                    let kp = keys_prefix(dv, i as int);
                    assert(keys_prefix(dv, i + 1) == kp.push(dv[i as int]));
                    assert(kp.push(dv[i as int]).drop_last() =~= kp);
                }
                if total > 1 {
                    out.push(self[i].clone());
                }
            } else {
                proof {
                    assert(keys_prefix(dv, i + 1) == keys_prefix(dv, i as int) + Seq::<
                        Seq<char>,
                    >::empty());
                    assert(keys_prefix(dv, i + 1) =~= keys_prefix(dv, i as int));
                }
            }
            i = i + 1;
        }
        out
    }
}

/// What [`RepeatedIndices::repeated_idx`] returns: the ascending indices of
/// the items that occur more than once.
pub open spec fn repeated_idx_post(items: Seq<Seq<char>>, r: Seq<usize>) -> bool {
    usizes_are_ints(r, class_indices_prefix(items, items.len() as int, true))
}

/// The positions of the items that occur more than once.
pub trait RepeatedIndices: DeepView<V = Seq<Seq<char>>> {
    /// The ascending indices of the items that occur more than once.
    fn repeated_idx(&self) -> (r: Vec<usize>)
        ensures
            repeated_idx_post(self.deep_view(), r@),
    ;
}

impl RepeatedIndices for Vec<String> {
    fn repeated_idx(&self) -> (r: Vec<usize>)
        ensures
            repeated_idx_post(self.deep_view(), r@),
    {
        let ghost dv = self.deep_view();
        let n = self.len();
        let mut out: Vec<usize> = Vec::new();
        let mut i: usize = 0;
        while i < n
            invariant
                i <= n == self@.len(),
                dv == self.deep_view(),
                usizes_are_ints(out@, class_indices_prefix(dv, i as int, true)),
            decreases n - i,
        {
            proof {
                assert(dv[i as int] == self@[i as int]@);
            }
            let total = count_occurrences(self, &self[i], n);
            if total > 1 {
                out.push(i);
            }
            i = i + 1;
        }
        out
    }
}

/// What [`Unique::_unique`] returns: the items that occur exactly once, in
/// order of first occurrence.
pub open spec fn unique_post(items: Seq<Seq<char>>, r: Seq<String>) -> bool {
    &&& r.len() == keys_where(items, key_seq(items), false).len()
    &&& forall|j: int|
        0 <= j < r.len() ==> (#[trigger] r[j])@ == keys_where(items, key_seq(items), false)[j]
}

/// The items that occur exactly once.
pub trait Unique: DeepView<V = Seq<Seq<char>>> {
    /// The items that occur exactly once, in order of first occurrence.
    fn _unique(&self) -> (r: Vec<String>)
        ensures
            unique_post(self.deep_view(), r@),
    ;
}

impl Unique for Vec<String> {
    fn _unique(&self) -> (r: Vec<String>)
        ensures
            unique_post(self.deep_view(), r@),
    {
        let ghost dv = self.deep_view();
        let n = self.len();
        let mut out: Vec<String> = Vec::new();
        let mut i: usize = 0;
        while i < n
            invariant
                i <= n == self@.len(),
                dv == self.deep_view(),
                out@.len() == keys_where(dv, keys_prefix(dv, i as int), false).len(),
                forall|j: int|
                    0 <= j < out@.len() ==> (#[trigger] out@[j])@ == keys_where(
                        dv,
                        keys_prefix(dv, i as int),
                        false,
                    )[j],
            decreases n - i,
        {
            proof {
                assert(dv[i as int] == self@[i as int]@);
            }
            let before = count_occurrences(self, &self[i], i);
            if before == 0 {
                let total = count_occurrences(self, &self[i], n);
                proof {
                    let kp = keys_prefix(dv, i as int);
                    assert(keys_prefix(dv, i + 1) == kp.push(dv[i as int]));
                    assert(kp.push(dv[i as int]).drop_last() =~= kp);
                    lemma_count_zero(dv, dv[i as int], n as int);
                }
                if total == 1 {
                    out.push(self[i].clone());
                }
            } else {
                proof {
                    assert(keys_prefix(dv, i + 1) =~= keys_prefix(dv, i as int));
                }
            }
            i = i + 1;
        }
        out
    }
}

/// What [`UniqueIndices::_unique_idx`] returns: the ascending indices of
/// the items that occur exactly once.
pub open spec fn unique_idx_post(items: Seq<Seq<char>>, r: Seq<usize>) -> bool {
    usizes_are_ints(r, class_indices_prefix(items, items.len() as int, false))
}

/// The positions of the items that occur exactly once.
pub trait UniqueIndices: DeepView<V = Seq<Seq<char>>> {
    /// The ascending indices of the items that occur exactly once.
    fn _unique_idx(&self) -> (r: Vec<usize>)
        ensures
            unique_idx_post(self.deep_view(), r@),
    ;
}

impl UniqueIndices for Vec<String> {
    fn _unique_idx(&self) -> (r: Vec<usize>)
        ensures
            unique_idx_post(self.deep_view(), r@),
    {
        let ghost dv = self.deep_view();
        let n = self.len();
        let mut out: Vec<usize> = Vec::new();
        let mut i: usize = 0;
        while i < n
            invariant
                i <= n == self@.len(),
                dv == self.deep_view(),
                usizes_are_ints(out@, class_indices_prefix(dv, i as int, false)),
            decreases n - i,
        {
            proof {
                assert(dv[i as int] == self@[i as int]@);
            }
            let total = count_occurrences(self, &self[i], n);
            proof {
                lemma_count_zero(dv, dv[i as int], n as int);
            }
            if total == 1 {
                out.push(i);
            }
            i = i + 1;
        }
        out
    }
}

} // verus!
