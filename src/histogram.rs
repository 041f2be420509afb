use vstd::prelude::*;
use crate::stats::TreeStats;
use std::collections::BTreeMap;

verus! {

/// Number of occurrences of `v` in `data`.
pub open spec fn count_in(data: Seq<usize>, v: usize) -> nat
    decreases data.len(),
{
    if data.len() == 0 {
        0
    } else {
        count_in(data.drop_last(), v) + if data.last() == v {
            1nat
        } else {
            0
        }
    }
}

/// `h` lists, by strictly increasing value, each value of `data` with the
/// number of times it occurs there.
pub open spec fn is_histogram(h: Seq<(usize, usize)>, data: Seq<usize>) -> bool {
    &&& forall|i: int, j: int| 0 <= i < j < h.len() ==> h[i].0 < h[j].0
    &&& forall|i: int|
        0 <= i < h.len() ==> #[trigger] h[i].1 == count_in(data, h[i].0) && h[i].1 > 0
    &&& forall|v: usize| count_in(data, v) > 0 ==> exists|i: int| 0 <= i < h.len() && h[i].0 == v
}

/// The largest count at index `i` or after it; 0 past the end.
pub open spec fn suffix_max(h: Seq<(usize, usize)>, i: int) -> nat
    decreases h.len() - i,
{
    if i < 0 || i >= h.len() {
        0
    } else {
        vstd::math::max(h[i].1 as int, suffix_max(h, i + 1) as int) as nat
    }
}

/// For each entry from index `i` on, its count less the largest count of a
/// larger value, where that difference is positive.
pub open spec fn exclusive_of(h: Seq<(usize, usize)>, i: int) -> Seq<(usize, usize)>
    decreases h.len() - i,
{
    if i < 0 || i >= h.len() {
        seq![]
    } else {
        let e = h[i].1 - suffix_max(h, i + 1);
        if e > 0 {
            seq![(h[i].0, e as usize)] + exclusive_of(h, i + 1)
        } else {
            exclusive_of(h, i + 1)
        }
    }
}

proof fn lemma_count_bound(data: Seq<usize>, v: usize)
    ensures
        count_in(data, v) <= data.len(),
    decreases data.len(),
{
    if data.len() > 0 {
        lemma_count_bound(data.drop_last(), v);
    }
}

/// Counts how often each value occurs in `data`, by increasing value.
pub fn value_counts(data: &Vec<usize>) -> (r: Vec<(usize, usize)>)
    ensures
        is_histogram(r@, data@),
{
    let mut h: Vec<(usize, usize)> = Vec::new();
    let mut i: usize = 0;
    while i < data.len()
        invariant
            i <= data@.len(),
            is_histogram(h@, data@.subrange(0, i as int)),
        decreases data@.len() - i,
    {
        let v = data[i];
        let ghost prev = data@.subrange(0, i as int);
        let ghost next = data@.subrange(0, i as int + 1);
        assert(next.drop_last() =~= prev);
        assert(next.last() == v);
        let ghost old_h = h@;
        let mut j: usize = 0;
        while j < h.len() && h[j].0 < v
            invariant
                h@ == old_h,
                j <= h@.len(),
                forall|k: int| 0 <= k < j ==> h@[k].0 < v,
            decreases h@.len() - j,
        {
            j = j + 1;
        }
        proof {
            lemma_count_bound(prev, v);
        }
        if j < h.len() && h[j].0 == v {
            let c = h[j].1;
            h.set(j, (v, c + 1));
            assert forall|w: usize| count_in(next, w) > 0 implies exists|k: int|
                0 <= k < h@.len() && h@[k].0 == w by {
                if w != v {
                    assert(count_in(next, w) == count_in(prev, w));
                    let k = choose|k: int| 0 <= k < old_h.len() && old_h[k].0 == w;
                    assert(h@[k].0 == w);
                } else {
                    assert(h@[j as int].0 == w);
                }
            }
        } else {
            h.insert(j, (v, 1));
            assert forall|a: int, b: int| 0 <= a < b < h@.len() implies h@[a].0 < h@[b].0 by {
                if b < j {
                } else if a > j {
                    assert(old_h[a - 1].0 < old_h[b - 1].0);
                } else if a == j {
                    assert(j < old_h.len() ==> old_h[j as int].0 > v);
                    assert(old_h[j as int].0 <= old_h[b - 1].0 || b - 1 == j);
                } else {
                    assert(a < j);
                    if b == j {
                    } else {
                        assert(old_h[a].0 < old_h[b - 1].0);
                    }
                }
            }
            assert forall|k: int| 0 <= k < h@.len() implies #[trigger] h@[k].1 == count_in(
                next,
                h@[k].0,
            ) && h@[k].1 > 0 by {
                if k < j {
                    assert(old_h[k].1 == count_in(prev, old_h[k].0));
                } else if k > j {
                    assert(old_h[k - 1].1 == count_in(prev, old_h[k - 1].0));
                    assert(old_h[k - 1].0 != v);
                } else {
                    if count_in(prev, v) > 0 {
                        let m = choose|m: int| 0 <= m < old_h.len() && old_h[m].0 == v;
                        if m < j {
                        } else {
                            assert(m == j || old_h[j as int].0 < old_h[m].0);
                        }
                    }
                }
            }
            assert forall|w: usize| count_in(next, w) > 0 implies exists|k: int|
                0 <= k < h@.len() && h@[k].0 == w by {
                if w != v {
                    assert(count_in(next, w) == count_in(prev, w));
                    let k = choose|k: int| 0 <= k < old_h.len() && old_h[k].0 == w;
                    if k < j {
                        assert(h@[k].0 == w);
                    } else {
                        assert(h@[k + 1].0 == w);
                    }
                } else {
                    assert(h@[j as int].0 == w);
                }
            }
        }
        i = i + 1;
    }
    assert(data@.subrange(0, i as int) =~= data@);
    h
}

/// Counts how often each value occurs in `data`, then keeps for each value
/// only the part of its count that exceeds the count of every larger value.
pub fn exclusive_counts(data: &Vec<usize>) -> (r: Vec<(usize, usize)>)
    ensures
        exists|h: Seq<(usize, usize)>| is_histogram(h, data@) && r@ == exclusive_of(h, 0),
{
    let h = value_counts(data);
    let mut out: Vec<(usize, usize)> = Vec::new();
    let mut acc: usize = 0;
    let mut i: usize = h.len();
    while i > 0
        invariant
            i <= h@.len(),
            acc == suffix_max(h@, i as int),
            out@ == exclusive_of(h@, i as int),
        decreases i,
    {
        i = i - 1;
        let (value, count) = h[i];
        let exclusive_count = if count > acc {
            count - acc
        } else {
            0
        };
        if exclusive_count != 0 {
            out.insert(0, (value, exclusive_count));
        }
        acc = acc + exclusive_count;
    }
    out
}

/// The map with the entries of `h`, later entries replacing earlier ones.
pub open spec fn map_of(h: Seq<(usize, usize)>) -> Map<usize, usize>
    decreases h.len(),
{
    if h.len() == 0 {
        Map::empty()
    } else {
        map_of(h.drop_last()).insert(h.last().0, h.last().1)
    }
}

fn to_map(h: &Vec<(usize, usize)>) -> (r: BTreeMap<usize, usize>)
    ensures
        r@ == map_of(h@),
{
    broadcast use vstd::laws_cmp::group_laws_cmp;

    let mut m: BTreeMap<usize, usize> = BTreeMap::new();
    let mut i: usize = 0;
    while i < h.len()
        invariant
            i <= h@.len(),
            m@ == map_of(h@.subrange(0, i as int)),
        decreases h@.len() - i,
    {
        assert(h@.subrange(0, i as int + 1).drop_last() =~= h@.subrange(0, i as int));
        let (value, count) = h[i];
        m.insert(value, count);
        i = i + 1;
    }
    assert(h@.subrange(0, i as int) =~= h@);
    m
}

impl TreeStats {
    /// Counts how often each value occurs in `data`: the map from each
    /// value of `data` to its number of occurrences.
    pub fn histogram(data: &Vec<usize>) -> (r: BTreeMap<usize, usize>)
        ensures
            exists|h: Seq<(usize, usize)>| is_histogram(h, data@) && r@ == map_of(h),
    {
        to_map(&value_counts(data))
    }

    /// Counts how often each value occurs in `data`, then keeps for each
    /// value only the part of its count that exceeds the count of every
    /// larger value, where that part is not zero.
    pub fn exclusive_histogram(data: &Vec<usize>) -> (r: BTreeMap<usize, usize>)
        ensures
            exists|h: Seq<(usize, usize)>|
                is_histogram(h, data@) && r@ == map_of(exclusive_of(h, 0)),
    {
        to_map(&exclusive_counts(data))
    }

    /// Histogram of the leaf depths.
    pub fn leaf_depth_histogram(&self) -> (r: BTreeMap<usize, usize>)
        ensures
            exists|h: Seq<(usize, usize)>| is_histogram(h, self.leaf_depths@) && r@ == map_of(h),
    {
        Self::histogram(&self.leaf_depths)
    }

    /// Exclusive histogram of the operator counts of the `x`-only subtrees.
    pub fn x_only_subtree_op_counts_histogram(&self) -> (r: BTreeMap<usize, usize>)
        ensures
            exists|h: Seq<(usize, usize)>|
                is_histogram(h, self.x_only_subtree_op_counts@) && r@ == map_of(exclusive_of(h, 0)),
    {
        Self::exclusive_histogram(&self.x_only_subtree_op_counts)
    }

    /// Exclusive histogram of the operator counts of the `y`-only subtrees.
    pub fn y_only_subtree_op_counts_histogram(&self) -> (r: BTreeMap<usize, usize>)
        ensures
            exists|h: Seq<(usize, usize)>|
                is_histogram(h, self.y_only_subtree_op_counts@) && r@ == map_of(exclusive_of(h, 0)),
    {
        Self::exclusive_histogram(&self.y_only_subtree_op_counts)
    }
}

} // verus!
