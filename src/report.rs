use vstd::prelude::*;
use vstd::string::StringExecFns;
use crate::histogram::{exclusive_counts, exclusive_of, is_histogram, value_counts};
use crate::stats::{TreeStats, OP_KINDS};
use crate::text::{decimal, decimal_of};

verus! {

/// The name of the operator in slot `k` of the per-kind counts.
pub open spec fn op_name(k: int) -> Seq<char> {
    if k == 0 {
        "Add"@
    } else if k == 1 {
        "Mult"@
    } else if k == 2 {
        "Div"@
    } else if k == 3 {
        "Modulo"@
    } else if k == 4 {
        "Sin"@
    } else if k == 5 {
        "Cos"@
    } else if k == 6 {
        "Exp"@
    } else if k == 7 {
        "Sqrt"@
    } else if k == 8 {
        "Mix"@
    } else {
        "MixUnbounded"@
    }
}

/// The items, separated by `, `.
pub open spec fn joined(items: Seq<Seq<char>>) -> Seq<char>
    decreases items.len(),
{
    if items.len() == 0 {
        seq![]
    } else if items.len() == 1 {
        items[0]
    } else {
        joined(items.drop_last()) + ", "@ + items.last()
    }
}

/// `name: count` for each of the first `n` slots whose count is not zero.
pub open spec fn op_items(counts: Seq<usize>, n: int) -> Seq<Seq<char>>
    decreases n,
{
    if n <= 0 {
        seq![]
    } else if counts[n - 1] > 0 {
        op_items(counts, n - 1).push(op_name(n - 1) + ": "@ + decimal_of(counts[n - 1] as nat))
    } else {
        op_items(counts, n - 1)
    }
}

/// `value: count` for each of the first `n` entries of a histogram.
pub open spec fn pair_items(h: Seq<(usize, usize)>, n: int) -> Seq<Seq<char>>
    decreases n,
{
    if n <= 0 {
        seq![]
    } else {
        pair_items(h, n - 1).push(decimal_of(h[n - 1].0 as nat) + ": "@ + decimal_of(h[n - 1].1 as nat))
    }
}

pub open spec fn braced(items: Seq<Seq<char>>) -> Seq<char> {
    "{"@ + joined(items) + "}"@
}

pub open spec fn count_line(label: Seq<char>, n: usize) -> Seq<char> {
    label + decimal_of(n as nat) + "\n"@
}

/// The report for `s`, given the leaf-depth histogram and the two
/// exclusive histograms of the one-axis subtrees.
pub open spec fn report_text(
    s: TreeStats,
    leaves: Seq<(usize, usize)>,
    x_only: Seq<(usize, usize)>,
    y_only: Seq<(usize, usize)>,
) -> Seq<char> {
    count_line("Total Nodes: "@, s.total_nodes) + count_line("Total Ops: "@, s.total_ops)
        + "Op Counts: "@ + braced(op_items(s.op_counts@, OP_KINDS as int)) + "\n"@ + count_line(
        "Leaf Nodes: "@,
        s.leaf_nodes,
    ) + count_line("Max Depth: "@, s.max_depth) + count_line(
        "X-only Subtrees: "@,
        s.x_only_subtrees,
    ) + count_line("Y-only Subtrees: "@, s.y_only_subtrees) + "Leaf Depth Histogram: "@ + braced(
        pair_items(leaves, leaves.len() as int),
    ) + "\n"@ + "X-only Subtree Op Counts Histogram: "@ + braced(
        pair_items(x_only, x_only.len() as int),
    ) + "\n"@ + "Y-only Subtree Op Counts Histogram: "@ + braced(
        pair_items(y_only, y_only.len() as int),
    ) + "\n"@
}

fn op_label(k: usize) -> (r: &'static str)
    ensures
        r@ == op_name(k as int),
{
    if k == 0 {
        "Add"
    } else if k == 1 {
        "Mult"
    } else if k == 2 {
        "Div"
    } else if k == 3 {
        "Modulo"
    } else if k == 4 {
        "Sin"
    } else if k == 5 {
        "Cos"
    } else if k == 6 {
        "Exp"
    } else if k == 7 {
        "Sqrt"
    } else if k == 8 {
        "Mix"
    } else {
        "MixUnbounded"
    }
}

fn push_braced(out: &mut String, items: &Vec<String>)
    ensures
        final(out)@ == old(out)@ + braced(items@.map_values(|s: String| s@)),
{
    let ghost v = items@.map_values(|s: String| s@);
    let ghost start = out@;
    out.append("{");
    let mut i: usize = 0;
    while i < items.len()
        invariant
            i <= items@.len(),
            v == items@.map_values(|s: String| s@),
            out@ == start + "{"@ + joined(v.subrange(0, i as int)),
        decreases items@.len() - i,
    {
        assert(v.subrange(0, i as int + 1).drop_last() =~= v.subrange(0, i as int));
        if i > 0 {
            out.append(", ");
        } else {
            assert(v.subrange(0, 0) =~= Seq::<Seq<char>>::empty());
        }
        out.append(items[i].as_str());
        assert(out@ =~= start + "{"@ + joined(v.subrange(0, i as int + 1)));
        i = i + 1;
    }
    assert(v.subrange(0, i as int) =~= v);
    out.append("}");
    assert(out@ =~= start + braced(v));
}

fn push_count_line(out: &mut String, label: &str, n: usize)
    ensures
        final(out)@ == old(out)@ + count_line(label@, n),
{
    out.append(label);
    out.append(decimal(n as u64).as_str());
    out.append("\n");
    assert(final(out)@ =~= old(out)@ + count_line(label@, n));
}

fn histogram_items(h: &Vec<(usize, usize)>) -> (r: Vec<String>)
    ensures
        r@.map_values(|s: String| s@) == pair_items(h@, h@.len() as int),
{
    let mut items: Vec<String> = Vec::new();
    let mut i: usize = 0;
    while i < h.len()
        invariant
            i <= h@.len(),
            items@.map_values(|s: String| s@) == pair_items(h@, i as int),
        decreases h@.len() - i,
    {
        let (value, count) = h[i];
        let mut item = decimal(value as u64);
        item.append(": ");
        item.append(decimal(count as u64).as_str());
        let ghost before = items@;
        items.push(item);
        assert(items@.map_values(|s: String| s@) =~= before.map_values(|s: String| s@).push(item@));
        i = i + 1;
    }
    items
}

impl TreeStats {
    /// The summary counts and the three histograms, one per line.
    pub fn report(&self) -> (r: String)
        requires
            self.op_counts@.len() == OP_KINDS,
        ensures
            exists|leaves: Seq<(usize, usize)>, hx: Seq<(usize, usize)>, hy: Seq<(usize, usize)>|
                is_histogram(leaves, self.leaf_depths@) && is_histogram(
                    hx,
                    self.x_only_subtree_op_counts@,
                ) && is_histogram(hy, self.y_only_subtree_op_counts@) && r@ == report_text(
                    *self,
                    leaves,
                    exclusive_of(hx, 0),
                    exclusive_of(hy, 0),
                ),
    {
        let mut out = String::new();
        push_count_line(&mut out, "Total Nodes: ", self.total_nodes);
        push_count_line(&mut out, "Total Ops: ", self.total_ops);
        out.append("Op Counts: ");
        let mut ops: Vec<String> = Vec::new();
        let mut k: usize = 0;
        while k < OP_KINDS
            invariant
                k <= OP_KINDS,
                self.op_counts@.len() == OP_KINDS,
                ops@.map_values(|s: String| s@) == op_items(self.op_counts@, k as int),
            decreases OP_KINDS - k,
        {
            let c = self.op_counts[k];
            if c > 0 {
                let mut item = String::from_str(op_label(k));
                item.append(": ");
                item.append(decimal(c as u64).as_str());
                let ghost before = ops@;
                ops.push(item);
                assert(ops@.map_values(|s: String| s@) =~= before.map_values(|s: String| s@).push(
                    item@,
                ));
            }
            k = k + 1;
        }
        push_braced(&mut out, &ops);
        out.append("\n");
        push_count_line(&mut out, "Leaf Nodes: ", self.leaf_nodes);
        push_count_line(&mut out, "Max Depth: ", self.max_depth);
        push_count_line(&mut out, "X-only Subtrees: ", self.x_only_subtrees);
        push_count_line(&mut out, "Y-only Subtrees: ", self.y_only_subtrees);
        let leaves = value_counts(&self.leaf_depths);
        let x_only = exclusive_counts(&self.x_only_subtree_op_counts);
        let y_only = exclusive_counts(&self.y_only_subtree_op_counts);
        out.append("Leaf Depth Histogram: ");
        push_braced(&mut out, &histogram_items(&leaves));
        out.append("\n");
        out.append("X-only Subtree Op Counts Histogram: ");
        push_braced(&mut out, &histogram_items(&x_only));
        out.append("\n");
        out.append("Y-only Subtree Op Counts Histogram: ");
        push_braced(&mut out, &histogram_items(&y_only));
        out.append("\n");
        let ghost hx = choose|h: Seq<(usize, usize)>|
            is_histogram(h, self.x_only_subtree_op_counts@) && x_only@ == exclusive_of(h, 0);
        let ghost hy = choose|h: Seq<(usize, usize)>|
            is_histogram(h, self.y_only_subtree_op_counts@) && y_only@ == exclusive_of(h, 0);
        assert(out@ =~= report_text(*self, leaves@, exclusive_of(hx, 0), exclusive_of(hy, 0)));
        out
    }
}

} // verus!
