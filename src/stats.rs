use vstd::prelude::*;
use crate::node::Node;

verus! {

/// Which axes a subtree reads.
#[derive(Clone, Copy, Debug, PartialEq, Eq, Structural)]
pub enum Dependency {
    X,
    Y,
    XY,
    NO,
}

/// The number of operator kinds that are counted separately.
pub const OP_KINDS: usize = 10;

/// Classifies an operator node by the dependencies of its children: `X` when
/// every child reads at most `x` (so also when none reads an axis), else `Y`
/// when every child reads at most `y`, else `XY`.
#[verifier::opaque]
pub open spec fn unify(deps: Seq<Dependency>) -> Dependency {
    if deps.len() == 0 {
        Dependency::NO
    } else if forall|i: int|
        0 <= i < deps.len() ==> deps[i] == Dependency::X || deps[i] == Dependency::NO {
        Dependency::X
    } else if forall|i: int|
        0 <= i < deps.len() ==> deps[i] == Dependency::Y || deps[i] == Dependency::NO {
        Dependency::Y
    } else if forall|i: int| 0 <= i < deps.len() ==> deps[i] == Dependency::NO {
        Dependency::NO
    } else {
        Dependency::XY
    }
}

/// The dependency class of a scalar tree: a leaf reads its own axis (a
/// constant reads none); an operator is classified by `unify`.
pub open spec fn dep_of(t: Node) -> Dependency
    decreases t,
{
    match t {
        Node::X => Dependency::X,
        Node::Y => Dependency::Y,
        Node::Sqrt(a) | Node::Sin(a) | Node::Cos(a) | Node::Exp(a) => unify(seq![dep_of(*a)]),
        Node::Add(a, b) | Node::Mult(a, b) | Node::Div(a, b) | Node::Modulo(a, b) => unify(
            seq![dep_of(*a), dep_of(*b)],
        ),
        Node::Mix(a, b, c, d) | Node::MixUnbounded(a, b, c, d) => unify(
            seq![dep_of(*a), dep_of(*b), dep_of(*c), dep_of(*d)],
        ),
        _ => Dependency::NO,
    }
}

/// The slot of an operator in the per-kind counts, in the order
/// Add, Mult, Div, Modulo, Sin, Cos, Exp, Sqrt, Mix, MixUnbounded;
/// `OP_KINDS` for a leaf.
pub open spec fn op_slot(t: Node) -> nat {
    match t {
        Node::Add(_, _) => 0,
        Node::Mult(_, _) => 1,
        Node::Div(_, _) => 2,
        Node::Modulo(_, _) => 3,
        Node::Sin(_) => 4,
        Node::Cos(_) => 5,
        Node::Exp(_) => 6,
        Node::Sqrt(_) => 7,
        Node::Mix(_, _, _, _) => 8,
        Node::MixUnbounded(_, _, _, _) => 9,
        _ => OP_KINDS as nat,
    }
}

/// Number of operator nodes in a tree.
pub open spec fn op_total(t: Node) -> nat
    decreases t,
{
    match t {
        Node::Sqrt(a) | Node::Sin(a) | Node::Cos(a) | Node::Exp(a) => 1 + op_total(*a),
        Node::Add(a, b) | Node::Mult(a, b) | Node::Div(a, b) | Node::Modulo(a, b) => 1
            + op_total(*a) + op_total(*b),
        Node::Mix(a, b, c, d) | Node::MixUnbounded(a, b, c, d) => 1 + op_total(*a) + op_total(
            *b,
        ) + op_total(*c) + op_total(*d),
        Node::Triple(a, b, c) => op_total(*a) + op_total(*b) + op_total(*c),
        _ => 0,
    }
}

/// Number of operator nodes of slot `k` in a tree.
pub open spec fn op_count(t: Node, k: nat) -> nat
    decreases t,
{
    let own: nat = if op_slot(t) == k {
        1
    } else {
        0
    };
    match t {
        Node::Sqrt(a) | Node::Sin(a) | Node::Cos(a) | Node::Exp(a) => own + op_count(*a, k),
        Node::Add(a, b) | Node::Mult(a, b) | Node::Div(a, b) | Node::Modulo(a, b) => own
            + op_count(*a, k) + op_count(*b, k),
        Node::Mix(a, b, c, d) | Node::MixUnbounded(a, b, c, d) => own + op_count(*a, k)
            + op_count(*b, k) + op_count(*c, k) + op_count(*d, k),
        _ => 0,
    }
}

/// Height of a tree: 0 for a leaf.
pub open spec fn height(t: Node) -> nat
    decreases t,
{
    match t {
        Node::Sqrt(a) | Node::Sin(a) | Node::Cos(a) | Node::Exp(a) => 1 + height(*a),
        Node::Add(a, b) | Node::Mult(a, b) | Node::Div(a, b) | Node::Modulo(a, b) => 1
            + vstd::math::max(height(*a) as int, height(*b) as int) as nat,
        Node::Mix(a, b, c, d) | Node::MixUnbounded(a, b, c, d) => 1 + vstd::math::max(
            vstd::math::max(height(*a) as int, height(*b) as int),
            vstd::math::max(height(*c) as int, height(*d) as int),
        ) as nat,
        Node::Triple(a, b, c) => 1 + vstd::math::max(
            vstd::math::max(height(*a) as int, height(*b) as int),
            height(*c) as int,
        ) as nat,
        _ => 0,
    }
}

/// Depths of the leaves, left to right, for a tree whose root is at `d`.
pub open spec fn leaf_depths_of(t: Node, d: nat) -> Seq<usize>
    decreases t,
{
    match t {
        Node::Sqrt(a) | Node::Sin(a) | Node::Cos(a) | Node::Exp(a) => leaf_depths_of(*a, d + 1),
        Node::Add(a, b) | Node::Mult(a, b) | Node::Div(a, b) | Node::Modulo(a, b) =>
            leaf_depths_of(*a, d + 1) + leaf_depths_of(*b, d + 1),
        Node::Mix(a, b, c, d4) | Node::MixUnbounded(a, b, c, d4) => leaf_depths_of(*a, d + 1)
            + leaf_depths_of(*b, d + 1) + leaf_depths_of(*c, d + 1) + leaf_depths_of(*d4, d + 1),
        _ => seq![d as usize],
    }
}

/// Operator counts of the operator subtrees of class `class`, children
/// before parents.
pub open spec fn class_op_counts(t: Node, class: Dependency) -> Seq<usize>
    decreases t,
{
    let own: Seq<usize> = if dep_of(t) == class {
        seq![op_total(t) as usize]
    } else {
        seq![]
    };
    match t {
        Node::Sqrt(a) | Node::Sin(a) | Node::Cos(a) | Node::Exp(a) => class_op_counts(*a, class)
            + own,
        Node::Add(a, b) | Node::Mult(a, b) | Node::Div(a, b) | Node::Modulo(a, b) =>
            class_op_counts(*a, class) + class_op_counts(*b, class) + own,
        Node::Mix(a, b, c, d) | Node::MixUnbounded(a, b, c, d) => class_op_counts(*a, class)
            + class_op_counts(*b, class) + class_op_counts(*c, class) + class_op_counts(*d, class)
            + own,
        _ => seq![],
    }
}

/// Size-related bounds used to rule out overflow.
pub proof fn lemma_tree_bounds(t: Node, d: nat)
    requires
        t.is_scalar(),
    ensures
        op_total(t) < t.size(),
        height(t) < t.size(),
        leaf_depths_of(t, d).len() + op_total(t) == t.size(),
        class_op_counts(t, Dependency::X).len() + class_op_counts(t, Dependency::Y).len()
            <= op_total(t),
        forall|k: nat| op_count(t, k) <= op_total(t),
    decreases t,
{
    match t {
        Node::Sqrt(a) | Node::Sin(a) | Node::Cos(a) | Node::Exp(a) => {
            lemma_tree_bounds(*a, d + 1);
            assert forall|k: nat| op_count(t, k) <= op_total(t) by {
                assert(op_count(*a, k) <= op_total(*a));
            }
        },
        Node::Add(a, b) | Node::Mult(a, b) | Node::Div(a, b) | Node::Modulo(a, b) => {
            lemma_tree_bounds(*a, d + 1);
            lemma_tree_bounds(*b, d + 1);
            assert forall|k: nat| op_count(t, k) <= op_total(t) by {
                assert(op_count(*a, k) <= op_total(*a));
                assert(op_count(*b, k) <= op_total(*b));
            }
        },
        Node::Mix(a, b, c, e) | Node::MixUnbounded(a, b, c, e) => {
            lemma_tree_bounds(*a, d + 1);
            lemma_tree_bounds(*b, d + 1);
            lemma_tree_bounds(*c, d + 1);
            lemma_tree_bounds(*e, d + 1);
            assert forall|k: nat| op_count(t, k) <= op_total(t) by {
                assert(op_count(*a, k) <= op_total(*a));
                assert(op_count(*b, k) <= op_total(*b));
                assert(op_count(*c, k) <= op_total(*c));
                assert(op_count(*e, k) <= op_total(*e));
            }
        },
        _ => {},
    }
}

/// Summary counts of a scalar tree.
#[derive(Debug)]
pub struct TreeStats {
    pub total_nodes: usize,
    pub leaf_nodes: usize,
    pub max_depth: usize,
    pub x_only_subtrees: usize,
    pub y_only_subtrees: usize,
    pub total_ops: usize,
    /// Operator counts by slot (see `op_slot`).
    pub op_counts: Vec<usize>,
    pub leaf_depths: Vec<usize>,
    pub x_only_subtree_op_counts: Vec<usize>,
    pub y_only_subtree_op_counts: Vec<usize>,
}

/// Counters that never exceed the number of nodes seen, so that adding one
/// more node cannot overflow them.
pub open spec fn counters_bounded(s: TreeStats) -> bool {
    &&& s.op_counts@.len() == OP_KINDS
    &&& s.leaf_nodes + s.total_ops <= s.total_nodes
    &&& s.x_only_subtrees + s.y_only_subtrees <= s.total_ops
    &&& forall|k: int| 0 <= k < OP_KINDS ==> #[trigger] s.op_counts@[k] <= s.total_ops
}

fn unify_deps(deps: &Vec<Dependency>) -> (r: Dependency)
    ensures
        r == unify(deps@),
{
    let mut all_x_or_no = true;
    let mut all_y_or_no = true;
    let mut all_no = true;
    let mut i: usize = 0;
    while i < deps.len()
        invariant
            i <= deps@.len(),
            all_x_or_no == forall|j: int|
                0 <= j < i ==> deps@[j] == Dependency::X || deps@[j] == Dependency::NO,
            all_y_or_no == forall|j: int|
                0 <= j < i ==> deps@[j] == Dependency::Y || deps@[j] == Dependency::NO,
            all_no == forall|j: int| 0 <= j < i ==> deps@[j] == Dependency::NO,
        decreases deps@.len() - i,
    {
        let d = deps[i];
        if !(d == Dependency::X || d == Dependency::NO) {
            all_x_or_no = false;
        }
        if !(d == Dependency::Y || d == Dependency::NO) {
            all_y_or_no = false;
        }
        if d != Dependency::NO {
            all_no = false;
        }
        i = i + 1;
    }
    proof {
        reveal(unify);
    }
    if deps.len() == 0 {
        Dependency::NO
    } else if all_x_or_no {
        Dependency::X
    } else if all_y_or_no {
        Dependency::Y
    } else if all_no {
        Dependency::NO
    } else {
        Dependency::XY
    }
}

fn slot_of(node: &Node) -> (r: usize)
    ensures
        r == op_slot(*node),
{
    match node {
        Node::Add(_, _) => 0,
        Node::Mult(_, _) => 1,
        Node::Div(_, _) => 2,
        Node::Modulo(_, _) => 3,
        Node::Sin(_) => 4,
        Node::Cos(_) => 5,
        Node::Exp(_) => 6,
        Node::Sqrt(_) => 7,
        Node::Mix(_, _, _, _) => 8,
        Node::MixUnbounded(_, _, _, _) => 9,
        _ => OP_KINDS,
    }
}

/// The stats after one more node, of kind `node`, at depth `depth`.
pub open spec fn counted(old_s: TreeStats, new_s: TreeStats, node: Node, depth: nat) -> bool {
    &&& new_s.total_nodes == old_s.total_nodes + node.size()
    &&& new_s.leaf_nodes == old_s.leaf_nodes + leaf_depths_of(node, depth).len()
    &&& new_s.max_depth == vstd::math::max(old_s.max_depth as int, (depth + height(node)) as int)
    &&& new_s.total_ops == old_s.total_ops + op_total(node)
    &&& new_s.op_counts@.len() == OP_KINDS
    &&& forall|k: int|
        0 <= k < OP_KINDS ==> #[trigger] new_s.op_counts@[k] == old_s.op_counts@[k] + op_count(
            node,
            k as nat,
        )
    &&& new_s.leaf_depths@ == old_s.leaf_depths@ + leaf_depths_of(node, depth)
    &&& new_s.x_only_subtree_op_counts@ == old_s.x_only_subtree_op_counts@ + class_op_counts(
        node,
        Dependency::X,
    )
    &&& new_s.y_only_subtree_op_counts@ == old_s.y_only_subtree_op_counts@ + class_op_counts(
        node,
        Dependency::Y,
    )
    &&& new_s.x_only_subtrees == old_s.x_only_subtrees + class_op_counts(
        node,
        Dependency::X,
    ).len()
    &&& new_s.y_only_subtrees == old_s.y_only_subtrees + class_op_counts(
        node,
        Dependency::Y,
    ).len()
}

fn count_op(stats: &mut TreeStats, slot: usize)
    requires
        slot < OP_KINDS,
        counters_bounded(*old(stats)),
        old(stats).total_nodes < usize::MAX,
    ensures
        final(stats).total_nodes == old(stats).total_nodes + 1,
        final(stats).total_ops == old(stats).total_ops + 1,
        final(stats).op_counts@ == old(stats).op_counts@.update(
            slot as int,
            (old(stats).op_counts@[slot as int] + 1) as usize,
        ),
        final(stats).leaf_nodes == old(stats).leaf_nodes,
        final(stats).max_depth == old(stats).max_depth,
        final(stats).x_only_subtrees == old(stats).x_only_subtrees,
        final(stats).y_only_subtrees == old(stats).y_only_subtrees,
        final(stats).leaf_depths == old(stats).leaf_depths,
        final(stats).x_only_subtree_op_counts == old(stats).x_only_subtree_op_counts,
        final(stats).y_only_subtree_op_counts == old(stats).y_only_subtree_op_counts,
        counters_bounded(*final(stats)),
{
    stats.total_nodes = stats.total_nodes + 1;
    stats.total_ops = stats.total_ops + 1;
    let c = stats.op_counts[slot];
    stats.op_counts.set(slot, c + 1);
}

fn count_leaf(stats: &mut TreeStats, depth: usize)
    requires
        counters_bounded(*old(stats)),
        old(stats).total_nodes < usize::MAX,
    ensures
        final(stats).total_nodes == old(stats).total_nodes + 1,
        final(stats).leaf_nodes == old(stats).leaf_nodes + 1,
        final(stats).max_depth == vstd::math::max(old(stats).max_depth as int, depth as int),
        final(stats).leaf_depths@ == old(stats).leaf_depths@.push(depth),
        final(stats).total_ops == old(stats).total_ops,
        final(stats).op_counts == old(stats).op_counts,
        final(stats).x_only_subtrees == old(stats).x_only_subtrees,
        final(stats).y_only_subtrees == old(stats).y_only_subtrees,
        final(stats).x_only_subtree_op_counts == old(stats).x_only_subtree_op_counts,
        final(stats).y_only_subtree_op_counts == old(stats).y_only_subtree_op_counts,
        counters_bounded(*final(stats)),
{
    stats.total_nodes = stats.total_nodes + 1;
    stats.leaf_nodes = stats.leaf_nodes + 1;
    if depth > stats.max_depth {
        stats.max_depth = depth;
    }
    stats.leaf_depths.push(depth);
}

/// Number of children of an operator node; 0 for a leaf or a placeholder.
pub open spec fn arity(t: Node) -> nat {
    match t {
        Node::Sqrt(_) | Node::Sin(_) | Node::Cos(_) | Node::Exp(_) => 1,
        Node::Add(_, _) | Node::Mult(_, _) | Node::Div(_, _) | Node::Modulo(_, _) => 2,
        Node::Mix(_, _, _, _) | Node::MixUnbounded(_, _, _, _) => 4,
        _ => 0,
    }
}

fn record_class(stats: &mut TreeStats, class: Dependency, ops: usize)
    requires
        counters_bounded(*old(stats)),
        old(stats).x_only_subtrees + old(stats).y_only_subtrees < old(stats).total_ops,
    ensures
        final(stats).total_nodes == old(stats).total_nodes,
        final(stats).leaf_nodes == old(stats).leaf_nodes,
        final(stats).max_depth == old(stats).max_depth,
        final(stats).total_ops == old(stats).total_ops,
        final(stats).op_counts == old(stats).op_counts,
        final(stats).leaf_depths == old(stats).leaf_depths,
        final(stats).x_only_subtrees == old(stats).x_only_subtrees + if class == Dependency::X {
            1int
        } else {
            0
        },
        final(stats).y_only_subtrees == old(stats).y_only_subtrees + if class == Dependency::Y {
            1int
        } else {
            0
        },
        final(stats).x_only_subtree_op_counts@ == old(stats).x_only_subtree_op_counts@ + if class
            == Dependency::X {
            seq![ops]
        } else {
            seq![]
        },
        final(stats).y_only_subtree_op_counts@ == old(stats).y_only_subtree_op_counts@ + if class
            == Dependency::Y {
            seq![ops]
        } else {
            seq![]
        },
        counters_bounded(*final(stats)),
{
    if class == Dependency::X {
        stats.x_only_subtrees = stats.x_only_subtrees + 1;
        stats.x_only_subtree_op_counts.push(ops);
        assert(final(stats).y_only_subtree_op_counts@ =~= old(stats).y_only_subtree_op_counts@ + seq![]);
    } else if class == Dependency::Y {
        stats.y_only_subtrees = stats.y_only_subtrees + 1;
        stats.y_only_subtree_op_counts.push(ops);
        assert(final(stats).x_only_subtree_op_counts@ =~= old(stats).x_only_subtree_op_counts@ + seq![]);
    } else {
        assert(final(stats).x_only_subtree_op_counts@ =~= old(stats).x_only_subtree_op_counts@ + seq![]);
        assert(final(stats).y_only_subtree_op_counts@ =~= old(stats).y_only_subtree_op_counts@ + seq![]);
    }
}

fn enter_op(stats: &mut TreeStats, node: &Node, depth: usize)
    requires
        arity(*node) > 0,
        counters_bounded(*old(stats)),
        old(stats).total_nodes < usize::MAX,
    ensures
        final(stats).total_nodes == old(stats).total_nodes + 1,
        final(stats).total_ops == old(stats).total_ops + 1,
        final(stats).op_counts@.len() == OP_KINDS,
        forall|k: int|
            0 <= k < OP_KINDS ==> #[trigger] final(stats).op_counts@[k] == old(stats).op_counts@[k]
                + if op_slot(*node) == k {
                1int
            } else {
                0
            },
        final(stats).leaf_nodes == old(stats).leaf_nodes,
        final(stats).max_depth == vstd::math::max(old(stats).max_depth as int, depth as int),
        final(stats).x_only_subtrees == old(stats).x_only_subtrees,
        final(stats).y_only_subtrees == old(stats).y_only_subtrees,
        final(stats).leaf_depths == old(stats).leaf_depths,
        final(stats).x_only_subtree_op_counts == old(stats).x_only_subtree_op_counts,
        final(stats).y_only_subtree_op_counts == old(stats).y_only_subtree_op_counts,
        counters_bounded(*final(stats)),
{
    if depth > stats.max_depth {
        stats.max_depth = depth;
    }
    count_op(stats, slot_of(node));
}

fn collect(node: &Node, depth: usize, stats: &mut TreeStats) -> (r: (Dependency, usize))
    requires
        node.is_scalar(),
        counters_bounded(*old(stats)),
        old(stats).total_nodes + node.size() <= usize::MAX,
        depth + node.size() <= usize::MAX,
    ensures
        r.0 == dep_of(*node),
        r.1 == op_total(*node),
        counted(*old(stats), *final(stats), *node, depth as nat),
        counters_bounded(*final(stats)),
    decreases node.size(), 2nat,
{
    match node {
        Node::X => {
            count_leaf(stats, depth);
            assert(stats.leaf_depths@ =~= old(stats).leaf_depths@ + leaf_depths_of(*node, depth as nat));
            (Dependency::X, 0)
        },
        Node::Y => {
            count_leaf(stats, depth);
            assert(stats.leaf_depths@ =~= old(stats).leaf_depths@ + leaf_depths_of(*node, depth as nat));
            (Dependency::Y, 0)
        },
        Node::Number(_) => {
            count_leaf(stats, depth);
            assert(stats.leaf_depths@ =~= old(stats).leaf_depths@ + leaf_depths_of(*node, depth as nat));
            (Dependency::NO, 0)
        },
        Node::Sqrt(_) | Node::Sin(_) | Node::Cos(_) | Node::Exp(_) => collect_unary(
            node,
            depth,
            stats,
        ),
        Node::Add(_, _) | Node::Mult(_, _) | Node::Div(_, _) | Node::Modulo(_, _) =>
            collect_binary(node, depth, stats),
        _ => collect_quaternary(node, depth, stats),
    }
}

fn collect_unary(node: &Node, depth: usize, stats: &mut TreeStats) -> (r: (Dependency, usize))
    requires
        node.is_scalar(),
        arity(*node) == 1,
        counters_bounded(*old(stats)),
        old(stats).total_nodes + node.size() <= usize::MAX,
        depth + node.size() <= usize::MAX,
    ensures
        r.0 == dep_of(*node),
        r.1 == op_total(*node),
        counted(*old(stats), *final(stats), *node, depth as nat),
        counters_bounded(*final(stats)),
    decreases node.size(), 1nat,
{
    proof {
        lemma_tree_bounds(*node, depth as nat);
    }
    let a: &Node = match node {
        Node::Sqrt(a) | Node::Sin(a) | Node::Cos(a) | Node::Exp(a) => a,
        _ => {
            proof {
                assert(false);
            }
            node
        },
    };
    enter_op(stats, node, depth);
    let ghost mid = *stats;
    let (d1, o1) = collect(a, depth + 1, stats);
    let mut deps: Vec<Dependency> = Vec::new();
    deps.push(d1);
    let unified = unify_deps(&deps);
    proof {
        assert(deps@ =~= seq![dep_of(*a)]);
        lemma_tree_bounds(*a, depth as nat + 1);
    }
    record_class(stats, unified, o1 + 1);
    proof {
        assert forall|k: int| 0 <= k < OP_KINDS implies #[trigger] final(stats).op_counts@[k]
            == old(stats).op_counts@[k] + op_count(*node, k as nat) by {
            assert(mid.op_counts@[k] == old(stats).op_counts@[k] + if op_slot(*node) == k {
                1int
            } else {
                0
            });
        }
        lemma_concat_three(
            old(stats).x_only_subtree_op_counts@,
            class_op_counts(*a, Dependency::X),
            if unified == Dependency::X { seq![(o1 + 1) as usize] } else { seq![] },
        );
        lemma_concat_three(
            old(stats).y_only_subtree_op_counts@,
            class_op_counts(*a, Dependency::Y),
            if unified == Dependency::Y { seq![(o1 + 1) as usize] } else { seq![] },
        );
    }
    (unified, o1 + 1)
}

/// The stats after two sibling subtrees `a` then `b`, both rooted at `depth`.
pub open spec fn counted_pair(
    old_s: TreeStats,
    new_s: TreeStats,
    a: Node,
    b: Node,
    depth: nat,
) -> bool {
    &&& new_s.total_nodes == old_s.total_nodes + a.size() + b.size()
    &&& new_s.leaf_nodes == old_s.leaf_nodes + leaf_depths_of(a, depth).len() + leaf_depths_of(
        b,
        depth,
    ).len()
    &&& new_s.max_depth == vstd::math::max(
        vstd::math::max(old_s.max_depth as int, (depth + height(a)) as int),
        (depth + height(b)) as int,
    )
    &&& new_s.total_ops == old_s.total_ops + op_total(a) + op_total(b)
    &&& new_s.op_counts@.len() == OP_KINDS
    &&& forall|k: int|
        0 <= k < OP_KINDS ==> #[trigger] new_s.op_counts@[k] == old_s.op_counts@[k] + op_count(
            a,
            k as nat,
        ) + op_count(b, k as nat)
    &&& new_s.leaf_depths@ == old_s.leaf_depths@ + leaf_depths_of(a, depth) + leaf_depths_of(
        b,
        depth,
    )
    &&& new_s.x_only_subtree_op_counts@ == old_s.x_only_subtree_op_counts@ + class_op_counts(
        a,
        Dependency::X,
    ) + class_op_counts(b, Dependency::X)
    &&& new_s.y_only_subtree_op_counts@ == old_s.y_only_subtree_op_counts@ + class_op_counts(
        a,
        Dependency::Y,
    ) + class_op_counts(b, Dependency::Y)
    &&& new_s.x_only_subtrees == old_s.x_only_subtrees + class_op_counts(a, Dependency::X).len()
        + class_op_counts(b, Dependency::X).len()
    &&& new_s.y_only_subtrees == old_s.y_only_subtrees + class_op_counts(a, Dependency::Y).len()
        + class_op_counts(b, Dependency::Y).len()
}

fn collect_pair(a: &Node, b: &Node, depth: usize, stats: &mut TreeStats) -> (r: (
    Dependency,
    Dependency,
    usize,
))
    requires
        a.is_scalar(),
        b.is_scalar(),
        counters_bounded(*old(stats)),
        old(stats).total_nodes + a.size() + b.size() <= usize::MAX,
        depth + a.size() + b.size() <= usize::MAX,
    ensures
        r.0 == dep_of(*a),
        r.1 == dep_of(*b),
        r.2 == op_total(*a) + op_total(*b),
        counted_pair(*old(stats), *final(stats), *a, *b, depth as nat),
        counters_bounded(*final(stats)),
    decreases a.size() + b.size(), 3nat,
{
    proof {
        lemma_tree_bounds(*a, depth as nat);
        lemma_tree_bounds(*b, depth as nat);
    }
    let ghost s0 = *stats;
    let (d1, o1) = collect(a, depth, stats);
    let ghost s1 = *stats;
    let (d2, o2) = collect(b, depth, stats);
    proof {
        assert forall|k: int| 0 <= k < OP_KINDS implies #[trigger] final(stats).op_counts@[k]
            == s0.op_counts@[k] + op_count(*a, k as nat) + op_count(*b, k as nat) by {
            assert(s1.op_counts@[k] == s0.op_counts@[k] + op_count(*a, k as nat));
        }
    }
    (d1, d2, o1 + o2)
}

#[verifier::rlimit(100)]
fn collect_binary(node: &Node, depth: usize, stats: &mut TreeStats) -> (r: (Dependency, usize))
    requires
        node.is_scalar(),
        arity(*node) == 2,
        counters_bounded(*old(stats)),
        old(stats).total_nodes + node.size() <= usize::MAX,
        depth + node.size() <= usize::MAX,
    ensures
        r.0 == dep_of(*node),
        r.1 == op_total(*node),
        counted(*old(stats), *final(stats), *node, depth as nat),
        counters_bounded(*final(stats)),
    decreases node.size(), 1nat,
{
    proof {
        lemma_tree_bounds(*node, depth as nat);
    }
    let (a, b): (&Node, &Node) = match node {
        Node::Add(a, b) | Node::Mult(a, b) | Node::Div(a, b) | Node::Modulo(a, b) => (a, b),
        _ => {
            proof {
                assert(false);
            }
            (node, node)
        },
    };
    enter_op(stats, node, depth);
    let ghost mid = *stats;
    let (d1, d2, o) = collect_pair(a, b, depth + 1, stats);
    let mut deps: Vec<Dependency> = Vec::new();
    deps.push(d1);
    deps.push(d2);
    let unified = unify_deps(&deps);
    proof {
        assert(deps@ =~= seq![dep_of(*a), dep_of(*b)]);
        lemma_tree_bounds(*a, depth as nat + 1);
        lemma_tree_bounds(*b, depth as nat + 1);
    }
    record_class(stats, unified, o + 1);
    proof {
        assert forall|k: int| 0 <= k < OP_KINDS implies #[trigger] final(stats).op_counts@[k]
            == old(stats).op_counts@[k] + op_count(*node, k as nat) by {
            assert(mid.op_counts@[k] == old(stats).op_counts@[k] + if op_slot(*node) == k {
                1int
            } else {
                0
            });
        }
        let ghost dd = depth as nat + 1;
        lemma_concat_three(
            old(stats).leaf_depths@,
            leaf_depths_of(*a, dd),
            leaf_depths_of(*b, dd),
        );
        lemma_concat_four(
            old(stats).x_only_subtree_op_counts@,
            class_op_counts(*a, Dependency::X),
            class_op_counts(*b, Dependency::X),
            if unified == Dependency::X { seq![(o + 1) as usize] } else { seq![] },
        );
        lemma_concat_four(
            old(stats).y_only_subtree_op_counts@,
            class_op_counts(*a, Dependency::Y),
            class_op_counts(*b, Dependency::Y),
            if unified == Dependency::Y { seq![(o + 1) as usize] } else { seq![] },
        );
    }
    (unified, o + 1)
}

proof fn lemma_max_depth_four(m: int, d: int, ha: int, hb: int, hc: int, hd: int)
    requires
        0 <= ha,
        0 <= hb,
        0 <= hc,
        0 <= hd,
    ensures
        ({
            let m1 = vstd::math::max(m, d);
            let m2 = vstd::math::max(vstd::math::max(m1, d + 1 + ha), d + 1 + hb);
            let m3 = vstd::math::max(vstd::math::max(m2, d + 1 + hc), d + 1 + hd);
            m3 == vstd::math::max(
                m,
                d + (1 + vstd::math::max(vstd::math::max(ha, hb), vstd::math::max(hc, hd))),
            )
        }),
{
}

proof fn lemma_concat_three(s0: Seq<usize>, a: Seq<usize>, b: Seq<usize>)
    ensures
        s0 + a + b == s0 + (a + b),
{
    assert(s0 + a + b =~= s0 + (a + b));
}

proof fn lemma_concat_four(s0: Seq<usize>, a: Seq<usize>, b: Seq<usize>, c: Seq<usize>)
    ensures
        s0 + a + b + c == s0 + (a + b + c),
{
    assert(s0 + a + b + c =~= s0 + (a + b + c));
}

proof fn lemma_concat_five(s0: Seq<usize>, a: Seq<usize>, b: Seq<usize>, c: Seq<usize>, d: Seq<usize>, e: Seq<usize>)
    ensures
        s0 + a + b + c + d + e == s0 + (a + b + c + d + e),
{
    assert(s0 + a + b + c + d + e =~= s0 + (a + b + c + d + e));
}

#[verifier::rlimit(100)]
fn collect_quaternary(node: &Node, depth: usize, stats: &mut TreeStats) -> (r: (Dependency, usize))
    requires
        node.is_scalar(),
        arity(*node) == 4,
        counters_bounded(*old(stats)),
        old(stats).total_nodes + node.size() <= usize::MAX,
        depth + node.size() <= usize::MAX,
    ensures
        r.0 == dep_of(*node),
        r.1 == op_total(*node),
        counted(*old(stats), *final(stats), *node, depth as nat),
        counters_bounded(*final(stats)),
    decreases node.size(), 1nat,
{
    proof {
        lemma_tree_bounds(*node, depth as nat);
    }
    let (a, b, c, d): (&Node, &Node, &Node, &Node) = match node {
        Node::Mix(a, b, c, d) | Node::MixUnbounded(a, b, c, d) => (a, b, c, d),
        _ => {
            proof {
                assert(false);
            }
            (node, node, node, node)
        },
    };
    enter_op(stats, node, depth);
    let ghost mid = *stats;
    let (d1, d2, o12) = collect_pair(a, b, depth + 1, stats);
    let ghost mid2 = *stats;
    let (d3, d4, o34) = collect_pair(c, d, depth + 1, stats);
    let mut deps: Vec<Dependency> = Vec::new();
    deps.push(d1);
    deps.push(d2);
    deps.push(d3);
    deps.push(d4);
    let unified = unify_deps(&deps);
    proof {
        assert(deps@ =~= seq![dep_of(*a), dep_of(*b), dep_of(*c), dep_of(*d)]);
        lemma_tree_bounds(*a, depth as nat + 1);
        lemma_tree_bounds(*b, depth as nat + 1);
        lemma_tree_bounds(*c, depth as nat + 1);
        lemma_tree_bounds(*d, depth as nat + 1);
    }
    record_class(stats, unified, o12 + o34 + 1);
    proof {
        lemma_max_depth_four(
            old(stats).max_depth as int,
            depth as int,
            height(*a) as int,
            height(*b) as int,
            height(*c) as int,
            height(*d) as int,
        );
        assert forall|k: int| 0 <= k < OP_KINDS implies #[trigger] final(stats).op_counts@[k]
            == old(stats).op_counts@[k] + op_count(*node, k as nat) by {
            assert(mid.op_counts@[k] == old(stats).op_counts@[k] + if op_slot(*node) == k {
                1int
            } else {
                0
            });
            assert(mid2.op_counts@[k] == mid.op_counts@[k] + op_count(*a, k as nat) + op_count(*b, k as nat));
        }
        let ghost dd = depth as nat + 1;
        lemma_concat_five(
            old(stats).leaf_depths@,
            leaf_depths_of(*a, dd),
            leaf_depths_of(*b, dd),
            leaf_depths_of(*c, dd),
            leaf_depths_of(*d, dd),
            seq![],
        );
        assert(leaf_depths_of(*d, dd) + seq![] =~= leaf_depths_of(*d, dd));
        assert(leaf_depths_of(*a, dd) + leaf_depths_of(*b, dd) + leaf_depths_of(*c, dd) + seq![] =~= leaf_depths_of(*a, dd) + leaf_depths_of(*b, dd) + leaf_depths_of(*c, dd));
        lemma_concat_five(
            old(stats).x_only_subtree_op_counts@,
            class_op_counts(*a, Dependency::X),
            class_op_counts(*b, Dependency::X),
            class_op_counts(*c, Dependency::X),
            class_op_counts(*d, Dependency::X),
            if unified == Dependency::X { seq![(o12 + o34 + 1) as usize] } else { seq![] },
        );
        lemma_concat_five(
            old(stats).y_only_subtree_op_counts@,
            class_op_counts(*a, Dependency::Y),
            class_op_counts(*b, Dependency::Y),
            class_op_counts(*c, Dependency::Y),
            class_op_counts(*d, Dependency::Y),
            if unified == Dependency::Y { seq![(o12 + o34 + 1) as usize] } else { seq![] },
        );
    }
    (unified, o12 + o34 + 1)
}

impl TreeStats {
    /// Counts nodes, leaves, operators by kind, leaf depths, and the
    /// operator subtrees that read only `x` or only `y`.
    pub fn from_node(node: &Node) -> (r: Self)
        requires
            node.is_scalar(),
            node.size() <= usize::MAX,
        ensures
            r.total_nodes == node.size(),
            r.leaf_nodes == leaf_depths_of(*node, 0).len(),
            r.max_depth == height(*node),
            r.total_ops == op_total(*node),
            r.op_counts@.len() == OP_KINDS,
            forall|k: int| 0 <= k < OP_KINDS ==> #[trigger] r.op_counts@[k] == op_count(*node, k as nat),
            r.leaf_depths@ == leaf_depths_of(*node, 0),
            r.x_only_subtree_op_counts@ == class_op_counts(*node, Dependency::X),
            r.y_only_subtree_op_counts@ == class_op_counts(*node, Dependency::Y),
            r.x_only_subtrees == class_op_counts(*node, Dependency::X).len(),
            r.y_only_subtrees == class_op_counts(*node, Dependency::Y).len(),
    {
        let mut stats = TreeStats {
            total_nodes: 0,
            leaf_nodes: 0,
            max_depth: 0,
            x_only_subtrees: 0,
            y_only_subtrees: 0,
            total_ops: 0,
            op_counts: vec![0, 0, 0, 0, 0, 0, 0, 0, 0, 0],
            leaf_depths: Vec::new(),
            x_only_subtree_op_counts: Vec::new(),
            y_only_subtree_op_counts: Vec::new(),
        };
        let ghost start = stats;
        assert(start.leaf_depths@ + leaf_depths_of(*node, 0) =~= leaf_depths_of(*node, 0));
        assert(start.x_only_subtree_op_counts@ + class_op_counts(*node, Dependency::X)
            =~= class_op_counts(*node, Dependency::X));
        assert(start.y_only_subtree_op_counts@ + class_op_counts(*node, Dependency::Y)
            =~= class_op_counts(*node, Dependency::Y));
        collect(node, 0, &mut stats);
        stats
    }
}

} // verus!
