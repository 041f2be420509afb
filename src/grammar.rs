use vstd::prelude::*;
use crate::literal::{literal_bits, literal_from_draw};
use crate::node::Node;
use crate::rng::{LinearCongruentialGenerator, lcg_step, LCG_M};

verus! {

/// How many times a rule is sampled again before generation gives up.
pub const MAX_ATTEMPTS: u32 = 100;

/// One alternative of a rule: a template tree and its weight. The
/// alternative's probability is `weight / total` of its rule.
pub struct GrammarBranch {
    pub node: Box<Node>,
    pub weight: u32,
}

/// The alternatives of one rule, in order, with the denominator of their
/// probabilities. The weights need not add up to `total`: what is left
/// over makes a draw select nothing, and the rule is sampled again.
pub struct GrammarBranches {
    pub alternates: Vec<GrammarBranch>,
    pub total: u32,
}

/// A weighted grammar with its own generator.
pub struct Grammar {
    rules: Vec<GrammarBranches>,
    rng: LinearCongruentialGenerator,
}

/// Every `Rule` reference in `t` names one of the first `n` rules.
pub open spec fn refs_ok(t: Node, n: nat) -> bool
    decreases t,
{
    match t {
        Node::Rule(i) => i < n,
        Node::X | Node::Y | Node::Random | Node::Number(_) => true,
        Node::Sqrt(a) | Node::Sin(a) | Node::Cos(a) | Node::Exp(a) => refs_ok(*a, n),
        Node::Add(a, b) | Node::Mult(a, b) | Node::Div(a, b) | Node::Modulo(a, b) => refs_ok(*a, n)
            && refs_ok(*b, n),
        Node::Triple(a, b, c) => refs_ok(*a, n) && refs_ok(*b, n) && refs_ok(*c, n),
        Node::Mix(a, b, c, d) | Node::MixUnbounded(a, b, c, d) => refs_ok(*a, n) && refs_ok(*b, n)
            && refs_ok(*c, n) && refs_ok(*d, n),
    }
}

/// Each rule has a positive denominator and at least one alternative, and
/// every template refers only to rules that exist.
pub open spec fn rules_wf(rules: Seq<GrammarBranches>) -> bool {
    forall|i: int|
        0 <= i < rules.len() ==> {
            &&& #[trigger] rules[i].total > 0
            &&& rules[i].alternates@.len() > 0
            &&& forall|j: int|
                0 <= j < rules[i].alternates@.len() ==> refs_ok(
                    *(#[trigger] rules[i].alternates@[j]).node,
                    rules.len(),
                )
        }
}

/// The alternative that a draw selects, searching from index `j` with the
/// weights before `j` adding up to `cum`: the first whose cumulative
/// probability `cum / total` reaches the draw's `draw / 2^32`.
pub open spec fn selected(alts: Seq<GrammarBranch>, total: nat, draw: nat, j: int, cum: nat) -> Option<
    int,
>
    decreases alts.len() - j,
{
    if j < 0 || j >= alts.len() {
        None
    } else {
        let c: nat = cum + alts[j].weight as nat;
        if c * LCG_M >= draw * total {
            Some(j)
        } else {
            selected(alts, total, draw, j + 1, c)
        }
    }
}

/// The tree in an optional box.
pub open spec fn unboxed(r: Option<Box<Node>>) -> Option<Node> {
    match r {
        Some(b) => Some(*b),
        None => None,
    }
}

/// Expands rule `rule` with `depth` levels left, from generator state `s`:
/// the tree, if any, and the state afterwards.
pub open spec fn expand_rule(rules: Seq<GrammarBranches>, s: u64, rule: int, depth: nat) -> (
    Option<Node>,
    u64,
)
    decreases depth, 2nat, 0nat, 0nat,
{
    if depth == 0 {
        (None, s)
    } else {
        sample_rule(rules, s, rule, depth, MAX_ATTEMPTS as nat)
    }
}

/// Samples rule `rule` at most `tries` more times, until the selected
/// template expands with one level less.
pub open spec fn sample_rule(
    rules: Seq<GrammarBranches>,
    s: u64,
    rule: int,
    depth: nat,
    tries: nat,
) -> (Option<Node>, u64)
    decreases depth, 1nat, tries, 0nat,
{
    if tries == 0 || depth == 0 || rule < 0 || rule >= rules.len() {
        (None, s)
    } else {
        let s1 = lcg_step(s);
        let alts = rules[rule].alternates@;
        let attempt = match selected(alts, rules[rule].total as nat, s1 as nat, 0, 0) {
            Some(j) => if 0 <= j < alts.len() {
                expand_node(rules, s1, *alts[j].node, (depth - 1) as nat)
            } else {
                (None, s1)
            },
            None => (None, s1),
        };
        if attempt.0 is Some {
            attempt
        } else {
            sample_rule(rules, attempt.1, rule, depth, (tries - 1) as nat)
        }
    }
}

/// Expands a template: composite nodes expand their children from left to
/// right with the same depth and fail at the first child that fails;
/// `Rule(i)` uses up one level and expands rule `i`; `Random` becomes the
/// literal of one draw.
pub open spec fn expand_node(rules: Seq<GrammarBranches>, s: u64, t: Node, depth: nat) -> (
    Option<Node>,
    u64,
)
    decreases depth, 0nat, t.size(), 1nat,
{
    match t {
        Node::X | Node::Y | Node::Number(_) => (Some(t), s),
        Node::Random => {
            let s1 = lcg_step(s);
            (Some(Node::Number(literal_bits(s1))), s1)
        },
        Node::Rule(i) => if depth == 0 {
            (None, s)
        } else {
            expand_rule(rules, s, i as int, (depth - 1) as nat)
        },
        _ => expand_composite(rules, s, t, depth),
    }
}

/// `t` with its children replaced, in order, by `kids`.
pub open spec fn with_children(t: Node, kids: Seq<Node>) -> Node {
    match t {
        Node::Sqrt(_) => Node::Sqrt(Box::new(kids[0])),
        Node::Sin(_) => Node::Sin(Box::new(kids[0])),
        Node::Cos(_) => Node::Cos(Box::new(kids[0])),
        Node::Exp(_) => Node::Exp(Box::new(kids[0])),
        Node::Add(_, _) => Node::Add(Box::new(kids[0]), Box::new(kids[1])),
        Node::Mult(_, _) => Node::Mult(Box::new(kids[0]), Box::new(kids[1])),
        Node::Div(_, _) => Node::Div(Box::new(kids[0]), Box::new(kids[1])),
        Node::Modulo(_, _) => Node::Modulo(Box::new(kids[0]), Box::new(kids[1])),
        Node::Triple(_, _, _) => Node::Triple(
            Box::new(kids[0]),
            Box::new(kids[1]),
            Box::new(kids[2]),
        ),
        Node::Mix(_, _, _, _) => Node::Mix(
            Box::new(kids[0]),
            Box::new(kids[1]),
            Box::new(kids[2]),
            Box::new(kids[3]),
        ),
        Node::MixUnbounded(_, _, _, _) => Node::MixUnbounded(
            Box::new(kids[0]),
            Box::new(kids[1]),
            Box::new(kids[2]),
            Box::new(kids[3]),
        ),
        _ => t,
    }
}

/// Expands two sibling templates in order, stopping at the first failure.
pub open spec fn expand_pair(
    rules: Seq<GrammarBranches>,
    s: u64,
    a: Node,
    b: Node,
    depth: nat,
) -> (Option<(Node, Node)>, u64)
    decreases depth, 0nat, a.size() + b.size(), 2nat,
{
    let (ra, s1) = expand_node(rules, s, a, depth);
    match ra {
        None => (None, s1),
        Some(x) => {
            let (rb, s2) = expand_node(rules, s1, b, depth);
            match rb {
                None => (None, s2),
                Some(y) => (Some((x, y)), s2),
            }
        },
    }
}

/// Expands the children of an operator or `Triple` template.
pub open spec fn expand_composite(rules: Seq<GrammarBranches>, s: u64, t: Node, depth: nat) -> (
    Option<Node>,
    u64,
)
    decreases depth, 0nat, t.size(), 0nat,
{
    match t {
        Node::Sqrt(a) | Node::Sin(a) | Node::Cos(a) | Node::Exp(a) => {
            let (ra, s1) = expand_node(rules, s, *a, depth);
            match ra {
                None => (None, s1),
                Some(x) => (Some(with_children(t, seq![x])), s1),
            }
        },
        Node::Add(a, b) | Node::Mult(a, b) | Node::Div(a, b) | Node::Modulo(a, b) => {
            let (r, s1) = expand_pair(rules, s, *a, *b, depth);
            match r {
                None => (None, s1),
                Some((x, y)) => (Some(with_children(t, seq![x, y])), s1),
            }
        },
        Node::Triple(a, b, c) => {
            let (r, s1) = expand_pair(rules, s, *a, *b, depth);
            match r {
                None => (None, s1),
                Some((x, y)) => {
                    let (rc, s2) = expand_node(rules, s1, *c, depth);
                    match rc {
                        None => (None, s2),
                        Some(z) => (Some(with_children(t, seq![x, y, z])), s2),
                    }
                },
            }
        },
        Node::Mix(a, b, c, d) | Node::MixUnbounded(a, b, c, d) => {
            let (r, s1) = expand_pair(rules, s, *a, *b, depth);
            match r {
                None => (None, s1),
                Some((x, y)) => {
                    let (r2, s2) = expand_pair(rules, s1, *c, *d, depth);
                    match r2 {
                        None => (None, s2),
                        Some((z, w)) => (Some(with_children(t, seq![x, y, z, w])), s2),
                    }
                },
            }
        },
        _ => (None, s),
    }
}

/// A template whose expansions are scalar: no `Triple` anywhere in it, and
/// every rule it refers to is at index `first` or later.
pub open spec fn scalar_template(t: Node, first: nat) -> bool
    decreases t,
{
    match t {
        Node::Rule(i) => i >= first,
        Node::X | Node::Y | Node::Random | Node::Number(_) => true,
        Node::Triple(_, _, _) => false,
        Node::Sqrt(a) | Node::Sin(a) | Node::Cos(a) | Node::Exp(a) => scalar_template(*a, first),
        Node::Add(a, b) | Node::Mult(a, b) | Node::Div(a, b) | Node::Modulo(a, b) =>
            scalar_template(*a, first) && scalar_template(*b, first),
        Node::Mix(a, b, c, d) | Node::MixUnbounded(a, b, c, d) => scalar_template(*a, first)
            && scalar_template(*b, first) && scalar_template(*c, first) && scalar_template(
            *d,
            first,
        ),
    }
}

/// Every rule from index `first` on has only scalar templates.
pub open spec fn scalar_from(rules: Seq<GrammarBranches>, first: nat) -> bool {
    forall|i: int, j: int|
        first <= i < rules.len() && 0 <= j < rules[i].alternates@.len() ==> scalar_template(
            *(#[trigger] rules[i].alternates@[j]).node,
            first,
        )
}

proof fn lemma_rule_scalar(rules: Seq<GrammarBranches>, s: u64, rule: int, depth: nat, first: nat)
    requires
        scalar_from(rules, first),
        first <= rule,
    ensures
        expand_rule(rules, s, rule, depth).0 is Some ==> expand_rule(
            rules,
            s,
            rule,
            depth,
        ).0->0.is_scalar(),
    decreases depth, 2nat, 0nat, 0nat,
{
    if depth > 0 {
        lemma_sample_scalar(rules, s, rule, depth, MAX_ATTEMPTS as nat, first);
    }
}

proof fn lemma_sample_scalar(
    rules: Seq<GrammarBranches>,
    s: u64,
    rule: int,
    depth: nat,
    tries: nat,
    first: nat,
)
    requires
        scalar_from(rules, first),
        first <= rule,
    ensures
        sample_rule(rules, s, rule, depth, tries).0 is Some ==> sample_rule(
            rules,
            s,
            rule,
            depth,
            tries,
        ).0->0.is_scalar(),
    decreases depth, 1nat, tries, 0nat,
{
    if !(tries == 0 || depth == 0 || rule < 0 || rule >= rules.len()) {
        let s1 = lcg_step(s);
        let alts = rules[rule].alternates@;
        let attempt = match selected(alts, rules[rule].total as nat, s1 as nat, 0, 0) {
            Some(j) => if 0 <= j < alts.len() {
                expand_node(rules, s1, *alts[j].node, (depth - 1) as nat)
            } else {
                (None, s1)
            },
            None => (None, s1),
        };
        match selected(alts, rules[rule].total as nat, s1 as nat, 0, 0) {
            Some(j) => if 0 <= j < alts.len() {
                assert(scalar_template(*alts[j].node, first));
                lemma_node_scalar(rules, s1, *alts[j].node, (depth - 1) as nat, first);
            },
            None => {},
        }
        lemma_sample_scalar(rules, attempt.1, rule, depth, (tries - 1) as nat, first);
    }
}

proof fn lemma_node_scalar(rules: Seq<GrammarBranches>, s: u64, t: Node, depth: nat, first: nat)
    requires
        scalar_from(rules, first),
        scalar_template(t, first),
    ensures
        expand_node(rules, s, t, depth).0 is Some ==> expand_node(
            rules,
            s,
            t,
            depth,
        ).0->0.is_scalar(),
    decreases depth, 0nat, t.size(), 1nat,
{
    match t {
        Node::Rule(i) => if depth > 0 {
            lemma_rule_scalar(rules, s, i as int, (depth - 1) as nat, first);
        },
        Node::X | Node::Y | Node::Number(_) | Node::Random => {},
        _ => lemma_composite_scalar(rules, s, t, depth, first),
    }
}

proof fn lemma_pair_scalar(
    rules: Seq<GrammarBranches>,
    s: u64,
    a: Node,
    b: Node,
    depth: nat,
    first: nat,
)
    requires
        scalar_from(rules, first),
        scalar_template(a, first),
        scalar_template(b, first),
    ensures
        match expand_pair(rules, s, a, b, depth).0 {
            Some((x, y)) => x.is_scalar() && y.is_scalar(),
            None => true,
        },
    decreases depth, 0nat, a.size() + b.size(), 2nat,
{
    lemma_node_scalar(rules, s, a, depth, first);
    let (ra, s1) = expand_node(rules, s, a, depth);
    lemma_node_scalar(rules, s1, b, depth, first);
}

proof fn lemma_composite_scalar(
    rules: Seq<GrammarBranches>,
    s: u64,
    t: Node,
    depth: nat,
    first: nat,
)
    requires
        scalar_from(rules, first),
        scalar_template(t, first),
    ensures
        expand_composite(rules, s, t, depth).0 is Some ==> expand_composite(
            rules,
            s,
            t,
            depth,
        ).0->0.is_scalar(),
    decreases depth, 0nat, t.size(), 0nat,
{
    match t {
        Node::Sqrt(a) | Node::Sin(a) | Node::Cos(a) | Node::Exp(a) => {
            lemma_node_scalar(rules, s, *a, depth, first);
        },
        Node::Add(a, b) | Node::Mult(a, b) | Node::Div(a, b) | Node::Modulo(a, b) => {
            lemma_pair_scalar(rules, s, *a, *b, depth, first);
        },
        Node::Mix(a, b, c, d) | Node::MixUnbounded(a, b, c, d) => {
            lemma_pair_scalar(rules, s, *a, *b, depth, first);
            let (r, s1) = expand_pair(rules, s, *a, *b, depth);
            lemma_pair_scalar(rules, s1, *c, *d, depth, first);
        },
        _ => {},
    }
}

/// Every template of rule `rule` is a `Triple` of scalar templates that
/// refer to rules from index 1 on.
pub open spec fn entry_rule_at(rules: Seq<GrammarBranches>, rule: int) -> bool {
    forall|j: int|
        0 <= j < rules[rule].alternates@.len() ==> {
            let t = *(#[trigger] rules[rule].alternates@[j]).node;
            &&& t is Triple
            &&& scalar_template(*t->Triple_0, 1)
            &&& scalar_template(*t->Triple_1, 1)
            &&& scalar_template(*t->Triple_2, 1)
        }
}

/// In a grammar whose rules from index 1 on have only scalar templates, a
/// rule whose templates are all `Triple`s of references to those rules
/// expands to a colour tree: a `Triple` of three scalar trees, with no
/// placeholder left.
pub proof fn lemma_entry_expands_to_colour_tree(
    rules: Seq<GrammarBranches>,
    s: u64,
    rule: int,
    depth: nat,
)
    requires
        scalar_from(rules, 1),
        0 <= rule < rules.len(),
        entry_rule_at(rules, rule),
    ensures
        expand_rule(rules, s, rule, depth).0 is Some ==> expand_rule(
            rules,
            s,
            rule,
            depth,
        ).0->0.is_colour_tree(),
    decreases depth,
{
    if depth > 0 {
        lemma_entry_attempts(rules, s, rule, depth, MAX_ATTEMPTS as nat);
    }
}

proof fn lemma_entry_attempts(
    rules: Seq<GrammarBranches>,
    s: u64,
    rule: int,
    depth: nat,
    tries: nat,
)
    requires
        scalar_from(rules, 1),
        0 <= rule < rules.len(),
        entry_rule_at(rules, rule),
    ensures
        sample_rule(rules, s, rule, depth, tries).0 is Some ==> sample_rule(
            rules,
            s,
            rule,
            depth,
            tries,
        ).0->0.is_colour_tree(),
    decreases tries,
{
    if !(tries == 0 || depth == 0) {
        let s1 = lcg_step(s);
        let alts = rules[rule].alternates@;
        let attempt = match selected(alts, rules[rule].total as nat, s1 as nat, 0, 0) {
            Some(j) => if 0 <= j < alts.len() {
                expand_node(rules, s1, *alts[j].node, (depth - 1) as nat)
            } else {
                (None, s1)
            },
            None => (None, s1),
        };
        match selected(alts, rules[rule].total as nat, s1 as nat, 0, 0) {
            Some(j) => if 0 <= j < alts.len() {
                let t = *alts[j].node;
                let d = (depth - 1) as nat;
                match t {
                    Node::Triple(a, b, c) => {
                        lemma_pair_scalar(rules, s1, *a, *b, d, 1);
                        let (r, s2) = expand_pair(rules, s1, *a, *b, d);
                        lemma_node_scalar(rules, s2, *c, d, 1);
                    },
                    _ => {},
                }
            },
            None => {},
        }
        lemma_entry_attempts(rules, attempt.1, rule, depth, (tries - 1) as nat);
    }
}

/// A tree made by the atom rule: an axis, or the literal of one draw of
/// the generator.
pub open spec fn is_atom_result(t: Node) -> bool {
    t == Node::X || t == Node::Y || exists|d: u64| d < LCG_M && t == Node::Number(literal_bits(d))
}

/// In the default grammar the atom rule yields only `x`, `y` or the
/// literal of a draw (a number `k / 2^23` in `[-1, 1)`, see
/// `literal_from_draw`).
pub proof fn lemma_atom_rule_yields_atoms(rules: Seq<GrammarBranches>, s: u64, depth: nat)
    requires
        is_default_table(rules),
    ensures
        expand_rule(rules, s, 2, depth).0 is Some ==> is_atom_result(
            expand_rule(rules, s, 2, depth).0->0,
        ),
{
    if depth > 0 {
        lemma_atom_attempts(rules, s, depth, MAX_ATTEMPTS as nat);
    }
}

proof fn lemma_atom_attempts(rules: Seq<GrammarBranches>, s: u64, depth: nat, tries: nat)
    requires
        is_default_table(rules),
    ensures
        sample_rule(rules, s, 2, depth, tries).0 is Some ==> is_atom_result(
            sample_rule(rules, s, 2, depth, tries).0->0,
        ),
    decreases tries,
{
    if !(tries == 0 || depth == 0) {
        let s1 = lcg_step(s);
        let alts = rules[2].alternates@;
        assert(alternatives(rules[2]) == default_alternatives(2));
        let attempt = match selected(alts, rules[2].total as nat, s1 as nat, 0, 0) {
            Some(j) => if 0 <= j < alts.len() {
                expand_node(rules, s1, *alts[j].node, (depth - 1) as nat)
            } else {
                (None, s1)
            },
            None => (None, s1),
        };
        match selected(alts, rules[2].total as nat, s1 as nat, 0, 0) {
            Some(j) => if 0 <= j < alts.len() {
                assert(alternatives(rules[2])[j] == (*alts[j].node, alts[j].weight));
                let t = *alts[j].node;
                assert(t == Node::X || t == Node::Y || t == Node::Random);
                if t == Node::Random {
                    let s2 = lcg_step(s1);
                    assert(s2 < LCG_M);
                    assert(expand_node(rules, s1, t, (depth - 1) as nat).0 == Some(
                        Node::Number(literal_bits(s2)),
                    ));
                }
            },
            None => {},
        }
        lemma_atom_attempts(rules, attempt.1, depth, (tries - 1) as nat);
    }
}

fn select(alts: &Vec<GrammarBranch>, total: u32, draw: u64) -> (r: Option<usize>)
    requires
        total > 0,
        draw < LCG_M,
    ensures
        match r {
            Some(j) => selected(alts@, total as nat, draw as nat, 0, 0) == Some(j as int) && j
                < alts@.len(),
            None => selected(alts@, total as nat, draw as nat, 0, 0) is None,
        },
{
    assert(LCG_M == 0x1_0000_0000);
    let mut cum: u128 = 0;
    let mut j: usize = 0;
    while j < alts.len()
        invariant
            j <= alts@.len(),
            draw < 0x1_0000_0000,
            cum <= j * 0x1_0000_0000,
            selected(alts@, total as nat, draw as nat, 0, 0) == selected(
                alts@,
                total as nat,
                draw as nat,
                j as int,
                cum as nat,
            ),
        decreases alts@.len() - j,
    {
        assert(j * 0x1_0000_0000 < 0x1_0000_0000_0000_0000_0000_0000) by (nonlinear_arith)
            requires
                j < 0x1_0000_0000_0000_0000,
        ;
        let c: u128 = cum + alts[j].weight as u128;
        assert(c * 0x1_0000_0000 < 0x1_0000_0000_0000_0000_0000_0000_0000_0000) by (nonlinear_arith)
            requires
                c < 0x1_0000_0000_0000_0000_0000_0000,
        ;
        assert(draw * total < 0x1_0000_0000_0000_0000) by (nonlinear_arith)
            requires
                draw < 0x1_0000_0000,
                total < 0x1_0000_0000,
        ;
        if c * (LCG_M as u128) >= (draw as u128) * (total as u128) {
            return Some(j);
        }
        cum = c;
        j = j + 1;
    }
    None
}

fn expand_rule_exec(
    rules: &Vec<GrammarBranches>,
    rng: &mut LinearCongruentialGenerator,
    rule: usize,
    depth: u32,
) -> (r: Option<Box<Node>>)
    requires
        rules_wf(rules@),
        rule < rules@.len(),
    ensures
        (unboxed(r), final(rng).state()) == expand_rule(
            rules@,
            old(rng).state(),
            rule as int,
            depth as nat,
        ),
    decreases depth, 2nat, 0nat, 0nat,
{
    if depth == 0 {
        return None;
    }
    let branches = &rules[rule];
    assert(branches.total > 0);
    let mut attempt: u32 = 0;
    while attempt < MAX_ATTEMPTS
        invariant
            rules_wf(rules@),
            rule < rules@.len(),
            *branches == rules@[rule as int],
            depth > 0,
            attempt <= MAX_ATTEMPTS,
            expand_rule(rules@, old(rng).state(), rule as int, depth as nat) == sample_rule(
                rules@,
                rng.state(),
                rule as int,
                depth as nat,
                (MAX_ATTEMPTS - attempt) as nat,
            ),
        decreases MAX_ATTEMPTS - attempt,
    {
        let draw = rng.next();
        let picked = select(&branches.alternates, branches.total, draw);
        let node = match picked {
            Some(j) => expand_node_exec(rules, rng, &branches.alternates[j].node, depth - 1),
            None => None,
        };
        if node.is_some() {
            return node;
        }
        attempt = attempt + 1;
    }
    None
}

fn expand_node_exec(
    rules: &Vec<GrammarBranches>,
    rng: &mut LinearCongruentialGenerator,
    t: &Node,
    depth: u32,
) -> (r: Option<Box<Node>>)
    requires
        rules_wf(rules@),
        refs_ok(*t, rules@.len()),
    ensures
        (unboxed(r), final(rng).state()) == expand_node(rules@, old(rng).state(), *t, depth as nat),
    decreases depth, 0nat, t.size(), 1nat,
{
    match t {
        Node::X => Some(Box::new(Node::X)),
        Node::Y => Some(Box::new(Node::Y)),
        Node::Number(v) => Some(Box::new(Node::Number(*v))),
        Node::Random => {
            let draw = rng.next();
            Some(Box::new(Node::Number(literal_from_draw(draw))))
        },
        Node::Rule(i) => {
            if depth == 0 {
                None
            } else {
                expand_rule_exec(rules, rng, *i, depth - 1)
            }
        },
        _ => expand_composite_exec(rules, rng, t, depth),
    }
}

fn expand_pair_exec(
    rules: &Vec<GrammarBranches>,
    rng: &mut LinearCongruentialGenerator,
    a: &Node,
    b: &Node,
    depth: u32,
) -> (r: Option<(Box<Node>, Box<Node>)>)
    requires
        rules_wf(rules@),
        refs_ok(*a, rules@.len()),
        refs_ok(*b, rules@.len()),
    ensures
        ({
            let (e, s) = expand_pair(rules@, old(rng).state(), *a, *b, depth as nat);
            &&& final(rng).state() == s
            &&& match r {
                Some((x, y)) => e == Some((*x, *y)),
                None => e is None,
            }
        }),
    decreases depth, 0nat, a.size() + b.size(), 2nat,
{
    let x = match expand_node_exec(rules, rng, a, depth) {
        Some(x) => x,
        None => return None,
    };
    let y = match expand_node_exec(rules, rng, b, depth) {
        Some(y) => y,
        None => return None,
    };
    Some((x, y))
}

#[verifier::rlimit(50)]
fn expand_composite_exec(
    rules: &Vec<GrammarBranches>,
    rng: &mut LinearCongruentialGenerator,
    t: &Node,
    depth: u32,
) -> (r: Option<Box<Node>>)
    requires
        rules_wf(rules@),
        refs_ok(*t, rules@.len()),
    ensures
        (unboxed(r), final(rng).state()) == expand_composite(
            rules@,
            old(rng).state(),
            *t,
            depth as nat,
        ),
    decreases depth, 0nat, t.size(), 0nat,
{
    match t {
        Node::Sqrt(a) => match expand_node_exec(rules, rng, a, depth) {
            Some(x) => Some(Box::new(Node::Sqrt(x))),
            None => None,
        },
        Node::Sin(a) => match expand_node_exec(rules, rng, a, depth) {
            Some(x) => Some(Box::new(Node::Sin(x))),
            None => None,
        },
        Node::Cos(a) => match expand_node_exec(rules, rng, a, depth) {
            Some(x) => Some(Box::new(Node::Cos(x))),
            None => None,
        },
        Node::Exp(a) => match expand_node_exec(rules, rng, a, depth) {
            Some(x) => Some(Box::new(Node::Exp(x))),
            None => None,
        },
        Node::Add(a, b) => match expand_pair_exec(rules, rng, a, b, depth) {
            Some((x, y)) => Some(Box::new(Node::Add(x, y))),
            None => None,
        },
        Node::Mult(a, b) => match expand_pair_exec(rules, rng, a, b, depth) {
            Some((x, y)) => Some(Box::new(Node::Mult(x, y))),
            None => None,
        },
        Node::Div(a, b) => match expand_pair_exec(rules, rng, a, b, depth) {
            Some((x, y)) => Some(Box::new(Node::Div(x, y))),
            None => None,
        },
        Node::Modulo(a, b) => match expand_pair_exec(rules, rng, a, b, depth) {
            Some((x, y)) => Some(Box::new(Node::Modulo(x, y))),
            None => None,
        },
        Node::Triple(a, b, c) => match expand_pair_exec(rules, rng, a, b, depth) {
            Some((x, y)) => match expand_node_exec(rules, rng, c, depth) {
                Some(z) => Some(Box::new(Node::Triple(x, y, z))),
                None => None,
            },
            None => None,
        },
        Node::Mix(a, b, c, d) => match expand_pair_exec(rules, rng, a, b, depth) {
            Some((x, y)) => match expand_pair_exec(rules, rng, c, d, depth) {
                Some((z, w)) => Some(Box::new(Node::Mix(x, y, z, w))),
                None => None,
            },
            None => None,
        },
        Node::MixUnbounded(a, b, c, d) => match expand_pair_exec(rules, rng, a, b, depth) {
            Some((x, y)) => match expand_pair_exec(rules, rng, c, d, depth) {
                Some((z, w)) => Some(Box::new(Node::MixUnbounded(x, y, z, w))),
                None => None,
            },
            None => None,
        },
        _ => None,
    }
}

/// A reference to the expression rule.
pub open spec fn expr_ref() -> Box<Node> {
    Box::new(Node::Rule(1))
}

/// A rule's alternatives as (template, weight) pairs, in order.
pub open spec fn alternatives(b: GrammarBranches) -> Seq<(Node, u32)> {
    b.alternates@.map_values(|a: GrammarBranch| (*a.node, a.weight))
}

/// The alternatives of rule `i` of the default grammar:
/// rule 0 `E ::= Triple(C, C, C)`;
/// rule 1 `C ::= A | Add | Mult | Sin | Cos | Exp | Sqrt | Div | MixUnbounded`
/// over `C`, with weights 1, 1, 1, 3, 3, 1, 1, 1, 1;
/// rule 2 `A ::= x | y | Random`, weight 1 each.
pub open spec fn default_alternatives(i: int) -> Seq<(Node, u32)> {
    if i == 0 {
        seq![(Node::Triple(expr_ref(), expr_ref(), expr_ref()), 1u32)]
    } else if i == 1 {
        seq![
            (Node::Rule(2), 1u32),
            (Node::Add(expr_ref(), expr_ref()), 1u32),
            (Node::Mult(expr_ref(), expr_ref()), 1u32),
            (Node::Sin(expr_ref()), 3u32),
            (Node::Cos(expr_ref()), 3u32),
            (Node::Exp(expr_ref()), 1u32),
            (Node::Sqrt(expr_ref()), 1u32),
            (Node::Div(expr_ref(), expr_ref()), 1u32),
            (Node::MixUnbounded(expr_ref(), expr_ref(), expr_ref(), expr_ref()), 1u32),
        ]
    } else {
        seq![(Node::X, 1u32), (Node::Y, 1u32), (Node::Random, 1u32)]
    }
}

/// The denominator of rule `i` of the default grammar: 1, 13 and 3.
pub open spec fn default_total(i: int) -> u32 {
    if i == 0 {
        1
    } else if i == 1 {
        13
    } else {
        3
    }
}

/// `rules` is the default grammar's table.
pub open spec fn is_default_table(rules: Seq<GrammarBranches>) -> bool {
    &&& rules.len() == 3
    &&& forall|i: int|
        0 <= i < 3 ==> alternatives(#[trigger] rules[i]) == default_alternatives(i)
            && rules[i].total == default_total(i)
}

impl GrammarBranches {
    fn new(total: u32) -> (r: Self)
        ensures
            r.total == total,
            r.alternates@.len() == 0,
    {
        GrammarBranches { alternates: Vec::new(), total }
    }

    fn add_alternate(&mut self, node: Node, weight: u32)
        ensures
            final(self).total == old(self).total,
            final(self).alternates@ == old(self).alternates@.push(
                GrammarBranch { node: Box::new(node), weight },
            ),
    {
        self.alternates.push(GrammarBranch { node: Box::new(node), weight });
    }
}

fn rule_ref(i: usize) -> (r: Box<Node>)
    ensures
        *r == Node::Rule(i),
{
    Box::new(Node::Rule(i))
}

/// `E ::= (C, C, C)`
fn entry_rule() -> (r: GrammarBranches)
    ensures
        alternatives(r) == default_alternatives(0),
        r.total == default_total(0),
        entry_rule_at(seq![r], 0),
        r.total > 0,
        r.alternates@.len() > 0,
        forall|j: int| 0 <= j < r.alternates@.len() ==> refs_ok(*(#[trigger] r.alternates@[j]).node, 3),
{
    proof {
        reveal_with_fuel(refs_ok, 2);
        reveal_with_fuel(scalar_template, 2);
    }
    let mut e = GrammarBranches::new(1);
    e.add_alternate(Node::Triple(rule_ref(1), rule_ref(1), rule_ref(1)), 1);
    assert(alternatives(e) =~= default_alternatives(0));
    e
}

/// `C ::= A | Add(C, C) | Mult(C, C) | Sin(C) | Cos(C) | Exp(C) | Sqrt(C)
/// | Div(C, C) | MixUnbounded(C, C, C, C)`, in thirteenths: 1, 1, 1, 3, 3,
/// 1, 1, 1, 1.
fn expression_rule() -> (r: GrammarBranches)
    ensures
        alternatives(r) == default_alternatives(1),
        r.total == default_total(1),
        forall|j: int| 0 <= j < r.alternates@.len() ==> scalar_template(*(#[trigger] r.alternates@[j]).node, 1),
        r.total > 0,
        r.alternates@.len() > 0,
        forall|j: int| 0 <= j < r.alternates@.len() ==> refs_ok(*(#[trigger] r.alternates@[j]).node, 3),
{
    proof {
        reveal_with_fuel(refs_ok, 2);
        reveal_with_fuel(scalar_template, 2);
    }
    let mut c = GrammarBranches::new(13);
    c.add_alternate(Node::Rule(2), 1);
    c.add_alternate(Node::Add(rule_ref(1), rule_ref(1)), 1);
    c.add_alternate(Node::Mult(rule_ref(1), rule_ref(1)), 1);
    c.add_alternate(Node::Sin(rule_ref(1)), 3);
    c.add_alternate(Node::Cos(rule_ref(1)), 3);
    c.add_alternate(Node::Exp(rule_ref(1)), 1);
    c.add_alternate(Node::Sqrt(rule_ref(1)), 1);
    c.add_alternate(Node::Div(rule_ref(1), rule_ref(1)), 1);
    c.add_alternate(
        Node::MixUnbounded(rule_ref(1), rule_ref(1), rule_ref(1), rule_ref(1)),
        1,
    );
    assert(alternatives(c) =~= default_alternatives(1));
    c
}

/// `A ::= x | y | random literal in [-1, 1)`, a third each.
fn atom_rule() -> (r: GrammarBranches)
    ensures
        alternatives(r) == default_alternatives(2),
        r.total == default_total(2),
        forall|j: int| 0 <= j < r.alternates@.len() ==> scalar_template(*(#[trigger] r.alternates@[j]).node, 1),
        r.total > 0,
        r.alternates@.len() > 0,
        forall|j: int| 0 <= j < r.alternates@.len() ==> refs_ok(*(#[trigger] r.alternates@[j]).node, 3),
{
    proof {
        reveal_with_fuel(refs_ok, 2);
    }
    let mut a = GrammarBranches::new(3);
    a.add_alternate(Node::X, 1);
    a.add_alternate(Node::Y, 1);
    a.add_alternate(Node::Random, 1);
    assert(alternatives(a) =~= default_alternatives(2));
    a
}

impl Grammar {
    pub closed spec fn rules(&self) -> Seq<GrammarBranches> {
        self.rules@
    }

    /// The state of the grammar's generator.
    pub closed spec fn state(&self) -> u64 {
        self.rng.state()
    }

    pub open spec fn wf(&self) -> bool {
        rules_wf(self.rules())
    }

    /// A grammar over the given rules, with a generator seeded by `seed`.
    pub fn build(rules: Vec<GrammarBranches>, seed: u64) -> (r: Self)
        ensures
            r.rules() == rules@,
            r.state() == seed,
    {
        Grammar { rules, rng: LinearCongruentialGenerator::new(seed) }
    }

    /// The three-rule grammar: rule 0 is the entry `Triple` of three
    /// expressions, rule 1 an expression, rule 2 an atom.
    pub fn default(seed: u64) -> (r: Self)
        ensures
            r.wf(),
            is_default_table(r.rules()),
            r.rules().len() == 3,
            entry_rule_at(r.rules(), 0),
            scalar_from(r.rules(), 1),
            r.state() == seed,
    {
        let mut rules: Vec<GrammarBranches> = Vec::new();
        let e = entry_rule();
        let c = expression_rule();
        let a = atom_rule();
        rules.push(e);
        rules.push(c);
        rules.push(a);
        assert(rules@[0] == e && rules@[1] == c && rules@[2] == a);
        assert(entry_rule_at(rules@, 0)) by {
            assert(seq![e][0] == e);
        }
        Grammar { rules, rng: LinearCongruentialGenerator::new(seed) }
    }

    /// Expands rule `rule` with a budget of `depth` levels: `None` when the
    /// budget is 0, or when no sampled alternative could be expanded within
    /// it after `MAX_ATTEMPTS` draws.
    pub fn gen_rule(&mut self, rule: usize, depth: u32) -> (r: Option<Box<Node>>)
        requires
            old(self).wf(),
            rule < old(self).rules().len(),
        ensures
            final(self).rules() == old(self).rules(),
            (unboxed(r), final(self).state()) == expand_rule(
                old(self).rules(),
                old(self).state(),
                rule as int,
                depth as nat,
            ),
            scalar_from(old(self).rules(), 1) && entry_rule_at(old(self).rules(), rule as int) && r
                is Some ==> r->0.is_colour_tree(),
            scalar_from(old(self).rules(), 1) && rule >= 1 && r is Some ==> r->0.is_scalar(),
            is_default_table(old(self).rules()) && rule == 2 && r is Some ==> is_atom_result(*r->0),
    {
        proof {
            if is_default_table(self.rules()) && rule == 2 {
                lemma_atom_rule_yields_atoms(self.rules(), self.state(), depth as nat);
            }
            if scalar_from(self.rules(), 1) {
                if entry_rule_at(self.rules(), rule as int) {
                    lemma_entry_expands_to_colour_tree(
                        self.rules(),
                        self.state(),
                        rule as int,
                        depth as nat,
                    );
                }
                if rule >= 1 {
                    lemma_rule_scalar(self.rules(), self.state(), rule as int, depth as nat, 1);
                }
            }
        }
        expand_rule_exec(&self.rules, &mut self.rng, rule, depth)
    }
}

/// Generation is deterministic: two grammars with the same rules and the
/// same generator state expand a rule to structurally equal trees and end
/// in the same state.
pub proof fn lemma_generation_deterministic(g1: Grammar, g2: Grammar, rule: usize, depth: u32)
    requires
        g1.rules() == g2.rules(),
        g1.state() == g2.state(),
    ensures
        expand_rule(g1.rules(), g1.state(), rule as int, depth as nat) == expand_rule(
            g2.rules(),
            g2.state(),
            rule as int,
            depth as nat,
        ),
{
}

} // verus!
