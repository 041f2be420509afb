use vstd::prelude::*;
use crate::node::Node;

verus! {

/// The operators of a scalar tree.
#[derive(Clone, Copy, Debug, PartialEq, Eq, Structural)]
pub enum Op {
    Sqrt,
    Sin,
    Cos,
    Exp,
    Add,
    Mult,
    Div,
    Modulo,
    Mix,
    MixUnbounded,
}

/// One instruction of the stack machine: push an axis or a constant, or
/// pop an operator's operands and push its result.
#[derive(Clone, Copy, Debug, PartialEq, Eq, Structural)]
pub enum Instr {
    PushX,
    PushY,
    PushConst(u32),
    Apply(Op),
}

pub open spec fn arity(op: Op) -> nat {
    match op {
        Op::Sqrt | Op::Sin | Op::Cos | Op::Exp => 1,
        Op::Add | Op::Mult | Op::Div | Op::Modulo => 2,
        Op::Mix | Op::MixUnbounded => 4,
    }
}

/// The value of a scalar tree at `(x, y)` under an interpretation of
/// constants (`k`) and of operators (`f`, given the operand values in
/// order).
pub open spec fn value_of<V>(t: Node, x: V, y: V, k: spec_fn(u32) -> V, f: spec_fn(Op, Seq<V>) -> V) -> V
    decreases t,
{
    match t {
        Node::X => x,
        Node::Y => y,
        Node::Number(b) => k(b),
        Node::Sqrt(a) => f(Op::Sqrt, seq![value_of(*a, x, y, k, f)]),
        Node::Sin(a) => f(Op::Sin, seq![value_of(*a, x, y, k, f)]),
        Node::Cos(a) => f(Op::Cos, seq![value_of(*a, x, y, k, f)]),
        Node::Exp(a) => f(Op::Exp, seq![value_of(*a, x, y, k, f)]),
        Node::Add(a, b) => f(Op::Add, seq![value_of(*a, x, y, k, f), value_of(*b, x, y, k, f)]),
        Node::Mult(a, b) => f(Op::Mult, seq![value_of(*a, x, y, k, f), value_of(*b, x, y, k, f)]),
        Node::Div(a, b) => f(Op::Div, seq![value_of(*a, x, y, k, f), value_of(*b, x, y, k, f)]),
        Node::Modulo(a, b) => f(
            Op::Modulo,
            seq![value_of(*a, x, y, k, f), value_of(*b, x, y, k, f)],
        ),
        Node::Mix(a, b, c, d) => f(
            Op::Mix,
            seq![
                value_of(*a, x, y, k, f),
                value_of(*b, x, y, k, f),
                value_of(*c, x, y, k, f),
                value_of(*d, x, y, k, f),
            ],
        ),
        Node::MixUnbounded(a, b, c, d) => f(
            Op::MixUnbounded,
            seq![
                value_of(*a, x, y, k, f),
                value_of(*b, x, y, k, f),
                value_of(*c, x, y, k, f),
                value_of(*d, x, y, k, f),
            ],
        ),
        _ => x,
    }
}

/// The operator at the root of `t`, if it is an operator node.
pub open spec fn root_op(t: Node) -> Option<Op> {
    match t {
        Node::Sqrt(_) => Some(Op::Sqrt),
        Node::Sin(_) => Some(Op::Sin),
        Node::Cos(_) => Some(Op::Cos),
        Node::Exp(_) => Some(Op::Exp),
        Node::Add(_, _) => Some(Op::Add),
        Node::Mult(_, _) => Some(Op::Mult),
        Node::Div(_, _) => Some(Op::Div),
        Node::Modulo(_, _) => Some(Op::Modulo),
        Node::Mix(_, _, _, _) => Some(Op::Mix),
        Node::MixUnbounded(_, _, _, _) => Some(Op::MixUnbounded),
        _ => None,
    }
}

/// The post-order program of a scalar tree: operands before operators.
pub open spec fn postfix(t: Node) -> Seq<Instr>
    decreases t,
{
    match t {
        Node::X => seq![Instr::PushX],
        Node::Y => seq![Instr::PushY],
        Node::Number(b) => seq![Instr::PushConst(b)],
        Node::Sqrt(a) | Node::Sin(a) | Node::Cos(a) | Node::Exp(a) => postfix(*a).push(
            Instr::Apply(root_op(t)->0),
        ),
        Node::Add(a, b) | Node::Mult(a, b) | Node::Div(a, b) | Node::Modulo(a, b) => (postfix(*a)
            + postfix(*b)).push(Instr::Apply(root_op(t)->0)),
        Node::Mix(a, b, c, d) | Node::MixUnbounded(a, b, c, d) => (postfix(*a) + postfix(*b)
            + postfix(*c) + postfix(*d)).push(Instr::Apply(root_op(t)->0)),
        _ => seq![],
    }
}

/// One machine step on stack `s`; `None` when an operator lacks operands.
pub open spec fn step<V>(
    i: Instr,
    s: Seq<V>,
    x: V,
    y: V,
    k: spec_fn(u32) -> V,
    f: spec_fn(Op, Seq<V>) -> V,
) -> Option<Seq<V>> {
    match i {
        Instr::PushX => Some(s.push(x)),
        Instr::PushY => Some(s.push(y)),
        Instr::PushConst(b) => Some(s.push(k(b))),
        Instr::Apply(op) => {
            let n = arity(op) as int;
            if s.len() < n {
                None
            } else {
                Some(s.subrange(0, s.len() - n).push(f(op, s.subrange(s.len() - n, s.len() as int))))
            }
        },
    }
}

/// Runs a program from stack `s`.
pub open spec fn run<V>(
    p: Seq<Instr>,
    s: Seq<V>,
    x: V,
    y: V,
    k: spec_fn(u32) -> V,
    f: spec_fn(Op, Seq<V>) -> V,
) -> Option<Seq<V>>
    decreases p.len(),
{
    if p.len() == 0 {
        Some(s)
    } else {
        match step(p[0], s, x, y, k, f) {
            None => None,
            Some(s1) => run(p.drop_first(), s1, x, y, k, f),
        }
    }
}

proof fn lemma_run_append<V>(
    p1: Seq<Instr>,
    p2: Seq<Instr>,
    s: Seq<V>,
    x: V,
    y: V,
    k: spec_fn(u32) -> V,
    f: spec_fn(Op, Seq<V>) -> V,
)
    ensures
        run(p1 + p2, s, x, y, k, f) == match run(p1, s, x, y, k, f) {
            None => None,
            Some(s1) => run(p2, s1, x, y, k, f),
        },
    decreases p1.len(),
{
    if p1.len() == 0 {
        assert(p1 + p2 =~= p2);
    } else {
        assert((p1 + p2).drop_first() =~= p1.drop_first() + p2);
        assert((p1 + p2)[0] == p1[0]);
        match step(p1[0], s, x, y, k, f) {
            None => {},
            Some(s1) => {
                lemma_run_append(p1.drop_first(), p2, s1, x, y, k, f);
            },
        }
    }
}

proof fn lemma_apply_last<V>(
    op: Op,
    s: Seq<V>,
    args: Seq<V>,
    x: V,
    y: V,
    k: spec_fn(u32) -> V,
    f: spec_fn(Op, Seq<V>) -> V,
)
    requires
        args.len() == arity(op),
    ensures
        run(seq![Instr::Apply(op)], s + args, x, y, k, f) == Some(s.push(f(op, args))),
{
    let t = s + args;
    let n = arity(op) as int;
    assert(t.subrange(0, t.len() - n) =~= s);
    assert(t.subrange(t.len() - n, t.len() as int) =~= args);
    let p = seq![Instr::Apply(op)];
    assert(p[0] == Instr::Apply(op));
    assert(p.drop_first() =~= Seq::<Instr>::empty());
    let s1 = s.push(f(op, args));
    assert(step(p[0], t, x, y, k, f) == Some(s1));
    assert(run(p.drop_first(), s1, x, y, k, f) == Some(s1));
}

/// The stack machine agrees with the tree: for every interpretation of
/// constants and operators, running the post-order program of a scalar
/// tree pushes exactly the tree's value on top of the stack it starts
/// from. In particular a machine that gives each operator the tree
/// evaluator's numeric meaning returns what the evaluator returns.
pub proof fn lemma_postfix_agrees<V>(
    t: Node,
    s: Seq<V>,
    x: V,
    y: V,
    k: spec_fn(u32) -> V,
    f: spec_fn(Op, Seq<V>) -> V,
)
    requires
        t.is_scalar(),
    ensures
        run(postfix(t), s, x, y, k, f) == Some(s.push(value_of(t, x, y, k, f))),
    decreases t,
{
    let v = |n: Node| value_of(n, x, y, k, f);
    match t {
        Node::X | Node::Y | Node::Number(_) => {
            let p = postfix(t);
            assert(p.drop_first() =~= Seq::<Instr>::empty());
            let s1 = s.push(value_of(t, x, y, k, f));
            assert(step(p[0], s, x, y, k, f) == Some(s1));
            assert(run(p.drop_first(), s1, x, y, k, f) == Some(s1));
        },
        Node::Sqrt(a) | Node::Sin(a) | Node::Cos(a) | Node::Exp(a) => {
            let op = root_op(t)->0;
            lemma_postfix_agrees(*a, s, x, y, k, f);
            lemma_run_append(postfix(*a), seq![Instr::Apply(op)], s, x, y, k, f);
            assert(postfix(t) =~= postfix(*a) + seq![Instr::Apply(op)]);
            assert(s.push(v(*a)) =~= s + seq![v(*a)]);
            lemma_apply_last(op, s, seq![v(*a)], x, y, k, f);
        },
        Node::Add(a, b) | Node::Mult(a, b) | Node::Div(a, b) | Node::Modulo(a, b) => {
            let op = root_op(t)->0;
            lemma_postfix_agrees(*a, s, x, y, k, f);
            lemma_postfix_agrees(*b, s.push(v(*a)), x, y, k, f);
            lemma_run_append(postfix(*a), postfix(*b), s, x, y, k, f);
            lemma_run_append(postfix(*a) + postfix(*b), seq![Instr::Apply(op)], s, x, y, k, f);
            assert(postfix(t) =~= postfix(*a) + postfix(*b) + seq![Instr::Apply(op)]);
            assert(s.push(v(*a)).push(v(*b)) =~= s + seq![v(*a), v(*b)]);
            lemma_apply_last(op, s, seq![v(*a), v(*b)], x, y, k, f);
        },
        Node::Mix(a, b, c, d) | Node::MixUnbounded(a, b, c, d) => {
            let op = root_op(t)->0;
            let s1 = s.push(v(*a));
            let s2 = s1.push(v(*b));
            let s3 = s2.push(v(*c));
            lemma_postfix_agrees(*a, s, x, y, k, f);
            lemma_postfix_agrees(*b, s1, x, y, k, f);
            lemma_postfix_agrees(*c, s2, x, y, k, f);
            lemma_postfix_agrees(*d, s3, x, y, k, f);
            lemma_run_append(postfix(*a), postfix(*b), s, x, y, k, f);
            lemma_run_append(postfix(*a) + postfix(*b), postfix(*c), s, x, y, k, f);
            lemma_run_append(postfix(*a) + postfix(*b) + postfix(*c), postfix(*d), s, x, y, k, f);
            lemma_run_append(
                postfix(*a) + postfix(*b) + postfix(*c) + postfix(*d),
                seq![Instr::Apply(op)],
                s,
                x,
                y,
                k,
                f,
            );
            assert(postfix(t) =~= postfix(*a) + postfix(*b) + postfix(*c) + postfix(*d) + seq![
                Instr::Apply(op),
            ]);
            assert(s3.push(v(*d)) =~= s + seq![v(*a), v(*b), v(*c), v(*d)]);
            lemma_apply_last(op, s, seq![v(*a), v(*b), v(*c), v(*d)], x, y, k, f);
        },
        _ => {},
    }
}

fn op_of(t: &Node) -> (r: Op)
    requires
        root_op(*t) is Some,
    ensures
        r == root_op(*t)->0,
{
    match t {
        Node::Sqrt(_) => Op::Sqrt,
        Node::Sin(_) => Op::Sin,
        Node::Cos(_) => Op::Cos,
        Node::Exp(_) => Op::Exp,
        Node::Add(_, _) => Op::Add,
        Node::Mult(_, _) => Op::Mult,
        Node::Div(_, _) => Op::Div,
        Node::Modulo(_, _) => Op::Modulo,
        Node::Mix(_, _, _, _) => Op::Mix,
        _ => Op::MixUnbounded,
    }
}

fn emit_postfix(t: &Node, out: &mut Vec<Instr>)
    requires
        t.is_scalar(),
    ensures
        final(out)@ == old(out)@ + postfix(*t),
    decreases t,
{
    match t {
        Node::X => out.push(Instr::PushX),
        Node::Y => out.push(Instr::PushY),
        Node::Number(b) => out.push(Instr::PushConst(*b)),
        Node::Sqrt(a) | Node::Sin(a) | Node::Cos(a) | Node::Exp(a) => {
            emit_postfix(a, out);
            out.push(Instr::Apply(op_of(t)));
        },
        Node::Add(a, b) | Node::Mult(a, b) | Node::Div(a, b) | Node::Modulo(a, b) => {
            emit_postfix(a, out);
            emit_postfix(b, out);
            out.push(Instr::Apply(op_of(t)));
        },
        Node::Mix(a, b, c, d) | Node::MixUnbounded(a, b, c, d) => {
            emit_postfix(a, out);
            emit_postfix(b, out);
            emit_postfix(c, out);
            emit_postfix(d, out);
            out.push(Instr::Apply(op_of(t)));
        },
        _ => {},
    }
    assert(final(out)@ =~= old(out)@ + postfix(*t));
}

/// Linearises a scalar tree into its post-order stack program.
pub fn compile_postfix(t: &Node) -> (r: Vec<Instr>)
    requires
        t.is_scalar(),
    ensures
        r@ == postfix(*t),
{
    let mut out: Vec<Instr> = Vec::new();
    emit_postfix(t, &mut out);
    assert(out@ =~= postfix(*t));
    out
}

} // verus!
