use vstd::prelude::*;
use crate::node::Node;
use crate::tokens::TokenStream;
use vstd::string::StringExecFns;

verus! {

/// Free of placeholders: no `Rule` and no `Random` anywhere in the tree.
pub open spec fn printable(t: Node) -> bool
    decreases t,
{
    match t {
        Node::X | Node::Y | Node::Number(_) => true,
        Node::Random | Node::Rule(_) => false,
        Node::Sqrt(a) | Node::Sin(a) | Node::Cos(a) | Node::Exp(a) => printable(*a),
        Node::Add(a, b) | Node::Mult(a, b) | Node::Div(a, b) | Node::Modulo(a, b) => printable(*a)
            && printable(*b),
        Node::Triple(a, b, c) => printable(*a) && printable(*b) && printable(*c),
        Node::Mix(a, b, c, d) | Node::MixUnbounded(a, b, c, d) => printable(*a) && printable(*b)
            && printable(*c) && printable(*d),
    }
}

/// The constants of a tree, in prefix order.
pub open spec fn constants_of(t: Node) -> Seq<u32>
    decreases t,
{
    match t {
        Node::Number(v) => seq![v],
        Node::Sqrt(a) | Node::Sin(a) | Node::Cos(a) | Node::Exp(a) => constants_of(*a),
        Node::Add(a, b) | Node::Mult(a, b) | Node::Div(a, b) | Node::Modulo(a, b) => constants_of(
            *a,
        ) + constants_of(*b),
        Node::Triple(a, b, c) => constants_of(*a) + constants_of(*b) + constants_of(*c),
        Node::Mix(a, b, c, d) | Node::MixUnbounded(a, b, c, d) => constants_of(*a) + constants_of(
            *b,
        ) + constants_of(*c) + constants_of(*d),
        _ => seq![],
    }
}

/// The keyword of an operator or `Triple` node.
pub open spec fn keyword(t: Node) -> Seq<char> {
    match t {
        Node::Sqrt(_) => "sqrt"@,
        Node::Sin(_) => "sin"@,
        Node::Cos(_) => "cos"@,
        Node::Exp(_) => "exp"@,
        Node::Add(_, _) => "add"@,
        Node::Mult(_, _) => "mult"@,
        Node::Div(_, _) => "div"@,
        Node::Modulo(_, _) => "modulo"@,
        Node::Triple(_, _, _) => "triple"@,
        Node::Mix(_, _, _, _) => "mix"@,
        _ => "mixu"@,
    }
}

/// The children of a node, in order.
pub open spec fn children(t: Node) -> Seq<Node> {
    match t {
        Node::Sqrt(a) | Node::Sin(a) | Node::Cos(a) | Node::Exp(a) => seq![*a],
        Node::Add(a, b) | Node::Mult(a, b) | Node::Div(a, b) | Node::Modulo(a, b) => seq![*a, *b],
        Node::Triple(a, b, c) => seq![*a, *b, *c],
        Node::Mix(a, b, c, d) | Node::MixUnbounded(a, b, c, d) => seq![*a, *b, *c, *d],
        _ => seq![],
    }
}

/// The tokens of a tree, whose constants are written as `lits[k]`,
/// `lits[k + 1]`, ... in prefix order: `x`, `y`, `const_ ( <literal> )`,
/// or a keyword followed by its operands between `(` and `)`.
pub open spec fn tokens_of(t: Node, lits: Seq<Seq<char>>, k: int) -> Seq<Seq<char>>
    decreases t,
{
    let open = seq![keyword(t), "("@];
    let close = seq![")"@];
    match t {
        Node::X => seq!["x"@],
        Node::Y => seq!["y"@],
        Node::Number(_) => seq!["const_"@, "("@, lits[k], ")"@],
        Node::Random | Node::Rule(_) => seq![],
        Node::Sqrt(a) | Node::Sin(a) | Node::Cos(a) | Node::Exp(a) => open + tokens_of(*a, lits, k)
            + close,
        Node::Add(a, b) | Node::Mult(a, b) | Node::Div(a, b) | Node::Modulo(a, b) => {
            let ka = k + constants_of(*a).len();
            open + tokens_of(*a, lits, k) + tokens_of(*b, lits, ka) + close
        },
        Node::Triple(a, b, c) => {
            let ka = k + constants_of(*a).len();
            let kb = ka + constants_of(*b).len();
            open + tokens_of(*a, lits, k) + tokens_of(*b, lits, ka) + tokens_of(*c, lits, kb) + close
        },
        Node::Mix(a, b, c, d) | Node::MixUnbounded(a, b, c, d) => {
            let ka = k + constants_of(*a).len();
            let kb = ka + constants_of(*b).len();
            let kc = kb + constants_of(*c).len();
            open + tokens_of(*a, lits, k) + tokens_of(*b, lits, ka) + tokens_of(*c, lits, kb)
                + tokens_of(*d, lits, kc) + close
        },
    }
}

/// The number of operands that a keyword takes; 0 for any other word.
pub open spec fn keyword_arity(w: Seq<char>) -> nat {
    if w == "sqrt"@ || w == "sin"@ || w == "cos"@ || w == "exp"@ {
        1
    } else if w == "add"@ || w == "mult"@ || w == "div"@ || w == "modulo"@ {
        2
    } else if w == "triple"@ {
        3
    } else if w == "mix"@ || w == "mixu"@ {
        4
    } else {
        0
    }
}

/// The node that keyword `w` makes of its operands.
pub open spec fn make_node(w: Seq<char>, kids: Seq<Node>) -> Node {
    if w == "sqrt"@ {
        Node::Sqrt(Box::new(kids[0]))
    } else if w == "sin"@ {
        Node::Sin(Box::new(kids[0]))
    } else if w == "cos"@ {
        Node::Cos(Box::new(kids[0]))
    } else if w == "exp"@ {
        Node::Exp(Box::new(kids[0]))
    } else if w == "add"@ {
        Node::Add(Box::new(kids[0]), Box::new(kids[1]))
    } else if w == "mult"@ {
        Node::Mult(Box::new(kids[0]), Box::new(kids[1]))
    } else if w == "div"@ {
        Node::Div(Box::new(kids[0]), Box::new(kids[1]))
    } else if w == "modulo"@ {
        Node::Modulo(Box::new(kids[0]), Box::new(kids[1]))
    } else if w == "triple"@ {
        Node::Triple(Box::new(kids[0]), Box::new(kids[1]), Box::new(kids[2]))
    } else if w == "mix"@ {
        Node::Mix(Box::new(kids[0]), Box::new(kids[1]), Box::new(kids[2]), Box::new(kids[3]))
    } else {
        Node::MixUnbounded(
            Box::new(kids[0]),
            Box::new(kids[1]),
            Box::new(kids[2]),
            Box::new(kids[3]),
        )
    }
}

/// Parses one tree from token `i` on, taking its constants from `bits`
/// starting at `k`: the tree, the index after its last operand token, and
/// the index of the next constant; `None` where the tokens do not begin
/// with a tree. Parentheses are skipped wherever they stand; `const_`
/// skips the token after it and reads the next one as its literal; a
/// keyword is followed by as many trees as it takes operands.
pub open spec fn parse_at(toks: Seq<Seq<char>>, i: int, bits: Seq<u32>, k: int) -> Option<
    (Node, int, int),
>
    decreases toks.len() - i, 0nat,
{
    if i < 0 || i >= toks.len() {
        None
    } else {
        let w = toks[i];
        if w == "("@ || w == ")"@ {
            parse_at(toks, i + 1, bits, k)
        } else if w == "x"@ {
            Some((Node::X, i + 1, k))
        } else if w == "y"@ {
            Some((Node::Y, i + 1, k))
        } else if w == "const_"@ {
            if i + 2 < toks.len() && 0 <= k < bits.len() {
                Some((Node::Number(bits[k]), i + 3, k + 1))
            } else {
                None
            }
        } else if keyword_arity(w) > 0 {
            match parse_list(toks, i + 1, bits, k, keyword_arity(w)) {
                Some((kids, j, k2)) => Some((make_node(w, kids), j, k2)),
                None => None,
            }
        } else {
            None
        }
    }
}

/// Parses `n` sibling trees one after the other.
pub open spec fn parse_list(toks: Seq<Seq<char>>, i: int, bits: Seq<u32>, k: int, n: nat) -> Option<
    (Seq<Node>, int, int),
>
    decreases toks.len() - i, n + 1,
{
    if n == 0 {
        Some((seq![], i, k))
    } else if i < 0 || i >= toks.len() {
        None
    } else {
        match parse_at(toks, i, bits, k) {
            Some((t, i1, k1)) => if i1 <= i || i1 > toks.len() {
                None
            } else {
                match parse_list(toks, i1, bits, k1, (n - 1) as nat) {
                    Some((rest, j, k2)) => Some((seq![t] + rest, j, k2)),
                    None => None,
                }
            },
            None => None,
        }
    }
}

proof fn lemma_window<A>(s: Seq<A>, i: int, w: Seq<A>, a: int, b: int)
    requires
        0 <= i,
        i + w.len() <= s.len(),
        s.subrange(i, i + w.len()) == w,
        0 <= a <= b <= w.len(),
    ensures
        s.subrange(i + a, i + b) == w.subrange(a, b),
        a < w.len() ==> s[i + a] == w[a],
{
    assert(s.subrange(i + a, i + b) =~= w.subrange(a, b));
    if a < w.len() {
        assert(s.subrange(i, i + w.len())[a] == s[i + a]);
    }
}

proof fn lemma_words()
    ensures
        "x"@.len() == 1,
        "x"@[0] == 'x',
        "y"@.len() == 1,
        "y"@[0] == 'y',
        "const_"@.len() == 6,
        "const_"@[0] == 'c',
        "const_"@[1] == 'o',
        "("@.len() == 1,
        "("@[0] == '\x28',
        ")"@.len() == 1,
        ")"@[0] == '\x29',
        "sqrt"@.len() == 4,
        "sqrt"@[0] == 's',
        "sqrt"@[1] == 'q',
        "sin"@.len() == 3,
        "sin"@[0] == 's',
        "sin"@[1] == 'i',
        "cos"@.len() == 3,
        "cos"@[0] == 'c',
        "cos"@[1] == 'o',
        "exp"@.len() == 3,
        "exp"@[0] == 'e',
        "exp"@[1] == 'x',
        "add"@.len() == 3,
        "add"@[0] == 'a',
        "add"@[1] == 'd',
        "mult"@.len() == 4,
        "mult"@[0] == 'm',
        "mult"@[1] == 'u',
        "div"@.len() == 3,
        "div"@[0] == 'd',
        "div"@[1] == 'i',
        "modulo"@.len() == 6,
        "modulo"@[0] == 'm',
        "modulo"@[1] == 'o',
        "triple"@.len() == 6,
        "triple"@[0] == 't',
        "triple"@[1] == 'r',
        "mix"@.len() == 3,
        "mix"@[0] == 'm',
        "mix"@[1] == 'i',
        "mixu"@.len() == 4,
        "mixu"@[0] == 'm',
        "mixu"@[1] == 'i',
{
    reveal_strlit("x");
    reveal_strlit("y");
    reveal_strlit("const_");
    reveal_strlit("(");
    reveal_strlit(")");
    reveal_strlit("sqrt");
    reveal_strlit("sin");
    reveal_strlit("cos");
    reveal_strlit("exp");
    reveal_strlit("add");
    reveal_strlit("mult");
    reveal_strlit("div");
    reveal_strlit("modulo");
    reveal_strlit("triple");
    reveal_strlit("mix");
    reveal_strlit("mixu");
}

proof fn lemma_keyword(t: Node)
    requires
        children(t).len() > 0,
    ensures
        keyword(t) != "x"@,
        keyword(t) != "y"@,
        keyword(t) != "const_"@,
        keyword(t) != "("@,
        keyword(t) != ")"@,
        keyword_arity(keyword(t)) == children(t).len(),
        make_node(keyword(t), children(t)) == t,
{
    lemma_words();
}

proof fn lemma_keyword_not_const(t: Node)
    ensures
        keyword(t) != "const_"@,
{
    lemma_words();
}

proof fn lemma_parens()
    ensures
        "("@ != "const_"@,
        ")"@ != "const_"@,
{
    lemma_words();
}

proof fn lemma_tokens_nonempty(t: Node, lits: Seq<Seq<char>>, k: int)
    requires
        printable(t),
    ensures
        tokens_of(t, lits, k).len() >= 1,
{
    reveal(tokens_of);
}

/// The number of `)` tokens that end the tokens of a tree: one for a
/// constant, one more than its last operand for an operator or `Triple`.
pub open spec fn closers(t: Node) -> nat
    decreases t,
{
    match t {
        Node::Number(_) => 1,
        Node::Sqrt(a) | Node::Sin(a) | Node::Cos(a) | Node::Exp(a) => 1 + closers(*a),
        Node::Add(_, b) | Node::Mult(_, b) | Node::Div(_, b) | Node::Modulo(_, b) => 1 + closers(
            *b,
        ),
        Node::Triple(_, _, c) => 1 + closers(*c),
        Node::Mix(_, _, _, d) | Node::MixUnbounded(_, _, _, d) => 1 + closers(*d),
        _ => 0,
    }
}

proof fn lemma_closers(t: Node, lits: Seq<Seq<char>>, k: int)
    requires
        printable(t),
    ensures
        closers(t) < tokens_of(t, lits, k).len(),
        forall|q: int|
            tokens_of(t, lits, k).len() - closers(t) <= q < tokens_of(t, lits, k).len() ==> #[trigger] tokens_of(
                t,
                lits,
                k,
            )[q] == ")"@,
    decreases t,
{
    reveal(tokens_of);
    let tt = tokens_of(t, lits, k);
    let last: Option<(Node, int)> = match t {
        Node::Sqrt(a) | Node::Sin(a) | Node::Cos(a) | Node::Exp(a) => Some((*a, k)),
        Node::Add(a, b) | Node::Mult(a, b) | Node::Div(a, b) | Node::Modulo(a, b) => Some(
            (*b, k + constants_of(*a).len()),
        ),
        Node::Triple(a, b, c) => Some((*c, k + constants_of(*a).len() + constants_of(*b).len())),
        Node::Mix(a, b, c, d) | Node::MixUnbounded(a, b, c, d) => Some(
            (
                *d,
                k + constants_of(*a).len() + constants_of(*b).len() + constants_of(*c).len(),
            ),
        ),
        _ => None,
    };
    match last {
        Some((c, kc)) => {
            lemma_closers(c, lits, kc);
            lemma_tokens_nonempty(c, lits, kc);
            let tc = tokens_of(c, lits, kc);
            let pre = tt.len() - 1 - tc.len();
            assert(tt.subrange(pre, pre + tc.len()) =~= tc);
            assert forall|q: int| tt.len() - closers(t) <= q < tt.len() implies #[trigger] tt[q]
                == ")"@ by {
                if q < tt.len() - 1 {
                    assert(tt.subrange(pre, pre + tc.len())[q - pre] == tt[q]);
                    assert(tc[q - pre] == ")"@);
                }
            }
        },
        None => {},
    }
}

/// Parentheses before a tree do not change how it is parsed.
proof fn lemma_skip_parens(toks: Seq<Seq<char>>, j: int, m: int, bits: Seq<u32>, k: int)
    requires
        0 <= j <= m <= toks.len(),
        forall|q: int| j <= q < m ==> toks[q] == "("@ || toks[q] == ")"@,
    ensures
        parse_at(toks, j, bits, k) == parse_at(toks, m, bits, k),
    decreases m - j,
{
    if j < m {
        lemma_skip_parens(toks, j + 1, m, bits, k);
    }
}

/// Parsing the tokens of a placeholder-free tree, with its constants
/// supplied in prefix order, gives back the tree and stops after its last
/// operand, before only `)` tokens, whatever follows them and whatever its
/// literal tokens are.
pub proof fn lemma_parse_tokens_of(
    t: Node,
    lits: Seq<Seq<char>>,
    k: int,
    toks: Seq<Seq<char>>,
    i: int,
    bits: Seq<u32>,
    kb: int,
)
    requires
        printable(t),
        0 <= i,
        i + tokens_of(t, lits, k).len() <= toks.len(),
        toks.subrange(i, i + tokens_of(t, lits, k).len()) == tokens_of(t, lits, k),
        0 <= kb,
        kb + constants_of(t).len() <= bits.len(),
        bits.subrange(kb, kb + constants_of(t).len()) == constants_of(t),
    ensures
        parse_at(toks, i, bits, kb) == Some(
            (t, i + tokens_of(t, lits, k).len() - closers(t), kb + constants_of(t).len()),
        ),
        closers(t) < tokens_of(t, lits, k).len(),
        forall|q: int|
            i + tokens_of(t, lits, k).len() - closers(t) <= q < i + tokens_of(t, lits, k).len()
                ==> #[trigger] toks[q] == ")"@,
    decreases t, 2nat,
{
    lemma_words();
    let tt = tokens_of(t, lits, k);
    lemma_closers(t, lits, k);
    assert forall|q: int|
        i + tt.len() - closers(t) <= q < i + tt.len() implies #[trigger] toks[q] == ")"@ by {
        assert(toks.subrange(i, i + tt.len())[q - i] == toks[q]);
        assert(tt[q - i] == ")"@);
    }
    reveal(tokens_of);
    match t {
        Node::X | Node::Y => {
            lemma_window(toks, i, tt, 0, 1);
        },
        Node::Number(v) => {
            lemma_window(toks, i, tt, 0, 1);
            assert(bits.subrange(kb, kb + 1)[0] == bits[kb]);
        },
        Node::Random | Node::Rule(_) => {},
        _ => {
            lemma_keyword(t);
            lemma_window(toks, i, tt, 0, 1);
            lemma_parse_operands(t, lits, k, toks, i, bits, kb);
        },
    }
}

proof fn lemma_parse_child(
    c: Node,
    lits: Seq<Seq<char>>,
    kc: int,
    toks: Seq<Seq<char>>,
    j: int,
    bits: Seq<u32>,
    kbc: int,
    tt: Seq<Seq<char>>,
    i: int,
    off: int,
    cs: Seq<u32>,
    kb: int,
    coff: int,
)
    requires
        printable(c),
        0 <= i,
        i + tt.len() <= toks.len(),
        toks.subrange(i, i + tt.len()) == tt,
        0 <= off,
        off + tokens_of(c, lits, kc).len() <= tt.len(),
        tt.subrange(off, off + tokens_of(c, lits, kc).len()) == tokens_of(c, lits, kc),
        j == i + off,
        0 <= kb,
        kb + cs.len() <= bits.len(),
        bits.subrange(kb, kb + cs.len()) == cs,
        0 <= coff,
        coff + constants_of(c).len() <= cs.len(),
        cs.subrange(coff, coff + constants_of(c).len()) == constants_of(c),
        kbc == kb + coff,
    ensures
        parse_at(toks, j, bits, kbc) == Some(
            (c, j + tokens_of(c, lits, kc).len() - closers(c), kbc + constants_of(c).len()),
        ),
        closers(c) < tokens_of(c, lits, kc).len(),
        forall|q: int|
            j + tokens_of(c, lits, kc).len() - closers(c) <= q < j + tokens_of(c, lits, kc).len()
                ==> #[trigger] toks[q] == ")"@,
    decreases c, 3nat,
{
    let n = tokens_of(c, lits, kc).len() as int;
    lemma_window(toks, i, tt, off, off + n);
    let m = constants_of(c).len() as int;
    lemma_window(bits, kb, cs, coff, coff + m);
    lemma_parse_tokens_of(c, lits, kc, toks, j, bits, kbc);
}

proof fn lemma_parse_operands(
    t: Node,
    lits: Seq<Seq<char>>,
    k: int,
    toks: Seq<Seq<char>>,
    i: int,
    bits: Seq<u32>,
    kb: int,
)
    requires
        printable(t),
        children(t).len() > 0,
        0 <= i,
        i + tokens_of(t, lits, k).len() <= toks.len(),
        toks.subrange(i, i + tokens_of(t, lits, k).len()) == tokens_of(t, lits, k),
        0 <= kb,
        kb + constants_of(t).len() <= bits.len(),
        bits.subrange(kb, kb + constants_of(t).len()) == constants_of(t),
    ensures
        parse_list(toks, i + 1, bits, kb, children(t).len()) == Some(
            (children(t), i + tokens_of(t, lits, k).len() - closers(t), kb + constants_of(t).len()),
        ),
    decreases t, 1nat,
{
    match t {
        Node::Sqrt(_) | Node::Sin(_) | Node::Cos(_) | Node::Exp(_) => lemma_parse_unary(t, lits, k, toks, i, bits, kb),
        Node::Add(_, _) | Node::Mult(_, _) | Node::Div(_, _) | Node::Modulo(_, _) => lemma_parse_binary(t, lits, k, toks, i, bits, kb),
        Node::Triple(_, _, _) => lemma_parse_ternary(t, lits, k, toks, i, bits, kb),
        Node::Mix(_, _, _, _) | Node::MixUnbounded(_, _, _, _) => lemma_parse_quaternary(t, lits, k, toks, i, bits, kb),
        _ => {},
    }
}

#[verifier::rlimit(100)]
#[verifier::spinoff_prover]
proof fn lemma_parse_unary(
    t: Node,
    lits: Seq<Seq<char>>,
    k: int,
    toks: Seq<Seq<char>>,
    i: int,
    bits: Seq<u32>,
    kb: int,
)
    requires
        printable(t),
        t is Sqrt || t is Sin || t is Cos || t is Exp,
        0 <= i,
        i + tokens_of(t, lits, k).len() <= toks.len(),
        toks.subrange(i, i + tokens_of(t, lits, k).len()) == tokens_of(t, lits, k),
        0 <= kb,
        kb + constants_of(t).len() <= bits.len(),
        bits.subrange(kb, kb + constants_of(t).len()) == constants_of(t),
    ensures
        parse_list(toks, i + 1, bits, kb, children(t).len()) == Some(
            (children(t), i + tokens_of(t, lits, k).len() - closers(t), kb + constants_of(t).len()),
        ),
    decreases t, 0nat,
{
    lemma_parens();
    let tt = tokens_of(t, lits, k);
    match t {
        Node::Sqrt(a) | Node::Sin(a) | Node::Cos(a) | Node::Exp(a) => {
            let cs = constants_of(t);
            let k0 = k;
            let t0 = tokens_of(*a, lits, k0);
            let c0 = constants_of(*a);
            let o0: int = 2;
            let p0: int = 0;
            assert(tt == seq![keyword(t), "("@] + t0 + seq![")"@]) by {
                reveal(tokens_of);
            }
            assert(cs == c0);
            lemma_window(toks, i, tt, 1, 2);
            assert(tt.subrange(o0, o0 + t0.len()) =~= t0);
            assert(cs.subrange(p0, p0 + c0.len()) =~= c0);
            lemma_parse_child(*a, lits, k0, toks, i + o0, bits, kb + p0, tt, i, o0, cs, kb, p0);
            let e0: int = i + o0 + t0.len() - closers(*a);
            let kend: int = kb + p0 + c0.len();
            lemma_skip_parens(toks, i + 1, i + o0, bits, kb + p0);
            assert(parse_list(toks, e0, bits, kend, 0) == Some((Seq::<Node>::empty(), e0, kend)));
            let rest0 = seq![*a] + Seq::<Node>::empty();
            assert(parse_list(toks, i + 1, bits, kb + p0, 1) == Some((rest0, e0, kend)));
            assert(rest0 =~= children(t));
            assert(children(t).len() == 1);
            assert(kend == kb + constants_of(t).len());
        },
        _ => {},
    }
}

#[verifier::rlimit(100)]
#[verifier::spinoff_prover]
proof fn lemma_parse_binary(
    t: Node,
    lits: Seq<Seq<char>>,
    k: int,
    toks: Seq<Seq<char>>,
    i: int,
    bits: Seq<u32>,
    kb: int,
)
    requires
        printable(t),
        t is Add || t is Mult || t is Div || t is Modulo,
        0 <= i,
        i + tokens_of(t, lits, k).len() <= toks.len(),
        toks.subrange(i, i + tokens_of(t, lits, k).len()) == tokens_of(t, lits, k),
        0 <= kb,
        kb + constants_of(t).len() <= bits.len(),
        bits.subrange(kb, kb + constants_of(t).len()) == constants_of(t),
    ensures
        parse_list(toks, i + 1, bits, kb, children(t).len()) == Some(
            (children(t), i + tokens_of(t, lits, k).len() - closers(t), kb + constants_of(t).len()),
        ),
    decreases t, 0nat,
{
    lemma_parens();
    let tt = tokens_of(t, lits, k);
    match t {
        Node::Add(a, b) | Node::Mult(a, b) | Node::Div(a, b) | Node::Modulo(a, b) => {
            let cs = constants_of(t);
            let k0 = k;
            let t0 = tokens_of(*a, lits, k0);
            let c0 = constants_of(*a);
            let o0: int = 2;
            let p0: int = 0;
            let k1 = k0 + c0.len();
            let t1 = tokens_of(*b, lits, k1);
            let c1 = constants_of(*b);
            let o1: int = o0 + t0.len();
            let p1: int = p0 + c0.len();
            assert(tt == seq![keyword(t), "("@] + t0 + t1 + seq![")"@]) by {
                reveal(tokens_of);
            }
            assert(cs == c0 + c1);
            lemma_window(toks, i, tt, 1, 2);
            assert(tt.subrange(o0, o0 + t0.len()) =~= t0);
            assert(cs.subrange(p0, p0 + c0.len()) =~= c0);
            lemma_parse_child(*a, lits, k0, toks, i + o0, bits, kb + p0, tt, i, o0, cs, kb, p0);
            let e0: int = i + o0 + t0.len() - closers(*a);
            assert(tt.subrange(o1, o1 + t1.len()) =~= t1);
            assert(cs.subrange(p1, p1 + c1.len()) =~= c1);
            lemma_parse_child(*b, lits, k1, toks, i + o1, bits, kb + p1, tt, i, o1, cs, kb, p1);
            let e1: int = i + o1 + t1.len() - closers(*b);
            let kend: int = kb + p1 + c1.len();
            lemma_skip_parens(toks, i + 1, i + o0, bits, kb + p0);
            lemma_skip_parens(toks, e0, i + o1, bits, kb + p1);
            assert(parse_list(toks, e1, bits, kend, 0) == Some((Seq::<Node>::empty(), e1, kend)));
            let rest1 = seq![*b] + Seq::<Node>::empty();
            assert(parse_list(toks, e0, bits, kb + p1, 1) == Some((rest1, e1, kend)));
            let rest0 = seq![*a] + rest1;
            assert(parse_list(toks, i + 1, bits, kb + p0, 2) == Some((rest0, e1, kend)));
            assert(rest0 =~= children(t));
            assert(children(t).len() == 2);
            assert(kend == kb + constants_of(t).len());
        },
        _ => {},
    }
}

#[verifier::rlimit(100)]
#[verifier::spinoff_prover]
proof fn lemma_parse_ternary(
    t: Node,
    lits: Seq<Seq<char>>,
    k: int,
    toks: Seq<Seq<char>>,
    i: int,
    bits: Seq<u32>,
    kb: int,
)
    requires
        printable(t),
        t is Triple,
        0 <= i,
        i + tokens_of(t, lits, k).len() <= toks.len(),
        toks.subrange(i, i + tokens_of(t, lits, k).len()) == tokens_of(t, lits, k),
        0 <= kb,
        kb + constants_of(t).len() <= bits.len(),
        bits.subrange(kb, kb + constants_of(t).len()) == constants_of(t),
    ensures
        parse_list(toks, i + 1, bits, kb, children(t).len()) == Some(
            (children(t), i + tokens_of(t, lits, k).len() - closers(t), kb + constants_of(t).len()),
        ),
    decreases t, 0nat,
{
    lemma_parens();
    let tt = tokens_of(t, lits, k);
    match t {
        Node::Triple(a, b, c) => {
            let cs = constants_of(t);
            let k0 = k;
            let t0 = tokens_of(*a, lits, k0);
            let c0 = constants_of(*a);
            let o0: int = 2;
            let p0: int = 0;
            let k1 = k0 + c0.len();
            let t1 = tokens_of(*b, lits, k1);
            let c1 = constants_of(*b);
            let o1: int = o0 + t0.len();
            let p1: int = p0 + c0.len();
            let k2 = k1 + c1.len();
            let t2 = tokens_of(*c, lits, k2);
            let c2 = constants_of(*c);
            let o2: int = o1 + t1.len();
            let p2: int = p1 + c1.len();
            assert(tt == seq![keyword(t), "("@] + t0 + t1 + t2 + seq![")"@]) by {
                reveal(tokens_of);
            }
            assert(cs == c0 + c1 + c2);
            lemma_window(toks, i, tt, 1, 2);
            assert(tt.subrange(o0, o0 + t0.len()) =~= t0);
            assert(cs.subrange(p0, p0 + c0.len()) =~= c0);
            lemma_parse_child(*a, lits, k0, toks, i + o0, bits, kb + p0, tt, i, o0, cs, kb, p0);
            let e0: int = i + o0 + t0.len() - closers(*a);
            assert(tt.subrange(o1, o1 + t1.len()) =~= t1);
            assert(cs.subrange(p1, p1 + c1.len()) =~= c1);
            lemma_parse_child(*b, lits, k1, toks, i + o1, bits, kb + p1, tt, i, o1, cs, kb, p1);
            let e1: int = i + o1 + t1.len() - closers(*b);
            assert(tt.subrange(o2, o2 + t2.len()) =~= t2);
            assert(cs.subrange(p2, p2 + c2.len()) =~= c2);
            lemma_parse_child(*c, lits, k2, toks, i + o2, bits, kb + p2, tt, i, o2, cs, kb, p2);
            let e2: int = i + o2 + t2.len() - closers(*c);
            let kend: int = kb + p2 + c2.len();
            lemma_skip_parens(toks, i + 1, i + o0, bits, kb + p0);
            lemma_skip_parens(toks, e0, i + o1, bits, kb + p1);
            lemma_skip_parens(toks, e1, i + o2, bits, kb + p2);
            assert(parse_list(toks, e2, bits, kend, 0) == Some((Seq::<Node>::empty(), e2, kend)));
            let rest2 = seq![*c] + Seq::<Node>::empty();
            assert(parse_list(toks, e1, bits, kb + p2, 1) == Some((rest2, e2, kend)));
            let rest1 = seq![*b] + rest2;
            assert(parse_list(toks, e0, bits, kb + p1, 2) == Some((rest1, e2, kend)));
            let rest0 = seq![*a] + rest1;
            assert(parse_list(toks, i + 1, bits, kb + p0, 3) == Some((rest0, e2, kend)));
            assert(rest0 =~= children(t));
            assert(children(t).len() == 3);
            assert(kend == kb + constants_of(t).len());
        },
        _ => {},
    }
}

#[verifier::rlimit(100)]
#[verifier::spinoff_prover]
proof fn lemma_parse_quaternary(
    t: Node,
    lits: Seq<Seq<char>>,
    k: int,
    toks: Seq<Seq<char>>,
    i: int,
    bits: Seq<u32>,
    kb: int,
)
    requires
        printable(t),
        t is Mix || t is MixUnbounded,
        0 <= i,
        i + tokens_of(t, lits, k).len() <= toks.len(),
        toks.subrange(i, i + tokens_of(t, lits, k).len()) == tokens_of(t, lits, k),
        0 <= kb,
        kb + constants_of(t).len() <= bits.len(),
        bits.subrange(kb, kb + constants_of(t).len()) == constants_of(t),
    ensures
        parse_list(toks, i + 1, bits, kb, children(t).len()) == Some(
            (children(t), i + tokens_of(t, lits, k).len() - closers(t), kb + constants_of(t).len()),
        ),
    decreases t, 0nat,
{
    lemma_parens();
    let tt = tokens_of(t, lits, k);
    match t {
        Node::Mix(a, b, c, d) | Node::MixUnbounded(a, b, c, d) => {
            let cs = constants_of(t);
            let k0 = k;
            let t0 = tokens_of(*a, lits, k0);
            let c0 = constants_of(*a);
            let o0: int = 2;
            let p0: int = 0;
            let k1 = k0 + c0.len();
            let t1 = tokens_of(*b, lits, k1);
            let c1 = constants_of(*b);
            let o1: int = o0 + t0.len();
            let p1: int = p0 + c0.len();
            let k2 = k1 + c1.len();
            let t2 = tokens_of(*c, lits, k2);
            let c2 = constants_of(*c);
            let o2: int = o1 + t1.len();
            let p2: int = p1 + c1.len();
            let k3 = k2 + c2.len();
            let t3 = tokens_of(*d, lits, k3);
            let c3 = constants_of(*d);
            let o3: int = o2 + t2.len();
            let p3: int = p2 + c2.len();
            assert(tt == seq![keyword(t), "("@] + t0 + t1 + t2 + t3 + seq![")"@]) by {
                reveal(tokens_of);
            }
            assert(cs == c0 + c1 + c2 + c3);
            lemma_window(toks, i, tt, 1, 2);
            assert(tt.subrange(o0, o0 + t0.len()) =~= t0);
            assert(cs.subrange(p0, p0 + c0.len()) =~= c0);
            lemma_parse_child(*a, lits, k0, toks, i + o0, bits, kb + p0, tt, i, o0, cs, kb, p0);
            let e0: int = i + o0 + t0.len() - closers(*a);
            assert(tt.subrange(o1, o1 + t1.len()) =~= t1);
            assert(cs.subrange(p1, p1 + c1.len()) =~= c1);
            lemma_parse_child(*b, lits, k1, toks, i + o1, bits, kb + p1, tt, i, o1, cs, kb, p1);
            let e1: int = i + o1 + t1.len() - closers(*b);
            assert(tt.subrange(o2, o2 + t2.len()) =~= t2);
            assert(cs.subrange(p2, p2 + c2.len()) =~= c2);
            lemma_parse_child(*c, lits, k2, toks, i + o2, bits, kb + p2, tt, i, o2, cs, kb, p2);
            let e2: int = i + o2 + t2.len() - closers(*c);
            assert(tt.subrange(o3, o3 + t3.len()) =~= t3);
            assert(cs.subrange(p3, p3 + c3.len()) =~= c3);
            lemma_parse_child(*d, lits, k3, toks, i + o3, bits, kb + p3, tt, i, o3, cs, kb, p3);
            let e3: int = i + o3 + t3.len() - closers(*d);
            let kend: int = kb + p3 + c3.len();
            lemma_skip_parens(toks, i + 1, i + o0, bits, kb + p0);
            lemma_skip_parens(toks, e0, i + o1, bits, kb + p1);
            lemma_skip_parens(toks, e1, i + o2, bits, kb + p2);
            lemma_skip_parens(toks, e2, i + o3, bits, kb + p3);
            assert(parse_list(toks, e3, bits, kend, 0) == Some((Seq::<Node>::empty(), e3, kend)));
            let rest3 = seq![*d] + Seq::<Node>::empty();
            assert(parse_list(toks, e2, bits, kb + p3, 1) == Some((rest3, e3, kend)));
            let rest2 = seq![*c] + rest3;
            assert(parse_list(toks, e1, bits, kb + p2, 2) == Some((rest2, e3, kend)));
            let rest1 = seq![*b] + rest2;
            assert(parse_list(toks, e0, bits, kb + p1, 3) == Some((rest1, e3, kend)));
            let rest0 = seq![*a] + rest1;
            assert(parse_list(toks, i + 1, bits, kb + p0, 4) == Some((rest0, e3, kend)));
            assert(rest0 =~= children(t));
            assert(children(t).len() == 4);
            assert(kend == kb + constants_of(t).len());
        },
        _ => {},
    }
}

/// The text could not be read as a tree; `position` is the token at which
/// reading stopped.
#[derive(Debug, PartialEq, Eq)]
pub struct ParseError {
    pub position: usize,
}

fn is_word(tok: &String, w: &str) -> (r: bool)
    ensures
        r == (tok@ == w@),
{
    *tok == w.to_string()
}

fn arity_of(w: &String) -> (r: usize)
    ensures
        r == keyword_arity(w@),
{
    if is_word(w, "sqrt") || is_word(w, "sin") || is_word(w, "cos") || is_word(w, "exp") {
        1
    } else if is_word(w, "add") || is_word(w, "mult") || is_word(w, "div") || is_word(
        w,
        "modulo",
    ) {
        2
    } else if is_word(w, "triple") {
        3
    } else if is_word(w, "mix") || is_word(w, "mixu") {
        4
    } else {
        0
    }
}

fn make(w: &String, kids: Vec<Node>) -> (r: Node)
    requires
        kids@.len() == keyword_arity(w@),
        kids@.len() > 0,
    ensures
        r == make_node(w@, kids@),
{
    let ghost k = kids@;
    let mut kids = kids;
    if kids.len() == 1 {
        let a = kids.pop().unwrap();
        if is_word(w, "sqrt") {
            Node::Sqrt(Box::new(a))
        } else if is_word(w, "sin") {
            Node::Sin(Box::new(a))
        } else if is_word(w, "cos") {
            Node::Cos(Box::new(a))
        } else {
            Node::Exp(Box::new(a))
        }
    } else if kids.len() == 2 {
        let b = kids.pop().unwrap();
        let a = kids.pop().unwrap();
        if is_word(w, "add") {
            Node::Add(Box::new(a), Box::new(b))
        } else if is_word(w, "mult") {
            Node::Mult(Box::new(a), Box::new(b))
        } else if is_word(w, "div") {
            Node::Div(Box::new(a), Box::new(b))
        } else {
            Node::Modulo(Box::new(a), Box::new(b))
        }
    } else if kids.len() == 3 {
        let c = kids.pop().unwrap();
        let b = kids.pop().unwrap();
        let a = kids.pop().unwrap();
        Node::Triple(Box::new(a), Box::new(b), Box::new(c))
    } else {
        let d = kids.pop().unwrap();
        let c = kids.pop().unwrap();
        let b = kids.pop().unwrap();
        let a = kids.pop().unwrap();
        if is_word(w, "mix") {
            Node::Mix(Box::new(a), Box::new(b), Box::new(c), Box::new(d))
        } else {
            Node::MixUnbounded(Box::new(a), Box::new(b), Box::new(c), Box::new(d))
        }
    }
}

fn parse_node(ts: &mut TokenStream, bits: &Vec<u32>, k: usize) -> (r: Option<(Node, usize)>)
    requires
        old(ts).wf(),
        k <= bits@.len(),
    ensures
        final(ts).wf(),
        final(ts).tokens() == old(ts).tokens(),
        match parse_at(old(ts).tokens(), old(ts).pos() as int, bits@, k as int) {
            Some((t, j, k2)) => r == Some((t, k2 as usize)) && final(ts).pos() == j && k <= k2
                <= bits@.len(),
            None => r is None,
        },
    decreases old(ts).tokens().len() - old(ts).pos(), 0nat,
{
    let ghost toks = ts.tokens();
    let ghost i = ts.pos() as int;
    let w = match ts.next() {
        Some(w) => w,
        None => return None,
    };
    if is_word(&w, "(") || is_word(&w, ")") {
        return parse_node(ts, bits, k);
    }
    if is_word(&w, "x") {
        return Some((Node::X, k));
    }
    if is_word(&w, "y") {
        return Some((Node::Y, k));
    }
    if is_word(&w, "const_") {
        let skipped = ts.next();
        let literal = ts.next();
        return match (skipped, literal) {
            (Some(_), Some(_)) => {
                if k < bits.len() {
                    Some((Node::Number(bits[k]), k + 1))
                } else {
                    None
                }
            },
            _ => None,
        };
    }
    let n = arity_of(&w);
    if n == 0 {
        return None;
    }
    match parse_list_exec(ts, bits, k, n) {
        Some((kids, k2)) => Some((make(&w, kids), k2)),
        None => None,
    }
}

fn parse_list_exec(ts: &mut TokenStream, bits: &Vec<u32>, k: usize, n: usize) -> (r: Option<
    (Vec<Node>, usize),
>)
    requires
        old(ts).wf(),
        k <= bits@.len(),
    ensures
        final(ts).wf(),
        final(ts).tokens() == old(ts).tokens(),
        match parse_list(old(ts).tokens(), old(ts).pos() as int, bits@, k as int, n as nat) {
            Some((kids, j, k2)) => match r {
                Some((v, k3)) => v@ == kids && k3 == k2 && final(ts).pos() == j && k <= k2
                    <= bits@.len() && kids.len() == n,
                None => false,
            },
            None => r is None,
        },
    decreases old(ts).tokens().len() - old(ts).pos(), n + 1,
{
    if n == 0 {
        return Some((Vec::new(), k));
    }
    let i = ts.current_pos();
    let blen = bits.len();
    let ghost toks = ts.tokens();
    let ghost first = parse_at(toks, i as int, bits@, k as int);
    match parse_node(ts, bits, k) {
        Some((t, k1)) => {
            assert(first is Some);
            let i1 = ts.current_pos();
            let ghost (ft, fj, fk) = first->0;
            assert(fj == i1 as int);
            assert(fk <= blen);
            assert(fk == k1 as int);
            if i1 <= i {
                return None;
            }
            let ghost rest_spec = parse_list(toks, i1 as int, bits@, k1 as int, (n - 1) as nat);
            match parse_list_exec(ts, bits, k1, n - 1) {
                Some((rest, k2)) => {
                    assert(rest_spec is Some);
                    let mut kids: Vec<Node> = Vec::new();
                    kids.push(t);
                    let mut rest = rest;
                    let ghost rv = rest@;
                    kids.append(&mut rest);
                    assert(kids@ =~= seq![t] + rv);
                    Some((kids, k2))
                },
                None => None,
            }
        },
        None => None,
    }
}

/// Reads one tree from the tokens, taking the values of its constants, in
/// prefix order, from `constants`: `Ok` exactly where the tokens from the
/// cursor on begin with a tree (see `parse_at`), which is then returned
/// with the cursor right after its last operand.
pub fn parse_expr(ts: &mut TokenStream, constants: &Vec<u32>) -> (r: Result<Node, ParseError>)
    requires
        old(ts).wf(),
    ensures
        final(ts).wf(),
        final(ts).tokens() == old(ts).tokens(),
        match parse_at(old(ts).tokens(), old(ts).pos() as int, constants@, 0) {
            Some((t, j, _)) => r == Ok::<Node, ParseError>(t) && final(ts).pos() == j,
            None => r is Err,
        },
{
    match parse_node(ts, constants, 0) {
        Some((t, _)) => Ok(t),
        None => Err(ParseError { position: ts.current_pos() }),
    }
}

/// Reading back the tokens of a placeholder-free tree gives the tree: with
/// its constants supplied in prefix order, parsing them yields the tree and
/// uses every constant, every token but the closing `)` tokens being left,
/// whatever its literal tokens are.
pub proof fn lemma_round_trip(t: Node, lits: Seq<Seq<char>>)
    requires
        printable(t),
    ensures
        parse_at(tokens_of(t, lits, 0), 0, constants_of(t), 0) == Some(
            (t, tokens_of(t, lits, 0).len() - closers(t), constants_of(t).len() as int),
        ),
        forall|q: int|
            tokens_of(t, lits, 0).len() - closers(t) <= q < tokens_of(t, lits, 0).len()
                ==> #[trigger] tokens_of(t, lits, 0)[q] == ")"@,
{
    let toks = tokens_of(t, lits, 0);
    let cs = constants_of(t);
    assert(toks.subrange(0, toks.len() as int) =~= toks);
    assert(cs.subrange(0, cs.len() as int) =~= cs);
    lemma_parse_tokens_of(t, lits, 0, toks, 0, cs, 0);
}

fn push_constants(t: &Node, out: &mut Vec<u32>)
    ensures
        final(out)@ == old(out)@ + constants_of(*t),
    decreases t,
{
    match t {
        Node::Number(v) => out.push(*v),
        Node::Sqrt(a) | Node::Sin(a) | Node::Cos(a) | Node::Exp(a) => push_constants(a, out),
        Node::Add(a, b) | Node::Mult(a, b) | Node::Div(a, b) | Node::Modulo(a, b) => {
            push_constants(a, out);
            push_constants(b, out);
        },
        Node::Triple(a, b, c) => {
            push_constants(a, out);
            push_constants(b, out);
            push_constants(c, out);
        },
        Node::Mix(a, b, c, d) | Node::MixUnbounded(a, b, c, d) => {
            push_constants(a, out);
            push_constants(b, out);
            push_constants(c, out);
            push_constants(d, out);
        },
        _ => {},
    }
    assert(final(out)@ =~= old(out)@ + constants_of(*t));
}

/// The constants of a tree, in prefix order.
pub fn constants(t: &Node) -> (r: Vec<u32>)
    ensures
        r@ == constants_of(*t),
{
    let mut out: Vec<u32> = Vec::new();
    push_constants(t, &mut out);
    assert(out@ =~= constants_of(*t));
    out
}

fn keyword_text(t: &Node) -> (r: &'static str)
    ensures
        r@ == keyword(*t),
{
    match t {
        Node::Sqrt(_) => "sqrt",
        Node::Sin(_) => "sin",
        Node::Cos(_) => "cos",
        Node::Exp(_) => "exp",
        Node::Add(_, _) => "add",
        Node::Mult(_, _) => "mult",
        Node::Div(_, _) => "div",
        Node::Modulo(_, _) => "modulo",
        Node::Triple(_, _, _) => "triple",
        Node::Mix(_, _, _, _) => "mix",
        _ => "mixu",
    }
}

/// The character sequences of a list of strings.
pub open spec fn texts(v: Seq<String>) -> Seq<Seq<char>> {
    v.map_values(|s: String| s@)
}

/// Two spaces for each level of nesting.
pub open spec fn pad(depth: nat) -> Seq<char>
    decreases depth,
{
    if depth == 0 {
        seq![]
    } else {
        pad((depth - 1) as nat) + "  "@
    }
}

/// The formula text of a tree at nesting `depth`, its constants written as
/// `lits[k]`, `lits[k + 1]`, ... in prefix order: one line per leaf
/// (`x`, `y`, `const_ ( <literal> )`); an operator or `Triple` opens with
/// `<keyword> ( ` on a line of its own, lists its operands one level
/// deeper, and closes with ` ) ` on a line at its own depth. Its
/// whitespace-separated words are `tokens_of(t, lits, k)`.
pub open spec fn pretty_of(t: Node, lits: Seq<Seq<char>>, k: int, depth: nat) -> Seq<char>
    decreases t,
{
    let open = pad(depth) + keyword(t) + " ( \n"@;
    let close = pad(depth) + " ) \n"@;
    let d = depth + 1;
    match t {
        Node::X => pad(depth) + "x\n"@,
        Node::Y => pad(depth) + "y\n"@,
        Node::Number(_) => pad(depth) + "const_ ( "@ + lits[k] + " )\n"@,
        Node::Random | Node::Rule(_) => seq![],
        Node::Sqrt(a) | Node::Sin(a) | Node::Cos(a) | Node::Exp(a) => open + pretty_of(
            *a,
            lits,
            k,
            d,
        ) + close,
        Node::Add(a, b) | Node::Mult(a, b) | Node::Div(a, b) | Node::Modulo(a, b) => {
            let ka = k + constants_of(*a).len();
            open + pretty_of(*a, lits, k, d) + pretty_of(*b, lits, ka, d) + close
        },
        Node::Triple(a, b, c) => {
            let ka = k + constants_of(*a).len();
            let kb = ka + constants_of(*b).len();
            open + pretty_of(*a, lits, k, d) + pretty_of(*b, lits, ka, d) + pretty_of(
                *c,
                lits,
                kb,
                d,
            ) + close
        },
        Node::Mix(a, b, c, e) | Node::MixUnbounded(a, b, c, e) => {
            let ka = k + constants_of(*a).len();
            let kb = ka + constants_of(*b).len();
            let kc = kb + constants_of(*c).len();
            open + pretty_of(*a, lits, k, d) + pretty_of(*b, lits, ka, d) + pretty_of(
                *c,
                lits,
                kb,
                d,
            ) + pretty_of(*e, lits, kc, d) + close
        },
    }
}

fn push_pad(out: &mut String, depth: usize)
    ensures
        final(out)@ == old(out)@ + pad(depth as nat),
{
    let mut i: usize = 0;
    while i < depth
        invariant
            i <= depth,
            out@ == old(out)@ + pad(i as nat),
        decreases depth - i,
    {
        out.append("  ");
        i = i + 1;
        assert(out@ =~= old(out)@ + pad(i as nat));
    }
}

fn emit_open(out: &mut String, t: &Node, depth: usize)
    requires
        children(*t).len() > 0,
    ensures
        final(out)@ == old(out)@ + pad(depth as nat) + keyword(*t) + " ( \n"@,
{
    push_pad(out, depth);
    out.append(keyword_text(t));
    out.append(" ( \n");
}

fn emit_close(out: &mut String, depth: usize)
    ensures
        final(out)@ == old(out)@ + pad(depth as nat) + " ) \n"@,
{
    push_pad(out, depth);
    out.append(" ) \n");
}

fn emit_pretty(t: &Node, lits: &Vec<String>, k: usize, depth: usize, out: &mut String) -> (r: usize)
    requires
        printable(*t),
        k + constants_of(*t).len() <= lits@.len(),
        depth + t.size() <= usize::MAX,
    ensures
        final(out)@ == old(out)@ + pretty_of(*t, texts(lits@), k as int, depth as nat),
        r == k + constants_of(*t).len(),
    decreases t, 1nat,
{
    let n = lits.len();
    match t {
        Node::X => {
            push_pad(out, depth);
            out.append("x\n");
            k
        },
        Node::Y => {
            push_pad(out, depth);
            out.append("y\n");
            k
        },
        Node::Number(_) => {
            push_pad(out, depth);
            out.append("const_ ( ");
            out.append(lits[k].as_str());
            out.append(" )\n");
            k + 1
        },
        Node::Sqrt(_) | Node::Sin(_) | Node::Cos(_) | Node::Exp(_) => emit_unary(
            t,
            lits,
            k,
            depth,
            out,
        ),
        Node::Add(_, _) | Node::Mult(_, _) | Node::Div(_, _) | Node::Modulo(_, _) => emit_binary(
            t,
            lits,
            k,
            depth,
            out,
        ),
        Node::Triple(_, _, _) => emit_ternary(t, lits, k, depth, out),
        Node::Mix(_, _, _, _) | Node::MixUnbounded(_, _, _, _) => emit_quaternary(
            t,
            lits,
            k,
            depth,
            out,
        ),
        _ => k,
    }
}

#[verifier::rlimit(100)]
#[verifier::spinoff_prover]
fn emit_unary(t: &Node, lits: &Vec<String>, k: usize, depth: usize, out: &mut String) -> (r: usize)
    requires
        printable(*t),
        k + constants_of(*t).len() <= lits@.len(),
        *t is Sqrt || *t is Sin || *t is Cos || *t is Exp,
        depth + t.size() <= usize::MAX,
    ensures
        final(out)@ == old(out)@ + pretty_of(*t, texts(lits@), k as int, depth as nat),
        r == k + constants_of(*t).len(),
    decreases t, 0nat,
{
    let ghost start = out@;
    let ghost l = texts(lits@);
    match t {
        Node::Sqrt(a) | Node::Sin(a) | Node::Cos(a) | Node::Exp(a) => {
            emit_open(out, t, depth);
            let ghost m0 = out@;
            let k1 = emit_pretty(a, lits, k, depth + 1, out);
            let ghost m1 = out@;
            emit_close(out, depth);
            assert(out@ =~= start + pretty_of(*t, l, k as int, depth as nat));
            k1
        },
        _ => {
            proof {
                assert(false);
            }
            k
        },
    }
}

#[verifier::rlimit(100)]
#[verifier::spinoff_prover]
fn emit_binary(t: &Node, lits: &Vec<String>, k: usize, depth: usize, out: &mut String) -> (r: usize)
    requires
        printable(*t),
        k + constants_of(*t).len() <= lits@.len(),
        *t is Add || *t is Mult || *t is Div || *t is Modulo,
        depth + t.size() <= usize::MAX,
    ensures
        final(out)@ == old(out)@ + pretty_of(*t, texts(lits@), k as int, depth as nat),
        r == k + constants_of(*t).len(),
    decreases t, 0nat,
{
    let ghost start = out@;
    let ghost l = texts(lits@);
    match t {
        Node::Add(a, b) | Node::Mult(a, b) | Node::Div(a, b) | Node::Modulo(a, b) => {
            emit_open(out, t, depth);
            let ghost m0 = out@;
            let k1 = emit_pretty(a, lits, k, depth + 1, out);
            let ghost m1 = out@;
            let k2 = emit_pretty(b, lits, k1, depth + 1, out);
            let ghost m2 = out@;
            emit_close(out, depth);
            assert(out@ =~= start + pretty_of(*t, l, k as int, depth as nat));
            k2
        },
        _ => {
            proof {
                assert(false);
            }
            k
        },
    }
}

#[verifier::rlimit(100)]
#[verifier::spinoff_prover]
fn emit_ternary(t: &Node, lits: &Vec<String>, k: usize, depth: usize, out: &mut String) -> (r: usize)
    requires
        printable(*t),
        k + constants_of(*t).len() <= lits@.len(),
        *t is Triple,
        depth + t.size() <= usize::MAX,
    ensures
        final(out)@ == old(out)@ + pretty_of(*t, texts(lits@), k as int, depth as nat),
        r == k + constants_of(*t).len(),
    decreases t, 0nat,
{
    let ghost start = out@;
    let ghost l = texts(lits@);
    match t {
        Node::Triple(a, b, c) => {
            emit_open(out, t, depth);
            let ghost m0 = out@;
            let k1 = emit_pretty(a, lits, k, depth + 1, out);
            let ghost m1 = out@;
            let k2 = emit_pretty(b, lits, k1, depth + 1, out);
            let ghost m2 = out@;
            let k3 = emit_pretty(c, lits, k2, depth + 1, out);
            let ghost m3 = out@;
            emit_close(out, depth);
            assert(out@ =~= start + pretty_of(*t, l, k as int, depth as nat));
            k3
        },
        _ => {
            proof {
                assert(false);
            }
            k
        },
    }
}

#[verifier::rlimit(100)]
#[verifier::spinoff_prover]
fn emit_quaternary(t: &Node, lits: &Vec<String>, k: usize, depth: usize, out: &mut String) -> (r: usize)
    requires
        printable(*t),
        k + constants_of(*t).len() <= lits@.len(),
        *t is Mix || *t is MixUnbounded,
        depth + t.size() <= usize::MAX,
    ensures
        final(out)@ == old(out)@ + pretty_of(*t, texts(lits@), k as int, depth as nat),
        r == k + constants_of(*t).len(),
    decreases t, 0nat,
{
    let ghost start = out@;
    let ghost l = texts(lits@);
    match t {
        Node::Mix(a, b, c, d) | Node::MixUnbounded(a, b, c, d) => {
            emit_open(out, t, depth);
            let ghost m0 = out@;
            let k1 = emit_pretty(a, lits, k, depth + 1, out);
            let ghost m1 = out@;
            let k2 = emit_pretty(b, lits, k1, depth + 1, out);
            let ghost m2 = out@;
            let k3 = emit_pretty(c, lits, k2, depth + 1, out);
            let ghost m3 = out@;
            let k4 = emit_pretty(d, lits, k3, depth + 1, out);
            let ghost m4 = out@;
            emit_close(out, depth);
            assert(out@ =~= start + pretty_of(*t, l, k as int, depth as nat));
            k4
        },
        _ => {
            proof {
                assert(false);
            }
            k
        },
    }
}

/// The formula text of a placeholder-free tree (see `pretty_of`), with its
/// constants written as the given literals in prefix order.
pub fn to_text(t: &Node, literals: &Vec<String>) -> (r: String)
    requires
        printable(*t),
        literals@.len() == constants_of(*t).len(),
        t.size() <= usize::MAX,
    ensures
        r@ == pretty_of(*t, texts(literals@), 0, 0),
{
    let mut out = String::new();
    emit_pretty(t, literals, 0, 0, &mut out);
    out
}

/// The literal tokens of a token sequence from index `i` on: the token two
/// places after each `const_` (which the parser reads as its literal),
/// scanning on after it.
pub open spec fn literals_in(toks: Seq<Seq<char>>, i: int) -> Seq<Seq<char>>
    decreases toks.len() - i,
{
    if i < 0 || i >= toks.len() {
        seq![]
    } else if toks[i] == "const_"@ && i + 2 < toks.len() {
        seq![toks[i + 2]] + literals_in(toks, i + 3)
    } else {
        literals_in(toks, i + 1)
    }
}

proof fn lemma_split<A>(s: Seq<A>, a: int, b: int, c: int)
    requires
        0 <= a <= b <= c <= s.len(),
    ensures
        s.subrange(a, b) + s.subrange(b, c) == s.subrange(a, c),
{
    assert(s.subrange(a, b) + s.subrange(b, c) =~= s.subrange(a, c));
}

/// Scanning the tokens of a tree for literals finds its literal tokens, in
/// order, and goes on right after the tree.
pub proof fn lemma_literals_of(t: Node, lits: Seq<Seq<char>>, k: int, toks: Seq<Seq<char>>, i: int)
    requires
        printable(t),
        0 <= k,
        k + constants_of(t).len() <= lits.len(),
        0 <= i,
        i + tokens_of(t, lits, k).len() <= toks.len(),
        toks.subrange(i, i + tokens_of(t, lits, k).len()) == tokens_of(t, lits, k),
    ensures
        literals_in(toks, i) == lits.subrange(k, k + constants_of(t).len()) + literals_in(
            toks,
            i + tokens_of(t, lits, k).len(),
        ),
    decreases t.size(), 1nat,
{
    lemma_words();
    let tt = tokens_of(t, lits, k);
    reveal(tokens_of);
    match t {
        Node::X | Node::Y => {
            lemma_window(toks, i, tt, 0, 1);
            assert(lits.subrange(k, k) =~= Seq::<Seq<char>>::empty());
        },
        Node::Number(_) => {
            lemma_window(toks, i, tt, 0, 1);
            lemma_window(toks, i, tt, 2, 3);
            assert(lits.subrange(k, k + 1) =~= seq![lits[k]]);
            lemma_window(toks, i, tt, 3, 4);
            assert(literals_in(toks, i + 3) == literals_in(toks, i + 4));
            assert(literals_in(toks, i) == seq![lits[k]] + literals_in(toks, i + 4));
        },
        Node::Random | Node::Rule(_) => {},
        Node::Sqrt(_) | Node::Sin(_) | Node::Cos(_) | Node::Exp(_) => lemma_literals_unary(
            t,
            lits,
            k,
            toks,
            i,
        ),
        Node::Add(_, _) | Node::Mult(_, _) | Node::Div(_, _) | Node::Modulo(_, _) =>
            lemma_literals_binary(t, lits, k, toks, i),
        Node::Triple(_, _, _) => lemma_literals_ternary(t, lits, k, toks, i),
        _ => lemma_literals_quaternary(t, lits, k, toks, i),
    }
}

#[verifier::rlimit(100)]
#[verifier::spinoff_prover]
proof fn lemma_literals_unary(
    t: Node,
    lits: Seq<Seq<char>>,
    k: int,
    toks: Seq<Seq<char>>,
    i: int,
)
    requires
        printable(t),
        children(t).len() == 1,
        0 <= k,
        k + constants_of(t).len() <= lits.len(),
        0 <= i,
        i + tokens_of(t, lits, k).len() <= toks.len(),
        toks.subrange(i, i + tokens_of(t, lits, k).len()) == tokens_of(t, lits, k),
    ensures
        literals_in(toks, i) == lits.subrange(k, k + constants_of(t).len()) + literals_in(
            toks,
            i + tokens_of(t, lits, k).len(),
        ),
    decreases t.size(), 0nat,
{
    lemma_parens();
    lemma_keyword_not_const(t);
    let tt = tokens_of(t, lits, k);
    match t {
        Node::Sqrt(a) | Node::Sin(a) | Node::Cos(a) | Node::Exp(a) => {
            let k0 = k;
            let t0 = tokens_of(*a, lits, k0);
            let c0 = constants_of(*a);
            let o0: int = 2;
            assert(tt == seq![keyword(t), "("@] + t0 + seq![")"@]) by {
                reveal(tokens_of);
            }
            assert(constants_of(t) == c0);
            lemma_window(toks, i, tt, 0, 1);
            lemma_window(toks, i, tt, 1, 2);
            lemma_window(toks, i, tt, tt.len() - 1, tt.len() as int);
            assert(tt.subrange(o0, o0 + t0.len()) =~= t0);
            lemma_window(toks, i, tt, o0, o0 + t0.len());
            lemma_literals_of(*a, lits, k0, toks, i + o0);
            let end: int = i + o0 + t0.len();
            assert(end == i + tt.len() - 1);
            assert(literals_in(toks, end) == literals_in(toks, end + 1));
            assert(literals_in(toks, i + 1) == literals_in(toks, i + 2));
            assert(literals_in(toks, i) == literals_in(toks, i + 1));
            assert(k0 + c0.len() == k + constants_of(t).len());
        },
        _ => {},
    }
}

#[verifier::rlimit(100)]
#[verifier::spinoff_prover]
proof fn lemma_literals_binary(
    t: Node,
    lits: Seq<Seq<char>>,
    k: int,
    toks: Seq<Seq<char>>,
    i: int,
)
    requires
        printable(t),
        children(t).len() == 2,
        0 <= k,
        k + constants_of(t).len() <= lits.len(),
        0 <= i,
        i + tokens_of(t, lits, k).len() <= toks.len(),
        toks.subrange(i, i + tokens_of(t, lits, k).len()) == tokens_of(t, lits, k),
    ensures
        literals_in(toks, i) == lits.subrange(k, k + constants_of(t).len()) + literals_in(
            toks,
            i + tokens_of(t, lits, k).len(),
        ),
    decreases t.size(), 0nat,
{
    lemma_parens();
    lemma_keyword_not_const(t);
    let tt = tokens_of(t, lits, k);
    match t {
        Node::Add(a, b) | Node::Mult(a, b) | Node::Div(a, b) | Node::Modulo(a, b) => {
            let k0 = k;
            let t0 = tokens_of(*a, lits, k0);
            let c0 = constants_of(*a);
            let o0: int = 2;
            let k1 = k0 + c0.len();
            let t1 = tokens_of(*b, lits, k1);
            let c1 = constants_of(*b);
            let o1: int = o0 + t0.len();
            assert(tt == seq![keyword(t), "("@] + t0 + t1 + seq![")"@]) by {
                reveal(tokens_of);
            }
            assert(constants_of(t) == c0 + c1);
            lemma_window(toks, i, tt, 0, 1);
            lemma_window(toks, i, tt, 1, 2);
            lemma_window(toks, i, tt, tt.len() - 1, tt.len() as int);
            assert(tt.subrange(o0, o0 + t0.len()) =~= t0);
            lemma_window(toks, i, tt, o0, o0 + t0.len());
            lemma_literals_of(*a, lits, k0, toks, i + o0);
            assert(tt.subrange(o1, o1 + t1.len()) =~= t1);
            lemma_window(toks, i, tt, o1, o1 + t1.len());
            lemma_literals_of(*b, lits, k1, toks, i + o1);
            let end: int = i + o1 + t1.len();
            assert(end == i + tt.len() - 1);
            assert(literals_in(toks, end) == literals_in(toks, end + 1));
            assert(literals_in(toks, i + 1) == literals_in(toks, i + 2));
            assert(literals_in(toks, i) == literals_in(toks, i + 1));
            assert(k1 == k0 + c0.len());
            lemma_split(lits, k0, k1, k1 + c1.len());
            assert(k1 + c1.len() == k + constants_of(t).len());
        },
        _ => {},
    }
}

#[verifier::rlimit(100)]
#[verifier::spinoff_prover]
proof fn lemma_literals_ternary(
    t: Node,
    lits: Seq<Seq<char>>,
    k: int,
    toks: Seq<Seq<char>>,
    i: int,
)
    requires
        printable(t),
        children(t).len() == 3,
        0 <= k,
        k + constants_of(t).len() <= lits.len(),
        0 <= i,
        i + tokens_of(t, lits, k).len() <= toks.len(),
        toks.subrange(i, i + tokens_of(t, lits, k).len()) == tokens_of(t, lits, k),
    ensures
        literals_in(toks, i) == lits.subrange(k, k + constants_of(t).len()) + literals_in(
            toks,
            i + tokens_of(t, lits, k).len(),
        ),
    decreases t.size(), 0nat,
{
    lemma_parens();
    lemma_keyword_not_const(t);
    let tt = tokens_of(t, lits, k);
    match t {
        Node::Triple(a, b, c) => {
            let k0 = k;
            let t0 = tokens_of(*a, lits, k0);
            let c0 = constants_of(*a);
            let o0: int = 2;
            let k1 = k0 + c0.len();
            let t1 = tokens_of(*b, lits, k1);
            let c1 = constants_of(*b);
            let o1: int = o0 + t0.len();
            let k2 = k1 + c1.len();
            let t2 = tokens_of(*c, lits, k2);
            let c2 = constants_of(*c);
            let o2: int = o1 + t1.len();
            assert(tt == seq![keyword(t), "("@] + t0 + t1 + t2 + seq![")"@]) by {
                reveal(tokens_of);
            }
            assert(constants_of(t) == c0 + c1 + c2);
            lemma_window(toks, i, tt, 0, 1);
            lemma_window(toks, i, tt, 1, 2);
            lemma_window(toks, i, tt, tt.len() - 1, tt.len() as int);
            assert(tt.subrange(o0, o0 + t0.len()) =~= t0);
            lemma_window(toks, i, tt, o0, o0 + t0.len());
            lemma_literals_of(*a, lits, k0, toks, i + o0);
            assert(tt.subrange(o1, o1 + t1.len()) =~= t1);
            lemma_window(toks, i, tt, o1, o1 + t1.len());
            lemma_literals_of(*b, lits, k1, toks, i + o1);
            assert(tt.subrange(o2, o2 + t2.len()) =~= t2);
            lemma_window(toks, i, tt, o2, o2 + t2.len());
            lemma_literals_of(*c, lits, k2, toks, i + o2);
            let end: int = i + o2 + t2.len();
            assert(end == i + tt.len() - 1);
            assert(literals_in(toks, end) == literals_in(toks, end + 1));
            assert(literals_in(toks, i + 1) == literals_in(toks, i + 2));
            assert(literals_in(toks, i) == literals_in(toks, i + 1));
            assert(k1 == k0 + c0.len());
            lemma_split(lits, k0, k1, k1 + c1.len());
            assert(k2 == k1 + c1.len());
            lemma_split(lits, k0, k2, k2 + c2.len());
            assert(k2 + c2.len() == k + constants_of(t).len());
        },
        _ => {},
    }
}

proof fn lemma_literals_pair(
    a: Node,
    b: Node,
    lits: Seq<Seq<char>>,
    k: int,
    toks: Seq<Seq<char>>,
    i: int,
)
    requires
        printable(a),
        printable(b),
        0 <= k,
        k + constants_of(a).len() + constants_of(b).len() <= lits.len(),
        0 <= i,
        i + tokens_of(a, lits, k).len() + tokens_of(b, lits, k + constants_of(a).len()).len()
            <= toks.len(),
        toks.subrange(
            i,
            i + tokens_of(a, lits, k).len() + tokens_of(b, lits, k + constants_of(a).len()).len(),
        ) == tokens_of(a, lits, k) + tokens_of(b, lits, k + constants_of(a).len()),
    ensures
        literals_in(toks, i) == lits.subrange(
            k,
            k + constants_of(a).len() + constants_of(b).len(),
        ) + literals_in(
            toks,
            i + tokens_of(a, lits, k).len() + tokens_of(b, lits, k + constants_of(a).len()).len(),
        ),
    decreases a.size() + b.size(), 2nat,
{
    let ta = tokens_of(a, lits, k);
    let kb = k + constants_of(a).len();
    let tb = tokens_of(b, lits, kb);
    let w = ta + tb;
    assert(w.subrange(0, ta.len() as int) =~= ta);
    assert(w.subrange(ta.len() as int, w.len() as int) =~= tb);
    lemma_window(toks, i, w, 0, ta.len() as int);
    lemma_window(toks, i, w, ta.len() as int, w.len() as int);
    lemma_literals_of(a, lits, k, toks, i);
    lemma_literals_of(b, lits, kb, toks, i + ta.len());
    lemma_split(lits, k, kb, kb + constants_of(b).len());
}

#[verifier::rlimit(100)]
#[verifier::spinoff_prover]
proof fn lemma_literals_quaternary(
    t: Node,
    lits: Seq<Seq<char>>,
    k: int,
    toks: Seq<Seq<char>>,
    i: int,
)
    requires
        printable(t),
        children(t).len() == 4,
        0 <= k,
        k + constants_of(t).len() <= lits.len(),
        0 <= i,
        i + tokens_of(t, lits, k).len() <= toks.len(),
        toks.subrange(i, i + tokens_of(t, lits, k).len()) == tokens_of(t, lits, k),
    ensures
        literals_in(toks, i) == lits.subrange(k, k + constants_of(t).len()) + literals_in(
            toks,
            i + tokens_of(t, lits, k).len(),
        ),
    decreases t.size(), 0nat,
{
    lemma_parens();
    lemma_keyword_not_const(t);
    let tt = tokens_of(t, lits, k);
    match t {
        Node::Mix(a, b, c, d) | Node::MixUnbounded(a, b, c, d) => {
            let ka = k + constants_of(*a).len();
            let kc = ka + constants_of(*b).len();
            let kd = kc + constants_of(*c).len();
            let ta = tokens_of(*a, lits, k);
            let tb = tokens_of(*b, lits, ka);
            let tc = tokens_of(*c, lits, kc);
            let td = tokens_of(*d, lits, kd);
            assert(tt == seq![keyword(t), "("@] + ta + tb + tc + td + seq![")"@]) by {
                reveal(tokens_of);
            }
            let oc: int = 2 + ta.len() as int + tb.len() as int;
            assert(tt.subrange(2, oc) =~= ta + tb);
            assert(tt.subrange(oc, oc + tc.len() + td.len()) =~= tc + td);
            lemma_window(toks, i, tt, 0, 1);
            lemma_window(toks, i, tt, 1, 2);
            lemma_window(toks, i, tt, tt.len() - 1, tt.len() as int);
            lemma_window(toks, i, tt, 2, oc);
            lemma_window(toks, i, tt, oc, oc + tc.len() + td.len());
            lemma_literals_pair(*a, *b, lits, k, toks, i + 2);
            lemma_literals_pair(*c, *d, lits, kc as int, toks, i + oc);
            let end: int = i + oc + tc.len() + td.len();
            assert(end == i + tt.len() - 1);
            assert(toks[i] == keyword(t));
            assert(toks[i + 1] == "("@);
            assert(toks[end] == ")"@);
            assert(literals_in(toks, end) == literals_in(toks, end + 1));
            assert(literals_in(toks, i + 1) == literals_in(toks, i + 2));
            assert(literals_in(toks, i) == literals_in(toks, i + 1));
            lemma_split(lits, k, kc, kd + constants_of(*d).len());
            assert(kd + constants_of(*d).len() == k + constants_of(t).len());
        },
        _ => {},
    }
}

/// The literal tokens from the cursor on (see `literals_in`), in order;
/// for the text of a tree these are the literals it was written with.
pub fn literal_tokens(ts: &TokenStream) -> (r: Vec<String>)
    requires
        ts.wf(),
    ensures
        texts(r@) == literals_in(ts.tokens(), ts.pos() as int),
{
    let ghost toks = ts.tokens();
    let n = ts.len();
    let mut out: Vec<String> = Vec::new();
    let mut i: usize = ts.current_pos();
    while i < n
        invariant
            n == toks.len(),
            toks == ts.tokens(),
            ts.pos() <= i,
            texts(out@) + literals_in(toks, i as int) == literals_in(toks, ts.pos() as int),
        decreases n - i,
    {
        if is_word(ts.get(i), "const_") && 2 < n - i {
            let ghost before = out@;
            out.push(ts.get(i + 2).clone());
            assert(texts(out@) =~= texts(before).push(toks[i + 2]));
            assert(texts(out@) + literals_in(toks, i + 3) =~= texts(before) + literals_in(
                toks,
                i as int,
            ));
            i = i + 3;
        } else {
            i = i + 1;
        }
    }
    assert(literals_in(toks, i as int) =~= Seq::<Seq<char>>::empty());
    assert(texts(out@) =~= texts(out@) + literals_in(toks, i as int));
    out
}

} // verus!
