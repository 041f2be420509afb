use vstd::prelude::*;
use vstd::string::StringExecFns;
use crate::node::Node;
use crate::text::{decimal_of, hex_of, push_decimal, push_hex};

verus! {

/// Name of the `c`-th temporary: `t` and `c` in decimal.
pub open spec fn tmp_name(c: nat) -> Seq<char> {
    seq!['t'] + decimal_of(c)
}

/// A declaration line `float <tmp> = <body>;`.
pub open spec fn assign(tmp: Seq<char>, body: Seq<char>) -> Seq<char> {
    "float "@ + tmp + " = "@ + body + ";"@
}

/// A constant, written as its exact bit pattern.
pub open spec fn const_body(bits: u32) -> Seq<char> {
    "as_type<float>(0x"@ + hex_of(bits as nat) + "u)"@
}

pub open spec fn unary_body(t: Node, a: Seq<char>) -> Seq<char> {
    match t {
        Node::Sqrt(_) => "sqrt(fmax("@ + a + ", 0.0))"@,
        Node::Sin(_) => "sin("@ + a + ")"@,
        Node::Cos(_) => "cos("@ + a + ")"@,
        _ => "exp("@ + a + ")"@,
    }
}

pub open spec fn binary_body(t: Node, a: Seq<char>, b: Seq<char>) -> Seq<char> {
    match t {
        Node::Add(_, _) => "("@ + a + " + "@ + b + ") * 0.5"@,
        Node::Mult(_, _) => a + " * "@ + b,
        Node::Div(_, _) => "fabs("@ + b + ") > 1e-6 ? ("@ + a + " / "@ + b + ") : 0.0"@,
        _ => "fabs("@ + b + ") > 1e-6 ? fmod("@ + a + ", "@ + b + ") : 0.0"@,
    }
}

pub open spec fn quaternary_body(
    t: Node,
    a: Seq<char>,
    b: Seq<char>,
    c: Seq<char>,
    d: Seq<char>,
) -> Seq<char> {
    let args = a + ", "@ + b + ", "@ + c + ", "@ + d + ")"@;
    match t {
        Node::Mix(_, _, _, _) => "mix4("@ + args,
        _ => "mixu("@ + args,
    }
}

/// Emitting `t` after `lines`, with `c` temporaries already named: the
/// lines afterwards, the expression that holds the value of `t`, and the
/// number of temporaries named afterwards. Children come first, left to
/// right; every constant and every operator gets the next temporary.
pub open spec fn emit_node(t: Node, lines: Seq<Seq<char>>, c: nat) -> (Seq<Seq<char>>, Seq<char>, nat)
    decreases t,
{
    match t {
        Node::X => (lines, "x"@, c),
        Node::Y => (lines, "y"@, c),
        Node::Number(v) => (lines.push(assign(tmp_name(c), const_body(v))), tmp_name(c), c + 1),
        Node::Sqrt(a) | Node::Sin(a) | Node::Cos(a) | Node::Exp(a) => {
            let (l1, ra, c1) = emit_node(*a, lines, c);
            (l1.push(assign(tmp_name(c1), unary_body(t, ra))), tmp_name(c1), c1 + 1)
        },
        Node::Add(a, b) | Node::Mult(a, b) | Node::Div(a, b) | Node::Modulo(a, b) => {
            let (l1, ra, c1) = emit_node(*a, lines, c);
            let (l2, rb, c2) = emit_node(*b, l1, c1);
            (l2.push(assign(tmp_name(c2), binary_body(t, ra, rb))), tmp_name(c2), c2 + 1)
        },
        Node::Mix(a, b, x, d) | Node::MixUnbounded(a, b, x, d) => {
            let (l1, ra, c1) = emit_node(*a, lines, c);
            let (l2, rb, c2) = emit_node(*b, l1, c1);
            let (l3, rc, c3) = emit_node(*x, l2, c2);
            let (l4, rd, c4) = emit_node(*d, l3, c3);
            (l4.push(assign(tmp_name(c4), quaternary_body(t, ra, rb, rc, rd))), tmp_name(c4), c4 + 1)
        },
        _ => (lines, seq![], c),
    }
}

pub proof fn lemma_emit_counter(t: Node, lines: Seq<Seq<char>>, c: nat)
    ensures
        c <= emit_node(t, lines, c).2 <= c + t.size(),
    decreases t,
{
    match t {
        Node::Sqrt(a) | Node::Sin(a) | Node::Cos(a) | Node::Exp(a) => {
            lemma_emit_counter(*a, lines, c);
        },
        Node::Add(a, b) | Node::Mult(a, b) | Node::Div(a, b) | Node::Modulo(a, b) => {
            let (l1, ra, c1) = emit_node(*a, lines, c);
            lemma_emit_counter(*a, lines, c);
            lemma_emit_counter(*b, l1, c1);
        },
        Node::Mix(a, b, x, d) | Node::MixUnbounded(a, b, x, d) => {
            let (l1, ra, c1) = emit_node(*a, lines, c);
            let (l2, rb, c2) = emit_node(*b, l1, c1);
            let (l3, rc, c3) = emit_node(*x, l2, c2);
            lemma_emit_counter(*a, lines, c);
            lemma_emit_counter(*b, l1, c1);
            lemma_emit_counter(*x, l2, c2);
            lemma_emit_counter(*d, l3, c3);
        },
        _ => {},
    }
}

/// Lines of a function body, each indented by four spaces and ended.
pub open spec fn indented(lines: Seq<Seq<char>>) -> Seq<char>
    decreases lines.len(),
{
    if lines.len() == 0 {
        seq![]
    } else {
        indented(lines.drop_last()) + "    "@ + lines.last() + "\n"@
    }
}

/// A function `float <name>(float x, float y)` with the given body lines,
/// returning `result`.
pub open spec fn function_text(name: Seq<char>, lines: Seq<Seq<char>>, result: Seq<char>) -> Seq<
    char,
> {
    "float "@ + name + "(float x, float y) {\n"@ + indented(lines) + "    return "@ + result
        + ";\n"@ + "}\n"@
}

/// Builds the straight-line source of one scalar expression.
pub struct CodegenCtx {
    lines: Vec<String>,
    counter: usize,
}

impl CodegenCtx {
    pub closed spec fn lines(&self) -> Seq<Seq<char>> {
        self.lines@.map_values(|s: String| s@)
    }

    /// Number of temporaries named so far.
    pub closed spec fn counter(&self) -> nat {
        self.counter as nat
    }

    pub fn new() -> (r: Self)
        ensures
            r.lines() == Seq::<Seq<char>>::empty(),
            r.counter() == 0,
    {
        let r = CodegenCtx { lines: Vec::new(), counter: 0 };
        assert(r.lines() =~= Seq::<Seq<char>>::empty());
        r
    }

    /// Names the next temporary.
    fn next_tmp(&mut self) -> (r: String)
        requires
            old(self).counter() < usize::MAX,
        ensures
            r@ == tmp_name(old(self).counter()),
            final(self).counter() == old(self).counter() + 1,
            final(self).lines() == old(self).lines(),
    {
        let mut name = String::from_str("t");
        proof {
            reveal_strlit("t");
        }
        push_decimal(&mut name, self.counter as u64);
        self.counter = self.counter + 1;
        name
    }

    fn emit(&mut self, line: String)
        ensures
            final(self).lines() == old(self).lines().push(line@),
            final(self).counter() == old(self).counter(),
    {
        let ghost before = self.lines@;
        self.lines.push(line);
        assert(self.lines@.map_values(|s: String| s@) =~= before.map_values(|s: String| s@).push(
            line@,
        ));
    }

    /// Declares `tmp = body` and returns the temporary's name.
    fn declare(&mut self, body: String) -> (r: String)
        requires
            old(self).counter() < usize::MAX,
        ensures
            r@ == tmp_name(old(self).counter()),
            final(self).counter() == old(self).counter() + 1,
            final(self).lines() == old(self).lines().push(assign(r@, body@)),
    {
        let tmp = self.next_tmp();
        let mut line = String::from_str("float ");
        line.append(tmp.as_str());
        line.append(" = ");
        line.append(body.as_str());
        line.append(";");
        self.emit(line);
        tmp
    }

    /// Emits the declarations that compute `node` and returns the
    /// expression that holds its value (`x`, `y`, or a temporary).
    pub fn gen(&mut self, node: &Node) -> (r: String)
        requires
            node.is_scalar(),
            old(self).counter() + node.size() <= usize::MAX,
        ensures
            (final(self).lines(), r@, final(self).counter()) == emit_node(
                *node,
                old(self).lines(),
                old(self).counter(),
            ),
        decreases node,
    {
        proof {
            lemma_emit_counter(*node, self.lines(), self.counter());
        }
        match node {
            Node::X => String::from_str("x"),
            Node::Y => String::from_str("y"),
            Node::Number(v) => {
                let mut body = String::from_str("as_type<float>(0x");
                push_hex(&mut body, *v as u64);
                body.append("u)");
                self.declare(body)
            },
            Node::Sqrt(a) | Node::Sin(a) | Node::Cos(a) | Node::Exp(a) => {
                let ra = self.gen(a);
                proof {
                    lemma_emit_counter(**a, old(self).lines(), old(self).counter());
                }
                let body = unary_text(node, &ra);
                self.declare(body)
            },
            Node::Add(a, b) | Node::Mult(a, b) | Node::Div(a, b) | Node::Modulo(a, b) => {
                let ra = self.gen(a);
                proof {
                    lemma_emit_counter(**a, old(self).lines(), old(self).counter());
                    lemma_emit_counter(**b, self.lines(), self.counter());
                }
                let rb = self.gen(b);
                let body = binary_text(node, &ra, &rb);
                self.declare(body)
            },
            Node::Mix(a, b, c, d) | Node::MixUnbounded(a, b, c, d) => {
                let ra = self.gen(a);
                proof {
                    lemma_emit_counter(**a, old(self).lines(), old(self).counter());
                    lemma_emit_counter(**b, self.lines(), self.counter());
                }
                let rb = self.gen(b);
                proof {
                    lemma_emit_counter(**c, self.lines(), self.counter());
                }
                let rc = self.gen(c);
                proof {
                    lemma_emit_counter(**d, self.lines(), self.counter());
                }
                let rd = self.gen(d);
                let body = quaternary_text(node, &ra, &rb, &rc, &rd);
                self.declare(body)
            },
            _ => {
                proof {
                    assert(false);
                }
                String::new()
            },
        }
    }

    /// The function `float <name>(float x, float y)` made of the lines
    /// emitted so far, returning `result_var`.
    pub fn eval_function(&self, name: &str, result_var: &str) -> (r: String)
        ensures
            r@ == function_text(name@, self.lines(), result_var@),
    {
        let mut out = String::from_str("float ");
        out.append(name);
        out.append("(float x, float y) {\n");
        let ghost head = out@;
        let mut i: usize = 0;
        while i < self.lines.len()
            invariant
                i <= self.lines@.len(),
                out@ == head + indented(self.lines().subrange(0, i as int)),
            decreases self.lines@.len() - i,
        {
            assert(self.lines().subrange(0, i as int + 1).drop_last() =~= self.lines().subrange(
                0,
                i as int,
            ));
            out.append("    ");
            out.append(self.lines[i].as_str());
            out.append("\n");
            assert(out@ =~= head + indented(self.lines().subrange(0, i as int + 1)));
            i = i + 1;
        }
        assert(self.lines().subrange(0, i as int) =~= self.lines());
        out.append("    return ");
        out.append(result_var);
        out.append(";\n");
        out.append("}\n");
        assert(out@ =~= function_text(name@, self.lines(), result_var@));
        out
    }
}

fn unary_text(t: &Node, a: &String) -> (r: String)
    ensures
        r@ == unary_body(*t, a@),
{
    let (open, close) = match t {
        Node::Sqrt(_) => ("sqrt(fmax(", ", 0.0))"),
        Node::Sin(_) => ("sin(", ")"),
        Node::Cos(_) => ("cos(", ")"),
        _ => ("exp(", ")"),
    };
    let mut r = String::from_str(open);
    r.append(a.as_str());
    r.append(close);
    r
}

fn binary_text(t: &Node, a: &String, b: &String) -> (r: String)
    ensures
        r@ == binary_body(*t, a@, b@),
{
    match t {
        Node::Add(_, _) => {
            let mut r = String::from_str("(");
            r.append(a.as_str());
            r.append(" + ");
            r.append(b.as_str());
            r.append(") * 0.5");
            r
        },
        Node::Mult(_, _) => {
            let mut r = String::from_str(a.as_str());
            r.append(" * ");
            r.append(b.as_str());
            r
        },
        Node::Div(_, _) => {
            let mut r = String::from_str("fabs(");
            r.append(b.as_str());
            r.append(") > 1e-6 ? (");
            r.append(a.as_str());
            r.append(" / ");
            r.append(b.as_str());
            r.append(") : 0.0");
            r
        },
        _ => {
            let mut r = String::from_str("fabs(");
            r.append(b.as_str());
            r.append(") > 1e-6 ? fmod(");
            r.append(a.as_str());
            r.append(", ");
            r.append(b.as_str());
            r.append(") : 0.0");
            r
        },
    }
}

fn quaternary_text(t: &Node, a: &String, b: &String, c: &String, d: &String) -> (r: String)
    ensures
        r@ == quaternary_body(*t, a@, b@, c@, d@),
{
    let mut r = match t {
        Node::Mix(_, _, _, _) => String::from_str("mix4("),
        _ => String::from_str("mixu("),
    };
    let ghost open = r@;
    r.append(a.as_str());
    r.append(", ");
    r.append(b.as_str());
    r.append(", ");
    r.append(c.as_str());
    r.append(", ");
    r.append(d.as_str());
    r.append(")");
    assert(r@ =~= open + (a@ + ", "@ + b@ + ", "@ + c@ + ", "@ + d@ + ")"@));
    r
}

/// Declarations shared by the three channel functions: the two blends.
pub const SHADER_HEADER: &'static str = "
#include <metal_stdlib>
using namespace metal;

inline float mixu(float a, float b, float c, float d) {
    return (a * c + b * d) / (a + b + 1e-6);
}

inline float mix4(float a, float b, float c, float d) {
    a += 1.0;
    b += 1.0;
    c += 1.0;
    d += 1.0;
    return (a * c + b * d) / fmax(a + b, 1e-6) - 1.0;
}
";

/// The kernel: maps each pixel to `[-1, 1]` on both axes, evaluates the
/// three channels and writes them shifted to `[0, 1]`.
pub const SHADER_KERNEL: &'static str = "
kernel void art_gen(texture2d<float, access::write> out [[texture(0)]],
                    uint2 gid [[thread_position_in_grid]]) {
    float2 uv = float2(gid) / float2(out.get_width(), out.get_height());
    float x = uv.x * 2.0 - 1.0;
    float y = uv.y * 2.0 - 1.0;

    float r = eval_r(x, y);
    float g = eval_g(x, y);
    float b = eval_b(x, y);

    out.write(float4((r + 1.0) * 0.5, (g + 1.0) * 0.5, (b + 1.0) * 0.5, 1.0), gid);
}
";

/// The function named `name` that computes the scalar tree `t`.
pub open spec fn channel_function(name: Seq<char>, t: Node) -> Seq<char> {
    let (lines, result, _) = emit_node(t, Seq::empty(), 0);
    function_text(name, lines, result)
}

/// The whole shader for a colour tree with channels `r`, `g` and `b`.
pub open spec fn shader_text(r: Node, g: Node, b: Node) -> Seq<char> {
    SHADER_HEADER@ + channel_function("eval_r"@, r) + "\n"@ + channel_function("eval_g"@, g)
        + "\n"@ + channel_function("eval_b"@, b) + "\n"@ + SHADER_KERNEL@
}

fn channel_text(name: &str, t: &Node) -> (r: String)
    requires
        t.is_scalar(),
        t.size() <= usize::MAX,
    ensures
        r@ == channel_function(name@, *t),
{
    let mut ctx = CodegenCtx::new();
    let result = ctx.gen(t);
    ctx.eval_function(name, result.as_str())
}

/// Emits the Metal shader source for the three channel trees.
pub fn emit_metal_from_triple(r: &Node, g: &Node, b: &Node) -> (out: String)
    requires
        r.is_scalar(),
        g.is_scalar(),
        b.is_scalar(),
        r.size() <= usize::MAX,
        g.size() <= usize::MAX,
        b.size() <= usize::MAX,
    ensures
        out@ == shader_text(*r, *g, *b),
{
    let mut out = String::from_str(SHADER_HEADER);
    out.append(channel_text("eval_r", r).as_str());
    out.append("\n");
    out.append(channel_text("eval_g", g).as_str());
    out.append("\n");
    out.append(channel_text("eval_b", b).as_str());
    out.append("\n");
    out.append(SHADER_KERNEL);
    out
}

} // verus!
