use randomart::codegen::{emit_metal_from_triple, CodegenCtx, SHADER_HEADER, SHADER_KERNEL};
use randomart::grammar::Grammar;
use randomart::hash::fnv1a;
use randomart::literal::literal_from_draw;
use randomart::node::Node;
use randomart::postfix::{compile_postfix, Instr, Op};
use randomart::rng::LinearCongruentialGenerator;
use randomart::stats::TreeStats;
use randomart::tokens::TokenStream;
use randomart::art::RandomArtGenerate;
use std::collections::BTreeMap;

fn b(n: Node) -> Box<Node> {
    Box::new(n)
}

#[test]
fn fnv1a_of_known_inputs() {
    assert_eq!(fnv1a(""), 0xcbf29ce484222325);
    assert_eq!(fnv1a("a"), 0xaf63dc4c8601ec8c);
    assert_eq!(fnv1a("foobar"), 0x85944171f73967e8);
}

#[test]
fn fnv1a_is_order_sensitive() {
    assert_ne!(fnv1a("ab"), fnv1a("ba"));
}

#[test]
fn generator_steps_modulo_two_to_the_32() {
    let mut g = LinearCongruentialGenerator::new(0);
    assert_eq!(g.next(), 1013904223);
    assert_eq!(g.next(), (1664525u64 * 1013904223 + 1013904223) % (1u64 << 32));
    let mut big = LinearCongruentialGenerator::new(u64::MAX);
    let expected = ((1664525u128 * u64::MAX as u128 + 1013904223) % (1u128 << 32)) as u64;
    assert_eq!(big.next(), expected);
}

#[test]
fn generator_is_a_function_of_the_seed() {
    let mut a = LinearCongruentialGenerator::new(42);
    let mut b = LinearCongruentialGenerator::new(42);
    for _ in 0..100 {
        assert_eq!(a.next(), b.next());
    }
}

#[test]
fn next_range_stays_in_range() {
    let mut g = LinearCongruentialGenerator::new(7);
    for _ in 0..1000 {
        let v = g.next_range(10, 17);
        assert!((10..17).contains(&v));
    }
}

#[test]
fn literals_of_draws() {
    assert_eq!(literal_from_draw(0), 0xBF80_0000);
    assert_eq!(f32::from_bits(literal_from_draw(0)), -1.0);
    assert_eq!(literal_from_draw(0x8000_0000), 0);
    assert_eq!(f32::from_bits(literal_from_draw(0xC000_0000)), 0.5);
    assert_eq!(f32::from_bits(literal_from_draw(0x4000_0000)), -0.5);
    assert_eq!(literal_from_draw(0xFFFF_FFFF), 0x3F7F_FFFE);
    assert_eq!(f32::from_bits(literal_from_draw(0xFFFF_FFFF)), 1.0 - 1.0 / 8388608.0);
    assert_eq!(f32::from_bits(literal_from_draw(0x8000_0100)), 1.0 / 8388608.0);
}

#[test]
fn literals_lie_in_unit_interval() {
    let mut g = LinearCongruentialGenerator::new(99);
    for _ in 0..1000 {
        let v = f32::from_bits(literal_from_draw(g.next()));
        assert!((-1.0..1.0).contains(&v));
    }
}

#[test]
fn generation_is_deterministic() {
    for seed in [0u64, 1, fnv1a("spiderman"), fnv1a("spiderman 1")] {
        for depth in [0u32, 1, 2, 5, 12] {
            let mut a = Grammar::default(seed);
            let mut b = Grammar::default(seed);
            assert_eq!(a.gen_rule(0, depth), b.gen_rule(0, depth));
            assert_eq!(a.gen_rule(1, depth), b.gen_rule(1, depth));
        }
    }
}

#[test]
fn zero_depth_generates_nothing() {
    let mut g = Grammar::default(5);
    assert_eq!(g.gen_rule(0, 0), None);
    assert_eq!(g.gen_rule(1, 0), None);
}

#[test]
fn generated_trees_have_no_placeholders() {
    for seed in 0u64..20 {
        let mut g = Grammar::default(seed);
        if let Some(t) = g.gen_rule(0, 10) {
            assert!(t.check_colour_tree());
        }
        if let Some(t) = g.gen_rule(1, 10) {
            assert!(t.check_scalar());
        }
    }
}

#[test]
fn spiderman_seed_generates_a_triple() {
    let mut g = Grammar::default(fnv1a("spiderman 1"));
    let t = g.gen_rule(0, 40).expect("generation must terminate with a tree");
    assert!(matches!(*t, Node::Triple(_, _, _)));
    assert!(t.check_colour_tree());
}

#[test]
fn seed_is_fnv1a_of_the_text() {
    let request = RandomArtGenerate { string: "spiderman".to_string(), depth: 40 };
    assert_eq!(request.seed(), fnv1a("spiderman"));
    let other = RandomArtGenerate { string: "spiderman 1".to_string(), depth: 40 };
    assert_ne!(request.seed(), other.seed());
}

#[test]
fn stats_of_a_small_tree() {
    // add(x, sin(const 1.0)): the sine reads no axis and counts as x-only.
    let t = Node::Add(b(Node::X), b(Node::Sin(b(Node::Number(0x3F80_0000)))));
    let s = TreeStats::from_node(&t);
    assert_eq!(s.total_nodes, 4);
    assert_eq!(s.leaf_nodes, 2);
    assert_eq!(s.total_ops, 2);
    assert_eq!(s.max_depth, 2);
    assert_eq!(s.op_counts, vec![1, 0, 0, 0, 1, 0, 0, 0, 0, 0]);
    assert_eq!(s.leaf_depths, vec![1, 2]);
    assert_eq!(s.x_only_subtree_op_counts, vec![1, 2]);
    assert_eq!(s.x_only_subtrees, 2);
    assert_eq!(s.y_only_subtrees, 0);
}

#[test]
fn stats_classify_y_and_mixed_subtrees() {
    let t = Node::Mult(b(Node::Cos(b(Node::Y))), b(Node::Div(b(Node::X), b(Node::Y))));
    let s = TreeStats::from_node(&t);
    assert_eq!(s.y_only_subtree_op_counts, vec![1]);
    assert_eq!(s.x_only_subtrees, 0);
    assert_eq!(s.total_nodes, 6);
    assert_eq!(s.max_depth, 2);
    assert_eq!(s.leaf_depths, vec![2, 2, 2]);
}

#[test]
fn histogram_counts_by_value() {
    assert_eq!(TreeStats::histogram(&vec![3, 1, 3, 2]), BTreeMap::from([(1, 1), (2, 1), (3, 2)]));
    assert_eq!(TreeStats::histogram(&vec![]), BTreeMap::new());
    assert_eq!(TreeStats::histogram(&vec![5, 5, 5]), BTreeMap::from([(5, 3)]));
}

#[test]
fn exclusive_histogram_keeps_the_excess_over_larger_values() {
    assert_eq!(TreeStats::exclusive_histogram(&vec![1, 1, 1, 2, 3, 3]), BTreeMap::from([(1, 1), (3, 2)]));
    assert_eq!(TreeStats::exclusive_histogram(&vec![4, 2, 2]), BTreeMap::from([(2, 1), (4, 1)]));
    assert_eq!(TreeStats::exclusive_histogram(&vec![]), BTreeMap::new());
}

#[test]
fn report_lists_counts_and_histograms() {
    let t = Node::Add(b(Node::X), b(Node::Sin(b(Node::Number(0x3F80_0000)))));
    let text = TreeStats::from_node(&t).report();
    assert_eq!(
        text,
        "Total Nodes: 4\nTotal Ops: 2\nOp Counts: {Add: 1, Sin: 1}\nLeaf Nodes: 2\nMax Depth: 2\n\
         X-only Subtrees: 2\nY-only Subtrees: 0\nLeaf Depth Histogram: {1: 1, 2: 1}\n\
         X-only Subtree Op Counts Histogram: {2: 1}\nY-only Subtree Op Counts Histogram: {}\n"
    );
}

#[test]
fn codegen_declares_one_temporary_per_operator_and_constant() {
    let mut ctx = CodegenCtx::new();
    let t = Node::Div(b(Node::X), b(Node::Number(0x3F80_0000)));
    let result = ctx.gen(&t);
    assert_eq!(result, "t1");
    assert_eq!(
        ctx.eval_function("eval_r", &result),
        "float eval_r(float x, float y) {\n    float t0 = as_type<float>(0x3F800000u);\n    \
         float t1 = fabs(t0) > 1e-6 ? (x / t0) : 0.0;\n    return t1;\n}\n"
    );
}

#[test]
fn codegen_of_a_leaf_needs_no_line() {
    let mut ctx = CodegenCtx::new();
    assert_eq!(ctx.gen(&Node::Y), "y");
    assert_eq!(ctx.eval_function("f", "y"), "float f(float x, float y) {\n    return y;\n}\n");
}

#[test]
fn shader_has_three_channel_functions() {
    let src = emit_metal_from_triple(&Node::X, &Node::Y, &Node::Add(b(Node::X), b(Node::Y)));
    assert!(src.starts_with(SHADER_HEADER));
    assert!(src.ends_with(SHADER_KERNEL));
    assert!(src.contains("float eval_r(float x, float y) {\n    return x;\n}\n"));
    assert!(src.contains("float eval_g(float x, float y) {\n    return y;\n}\n"));
    assert!(src.contains("float t0 = (x + y) * 0.5;"));
}

#[test]
fn postfix_puts_operands_before_operators() {
    let t = Node::MixUnbounded(
        b(Node::X),
        b(Node::Sqrt(b(Node::Y))),
        b(Node::Number(7)),
        b(Node::Modulo(b(Node::X), b(Node::Y))),
    );
    assert_eq!(
        compile_postfix(&t),
        vec![
            Instr::PushX,
            Instr::PushY,
            Instr::Apply(Op::Sqrt),
            Instr::PushConst(7),
            Instr::PushX,
            Instr::PushY,
            Instr::Apply(Op::Modulo),
            Instr::Apply(Op::MixUnbounded),
        ]
    );
}

#[test]
fn token_stream_walks_whitespace_separated_words() {
    let mut ts = TokenStream::new("add (\n  x\ty )");
    assert_eq!(ts.next().as_deref(), Some("add"));
    assert_eq!(ts.next().as_deref(), Some("("));
    assert_eq!(ts.expect("x").unwrap(), "x");
    assert_eq!(ts.next().as_deref(), Some("y"));
    assert_eq!(ts.current_pos(), 4);
    assert_eq!(ts.next().as_deref(), Some(")"));
    assert_eq!(ts.next(), None);
    let err = ts.expect("an expression").unwrap_err();
    assert_eq!(err.expected, "an expression");
    assert_eq!(err.position, 5);
}

#[test]
fn clone_keeps_the_tree() {
    let t = Node::Triple(b(Node::X), b(Node::Number(3)), b(Node::Exp(b(Node::Y))));
    assert_eq!(t.clone(), t);
}

#[test]
fn histograms_of_stats() {
    let t = Node::Add(b(Node::X), b(Node::Sin(b(Node::Number(0x3F80_0000)))));
    let s = TreeStats::from_node(&t);
    assert_eq!(s.leaf_depth_histogram(), BTreeMap::from([(1, 1), (2, 1)]));
    assert_eq!(s.x_only_subtree_op_counts_histogram(), BTreeMap::from([(2, 1)]));
    assert_eq!(s.y_only_subtree_op_counts_histogram(), BTreeMap::new());
}

#[test]
fn default_grammar_atoms_are_axes_or_unit_literals() {
    for seed in 0u64..50 {
        let mut g = Grammar::default(seed);
        match g.gen_rule(2, 3).map(|t| *t) {
            Some(Node::X) | Some(Node::Y) | None => {}
            Some(Node::Number(bits)) => {
                let v = f32::from_bits(bits);
                assert!((-1.0..1.0).contains(&v));
            }
            Some(other) => panic!("unexpected atom {:?}", other),
        }
    }
}
