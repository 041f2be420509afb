use randomart::dsl::{constants, literal_tokens, parse_expr, to_text, ParseError};
use randomart::grammar::Grammar;
use randomart::hash::fnv1a;
use randomart::node::Node;
use randomart::tokens::TokenStream;

fn b(n: Node) -> Box<Node> {
    Box::new(n)
}

fn literal_text(bits: u32) -> String {
    format!("{:?}", f32::from_bits(bits))
}

fn write(t: &Node) -> String {
    let lits: Vec<String> = constants(t).into_iter().map(literal_text).collect();
    to_text(t, &lits)
}

fn read(text: &str) -> Result<Node, ParseError> {
    let mut ts = TokenStream::new(text);
    let values: Vec<u32> = literal_tokens(&ts)
        .iter()
        .map(|s| s.parse::<f32>().unwrap().to_bits())
        .collect();
    parse_expr(&mut ts, &values)
}

#[test]
fn triple_of_x_y_one_round_trips() {
    let t = Node::Triple(b(Node::X), b(Node::Y), b(Node::Number(1.0f32.to_bits())));
    let text = write(&t);
    assert_eq!(text, "triple ( \n  x\n  y\n  const_ ( 1.0 )\n ) \n");
    assert_eq!(read(&text), Ok(t));
}

#[test]
fn every_kind_round_trips() {
    let t = Node::MixUnbounded(
        b(Node::Add(b(Node::X), b(Node::Number(0.25f32.to_bits())))),
        b(Node::Mult(b(Node::Sin(b(Node::Y))), b(Node::Cos(b(Node::X))))),
        b(Node::Div(b(Node::Exp(b(Node::Y))), b(Node::Sqrt(b(Node::Number((-3.0f32).to_bits())))))),
        b(Node::Mix(
            b(Node::Modulo(b(Node::X), b(Node::Y))),
            b(Node::Number(0.1f32.to_bits())),
            b(Node::Y),
            b(Node::X),
        )),
    );
    assert_eq!(read(&write(&t)), Ok(t));
}

#[test]
fn generated_trees_round_trip() {
    for seed in [1u64, 2, 3, fnv1a("spiderman")] {
        let mut g = Grammar::default(seed);
        if let Some(t) = g.gen_rule(0, 12) {
            assert_eq!(read(&write(&t)), Ok(*t));
        }
    }
}

#[test]
fn constants_come_in_prefix_order() {
    let t = Node::Add(b(Node::Number(1)), b(Node::Sin(b(Node::Number(2)))));
    assert_eq!(constants(&t), vec![1, 2]);
    assert_eq!(
        to_text(&t, &vec!["a".to_string(), "b".to_string()]),
        "add ( \n  const_ ( a )\n  sin ( \n    const_ ( b )\n   ) \n ) \n"
    );
}

#[test]
fn literal_tokens_follow_const_markers() {
    let ts = TokenStream::new("add ( const_ ( 0.5 ) const_ ( -2.0 ) )");
    assert_eq!(literal_tokens(&ts), vec!["0.5".to_string(), "-2.0".to_string()]);
}

#[test]
fn unknown_token_is_an_error() {
    assert!(read("tan ( x )").is_err());
    assert!(read("").is_err());
}

#[test]
fn truncated_text_is_an_error() {
    assert!(read("add ( x").is_err());
    assert!(read("triple ( x y )").is_err());
    let mut ts = TokenStream::new("const_ ( 0.5 )");
    assert!(parse_expr(&mut ts, &vec![]).is_err());
}

#[test]
fn parse_stops_after_one_tree() {
    let mut ts = TokenStream::new("x y");
    assert_eq!(parse_expr(&mut ts, &vec![]), Ok(Node::X));
    assert_eq!(ts.current_pos(), 1);
}

#[test]
fn parentheses_are_optional_and_skipped() {
    assert_eq!(read("add x y"), Ok(Node::Add(b(Node::X), b(Node::Y))));
    assert_eq!(read("( ( x ) )"), Ok(Node::X));
    assert_eq!(read(") sin ( ( y"), Ok(Node::Sin(b(Node::Y))));
}

#[test]
fn const_reads_the_token_after_the_next() {
    let mut ts = TokenStream::new("const_ ( 0.5 )");
    assert_eq!(literal_tokens(&ts), vec!["0.5".to_string()]);
    assert_eq!(parse_expr(&mut ts, &vec![0.5f32.to_bits()]), Ok(Node::Number(0.5f32.to_bits())));
    assert_eq!(ts.current_pos(), 3);
}
