use vstd::prelude::*;

verus! {

/// An expression tree over the two axes `x` and `y`.
///
/// A constant is kept as the bit pattern of an IEEE-754 single-precision
/// number, so that equality of trees is exact structural equality.
/// `Rule` and `Random` are placeholders that only exist while the grammar
/// expands a tree; `Triple` only stands at the root of a finished tree.
#[derive(Debug, PartialEq)]
pub enum Node {
    X,
    Y,
    Random,
    Rule(usize),
    Number(u32),
    Sqrt(Box<Node>),
    Sin(Box<Node>),
    Cos(Box<Node>),
    Exp(Box<Node>),
    Add(Box<Node>, Box<Node>),
    Mult(Box<Node>, Box<Node>),
    Div(Box<Node>, Box<Node>),
    Modulo(Box<Node>, Box<Node>),
    Triple(Box<Node>, Box<Node>, Box<Node>),
    Mix(Box<Node>, Box<Node>, Box<Node>, Box<Node>),
    MixUnbounded(Box<Node>, Box<Node>, Box<Node>, Box<Node>),
}

impl Clone for Node {
    fn clone(&self) -> (r: Self)
        ensures
            r == *self,
        decreases self,
    {
        match self {
            Node::X => Node::X,
            Node::Y => Node::Y,
            Node::Random => Node::Random,
            Node::Rule(i) => Node::Rule(*i),
            Node::Number(v) => Node::Number(*v),
            Node::Sqrt(a) => Node::Sqrt(Box::new((**a).clone())),
            Node::Sin(a) => Node::Sin(Box::new((**a).clone())),
            Node::Cos(a) => Node::Cos(Box::new((**a).clone())),
            Node::Exp(a) => Node::Exp(Box::new((**a).clone())),
            Node::Add(a, b) => Node::Add(Box::new((**a).clone()), Box::new((**b).clone())),
            Node::Mult(a, b) => Node::Mult(Box::new((**a).clone()), Box::new((**b).clone())),
            Node::Div(a, b) => Node::Div(Box::new((**a).clone()), Box::new((**b).clone())),
            Node::Modulo(a, b) => Node::Modulo(Box::new((**a).clone()), Box::new((**b).clone())),
            Node::Triple(a, b, c) => Node::Triple(
                Box::new((**a).clone()),
                Box::new((**b).clone()),
                Box::new((**c).clone()),
            ),
            Node::Mix(a, b, c, d) => Node::Mix(
                Box::new((**a).clone()),
                Box::new((**b).clone()),
                Box::new((**c).clone()),
                Box::new((**d).clone()),
            ),
            Node::MixUnbounded(a, b, c, d) => Node::MixUnbounded(
                Box::new((**a).clone()),
                Box::new((**b).clone()),
                Box::new((**c).clone()),
                Box::new((**d).clone()),
            ),
        }
    }
}

impl Node {
    /// Number of nodes in the tree.
    pub open spec fn size(self) -> nat
        decreases self,
    {
        match self {
            Node::X | Node::Y | Node::Random | Node::Rule(_) | Node::Number(_) => 1,
            Node::Sqrt(a) | Node::Sin(a) | Node::Cos(a) | Node::Exp(a) => 1 + a.size(),
            Node::Add(a, b) | Node::Mult(a, b) | Node::Div(a, b) | Node::Modulo(a, b) => 1
                + a.size() + b.size(),
            Node::Triple(a, b, c) => 1 + a.size() + b.size() + c.size(),
            Node::Mix(a, b, c, d) | Node::MixUnbounded(a, b, c, d) => 1 + a.size() + b.size()
                + c.size() + d.size(),
        }
    }

    /// A scalar expression: no placeholder and no `Triple` anywhere in it.
    pub open spec fn is_scalar(self) -> bool
        decreases self,
    {
        match self {
            Node::X | Node::Y | Node::Number(_) => true,
            Node::Random | Node::Rule(_) | Node::Triple(_, _, _) => false,
            Node::Sqrt(a) | Node::Sin(a) | Node::Cos(a) | Node::Exp(a) => a.is_scalar(),
            Node::Add(a, b) | Node::Mult(a, b) | Node::Div(a, b) | Node::Modulo(a, b) =>
                a.is_scalar() && b.is_scalar(),
            Node::Mix(a, b, c, d) | Node::MixUnbounded(a, b, c, d) => a.is_scalar()
                && b.is_scalar() && c.is_scalar() && d.is_scalar(),
        }
    }

    /// A finished colour tree: a `Triple` of three scalar expressions.
    pub open spec fn is_colour_tree(self) -> bool {
        match self {
            Node::Triple(r, g, b) => r.is_scalar() && g.is_scalar() && b.is_scalar(),
            _ => false,
        }
    }
}

impl Node {
    /// Whether the tree is a scalar expression (see `is_scalar`).
    pub fn check_scalar(&self) -> (r: bool)
        ensures
            r == self.is_scalar(),
        decreases self,
    {
        match self {
            Node::X | Node::Y | Node::Number(_) => true,
            Node::Random | Node::Rule(_) | Node::Triple(_, _, _) => false,
            Node::Sqrt(a) | Node::Sin(a) | Node::Cos(a) | Node::Exp(a) => a.check_scalar(),
            Node::Add(a, b) | Node::Mult(a, b) | Node::Div(a, b) | Node::Modulo(a, b) =>
                a.check_scalar() && b.check_scalar(),
            Node::Mix(a, b, c, d) | Node::MixUnbounded(a, b, c, d) => a.check_scalar()
                && b.check_scalar() && c.check_scalar() && d.check_scalar(),
        }
    }

    /// Whether the tree is a finished colour tree (see `is_colour_tree`).
    pub fn check_colour_tree(&self) -> (r: bool)
        ensures
            r == self.is_colour_tree(),
    {
        match self {
            Node::Triple(r, g, b) => r.check_scalar() && g.check_scalar() && b.check_scalar(),
            _ => false,
        }
    }
}

} // verus!
