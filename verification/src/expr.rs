//! The syntax tree that the reader produces and the compiler walks.

use vstd::prelude::*;

verus! {

broadcast use vstd::std_specs::vec::axiom_vec_index_decreases;

/// A syntax node.  A decimal literal is kept as it was written: the backend
/// turns the text into a double, so no precision is lost on the way.
#[derive(Debug, PartialEq)]
pub enum Expr {
    Symbol(String),
    Integer(i64),
    Float(String),
    List(Vec<Expr>),
}

/// The mathematical value of a syntax node.
pub enum SyntaxNode {
    Symbol(Seq<char>),
    Integer(i64),
    Float(Seq<char>),
    List(Seq<SyntaxNode>),
}

impl View for Expr {
    type V = SyntaxNode;

    open spec fn view(&self) -> SyntaxNode
        decreases self,
    {
        match self {
            Expr::Symbol(name) => SyntaxNode::Symbol(name@),
            Expr::Integer(n) => SyntaxNode::Integer(*n),
            Expr::Float(text) => SyntaxNode::Float(text@),
            Expr::List(items) => SyntaxNode::List(views_of(items@)),
        }
    }
}

/// The values of a sequence of syntax nodes, one by one.
pub open spec fn views_of(items: Seq<Expr>) -> Seq<SyntaxNode>
    decreases items,
{
    Seq::new(
        items.len(),
        |i: int|
            if 0 <= i < items.len() {
                items[i]@
            } else {
                SyntaxNode::Integer(0)
            },
    )
}

impl SyntaxNode {
    /// Whether the node is a list headed by the symbol `define`.
    pub open spec fn is_definition(self) -> bool {
        &&& self matches SyntaxNode::List(items)
        &&& items.len() > 0
        &&& items[0] == SyntaxNode::Symbol("define"@)
    }
}

impl Clone for Expr {
    /// A copy with the same value.
    fn clone(&self) -> (copy: Expr)
        ensures
            copy@ == self@,
        decreases self,
    {
        match self {
            Expr::Symbol(name) => Expr::Symbol(name.clone()),
            Expr::Integer(n) => Expr::Integer(*n),
            Expr::Float(text) => Expr::Float(text.clone()),
            Expr::List(items) => {
                let mut copies: Vec<Expr> = Vec::new();
                let mut i: usize = 0;
                while i < items.len()
                    invariant
                        i <= items.len(),
                        self matches Expr::List(own) && own == items,
                        copies.len() == i,
                        forall|k: int| 0 <= k < i ==> copies[k]@ == items[k]@,
                    decreases items.len() - i,
                {
                    copies.push(items[i].clone());
                    i = i + 1;
                }
                assert(views_of(copies@) =~= views_of(items@));
                Expr::List(copies)
            },
        }
    }
}

impl Expr {
    /// Whether the node is a `define` form, of a variable or of a function.
    pub fn is_definition(&self) -> (r: bool)
        ensures
            r == self@.is_definition(),
    {
        match self {
            Expr::List(items) => {
                if items.len() == 0 {
                    false
                } else {
                    assert(views_of(items@)[0] == items[0]@);
                    match &items[0] {
                        Expr::Symbol(name) => {
                            let word = "define".to_owned();
                            *name == word
                        },
                        _ => false,
                    }
                }
            },
            _ => false,
        }
    }
}

} // verus!
