//! What the stages around the syntax tree offer: reading a source text into
//! a tree, rewriting a tree, and rendering a tree as text.

use crate::syntax::AlephTree;
use vstd::prelude::*;

verus! {

/// A parser reads a source text into the root node of its syntax tree. It
/// holds what it needs of the grammar, such as the table of rules.
pub trait Parser {
    fn parse(&self, source: String) -> AlephTree;
}

/// A transformation rewrites a syntax tree into another.
pub trait Transform {
    fn transform(&self, ast: AlephTree) -> AlephTree;
}

/// A generator renders a syntax tree as text of its target language.
pub trait Generator {
    fn generate(&self, ast: AlephTree) -> String;
}

} // verus!
