//! The syntax tree: string literals and function-call statements.

use crate::tokens::Location;
use vstd::prelude::*;

verus! {

/// What a node is.
#[derive(Debug, PartialEq)]
pub enum NodeKind {
    /// A string literal, with its escapes already decoded.
    String(String),
    /// A call: the function's name and its arguments, in order.
    FunctionCall(String, Vec<Node>),
}

/// A node of the syntax tree with its location.
#[derive(Debug, PartialEq)]
pub struct Node {
    pub kind: NodeKind,
    pub location: Location,
}

} // verus!
