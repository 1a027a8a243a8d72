//! Tokens and the source locations attached to them.

use vstd::prelude::*;

verus! {

/// The lexical classes of the language.
#[derive(Clone, Copy, Debug, PartialEq, Eq, Structural)]
pub enum TokenKind {
    Identifier,
    String,
    OParen,
    CParen,
    Comma,
    Semicolon,
}

/// Where a token or node stands in its source: 1-based line and column
/// numbers of its first and last character, the display name of the file,
/// and the full text of the line it starts on.
#[derive(Clone, Debug, PartialEq)]
pub struct Location {
    pub start_col: usize,
    pub end_col: usize,
    pub start_line: usize,
    pub end_line: usize,
    pub file_path: String,
    pub line: String,
}

impl Location {
    /// A copy of this location, equal to it in every field.
    pub fn duplicate(&self) -> (r: Location)
        ensures
            r == *self,
    {
        Location {
            start_col: self.start_col,
            end_col: self.end_col,
            start_line: self.start_line,
            end_line: self.end_line,
            file_path: self.file_path.clone(),
            line: self.line.clone(),
        }
    }
}

/// A classified lexical unit: its kind, its text (for a string literal,
/// the raw text between the quotes) and its location.
#[derive(Clone, Debug, PartialEq)]
pub struct Token {
    pub kind: TokenKind,
    pub value: String,
    pub location: Location,
}

impl Token {
    /// A copy of this token, equal to it in every field.
    pub fn duplicate(&self) -> (r: Token)
        ensures
            r == *self,
    {
        Token { kind: self.kind, value: self.value.clone(), location: self.location.duplicate() }
    }
}

} // verus!
