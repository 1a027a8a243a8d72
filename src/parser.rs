//! The parser: tokens to call statements of the form
//! `Identifier "(" (String | ",")* ")" ";"`.

use crate::ast::{Node, NodeKind};
use crate::text::{decode_escapes, decoded};
use crate::tokens::{Token, TokenKind};
use vstd::prelude::*;

verus! {

/// What can stop the parser.
#[derive(Clone, Copy, Debug, PartialEq, Eq, Structural)]
pub enum ParseErrorKind {
    /// A statement starts with a token of this kind instead of an identifier.
    UnexpectedToken(TokenKind),
    /// The token after the current one is missing or not of this kind.
    ExpectedToken(TokenKind),
    /// Inside an argument list, the token after the current one is missing
    /// or is none of `)`, a string literal, `,`.
    ExpectedArgument,
}

/// A fatal parse error: its kind, the token it is reported at and the token
/// after it, if any. For `ExpectedToken` with a following token, the
/// reported token's start column is moved to its end column, so that a
/// diagnostic points just past it.
#[derive(Clone, Debug, PartialEq)]
pub struct ParseError {
    pub kind: ParseErrorKind,
    pub token: Token,
    pub next: Option<Token>,
}

/// A parse error as the parser sees it: its kind and the index of the token
/// it is reported at.
pub struct SpecParseError {
    pub kind: ParseErrorKind,
    pub at: int,
}

/// The kinds that may follow `(`, a string literal or `,` in an argument list.
pub open spec fn is_argument_kind(k: TokenKind) -> bool {
    k == TokenKind::CParen || k == TokenKind::String || k == TokenKind::Comma
}

/// Index of the `)` that closes the argument list in which token `k` stands.
pub open spec fn close_paren(ts: Seq<Token>, k: int) -> Result<int, SpecParseError>
    decreases ts.len() - k,
{
    if k < 0 || k + 1 >= ts.len() || !is_argument_kind(ts[k + 1].kind) {
        Err(SpecParseError { kind: ParseErrorKind::ExpectedArgument, at: k })
    } else if ts[k + 1].kind == TokenKind::CParen {
        Ok(k + 1)
    } else {
        close_paren(ts, k + 1)
    }
}

/// The statement that starts at token `i`: the index of its `)`.
pub open spec fn parse_statement(ts: Seq<Token>, i: int) -> Result<int, SpecParseError> {
    if ts[i].kind != TokenKind::Identifier {
        Err(SpecParseError { kind: ParseErrorKind::UnexpectedToken(ts[i].kind), at: i })
    } else if i + 1 >= ts.len() || ts[i + 1].kind != TokenKind::OParen {
        Err(SpecParseError { kind: ParseErrorKind::ExpectedToken(TokenKind::OParen), at: i })
    } else {
        match close_paren(ts, i + 1) {
            Err(e) => Err(e),
            Ok(c) => if c + 1 >= ts.len() || ts[c + 1].kind != TokenKind::Semicolon {
                Err(SpecParseError { kind: ParseErrorKind::ExpectedToken(TokenKind::Semicolon), at: c })
            } else {
                Ok(c)
            },
        }
    }
}

/// `r` with the statement `s` in front of its statements.
pub open spec fn prepend_call(
    s: (int, int),
    r: Result<Seq<(int, int)>, SpecParseError>,
) -> Result<Seq<(int, int)>, SpecParseError> {
    match r {
        Ok(ss) => Ok(seq![s] + ss),
        Err(e) => Err(e),
    }
}

/// `r` with the statements `d` in front of its statements.
pub open spec fn prepend_calls(
    d: Seq<(int, int)>,
    r: Result<Seq<(int, int)>, SpecParseError>,
) -> Result<Seq<(int, int)>, SpecParseError> {
    match r {
        Ok(ss) => Ok(d + ss),
        Err(e) => Err(e),
    }
}

/// The statements from token `i` on, each given by the indices of its name
/// and of its `)`, or the first parse error.
pub open spec fn parse_from(ts: Seq<Token>, i: int) -> Result<Seq<(int, int)>, SpecParseError>
    decreases ts.len() - i,
    via parse_from_decreases
{
    if i < 0 || i >= ts.len() {
        Ok(Seq::empty())
    } else {
        match parse_statement(ts, i) {
            Err(e) => Err(e),
            Ok(c) => prepend_call((i, c), parse_from(ts, c + 2)),
        }
    }
}

proof fn lemma_close_paren_after(ts: Seq<Token>, k: int)
    ensures
        close_paren(ts, k) is Ok ==> k < close_paren(ts, k)->Ok_0 < ts.len(),
    decreases ts.len() - k,
{
    if 0 <= k && k + 1 < ts.len() {
        lemma_close_paren_after(ts, k + 1);
    }
}

#[via_fn]
proof fn parse_from_decreases(ts: Seq<Token>, i: int) {
    lemma_close_paren_after(ts, i + 1);
}

/// Indices of the string-literal tokens among tokens `a` to `b - 1`.
pub open spec fn string_args(ts: Seq<Token>, a: int, b: int) -> Seq<int>
    decreases b - a,
{
    if b <= a {
        Seq::empty()
    } else if ts[b - 1].kind == TokenKind::String {
        string_args(ts, a, b - 1).push(b - 1)
    } else {
        string_args(ts, a, b - 1)
    }
}

/// Whether `n` is the string literal made from token `t`.
pub open spec fn literal_matches(t: Token, n: Node) -> bool {
    &&& n.kind is String
    &&& n.kind->String_0@ == decoded(t.value@)
    &&& n.location == t.location
}

/// Whether `args` are the string literals made from the tokens at `idx`.
pub open spec fn args_match(ts: Seq<Token>, idx: Seq<int>, args: Seq<Node>) -> bool {
    &&& args.len() == idx.len()
    &&& forall|k: int| 0 <= k < args.len() ==> literal_matches(ts[idx[k]], #[trigger] args[k])
}

/// Whether `n` is the call statement whose name is token `s.0` and whose
/// `)` is token `s.1`. Its location is that of its name.
pub open spec fn call_matches(ts: Seq<Token>, s: (int, int), n: Node) -> bool {
    &&& n.location == ts[s.0].location
    &&& n.kind is FunctionCall
    &&& n.kind->FunctionCall_0@ == ts[s.0].value@
    &&& args_match(ts, string_args(ts, s.0 + 2, s.1), n.kind->FunctionCall_1@)
}

/// Whether `ns` are the call statements `ss`.
pub open spec fn calls_match(ts: Seq<Token>, ss: Seq<(int, int)>, ns: Seq<Node>) -> bool {
    &&& ns.len() == ss.len()
    &&& forall|k: int| 0 <= k < ns.len() ==> call_matches(ts, ss[k], #[trigger] ns[k])
}

/// Whether `pe` is the error `e` reported over the tokens `ts`.
pub open spec fn error_matches(ts: Seq<Token>, e: SpecParseError, pe: ParseError) -> bool {
    &&& pe.kind == e.kind
    &&& pe.next == if e.at + 1 < ts.len() {
        Some(ts[e.at + 1])
    } else {
        None
    }
    &&& if e.kind is ExpectedToken && e.at + 1 < ts.len() {
        pe.token == Token {
            location: crate::tokens::Location {
                start_col: ts[e.at].location.end_col,
                ..ts[e.at].location
            },
            ..ts[e.at]
        }
    } else {
        pe.token == ts[e.at]
    }
}

/// Turns tokens into call statements.
pub struct Parser {
    /// The statements produced so far.
    pub output_nodes: Vec<Node>,
    /// The tokens to parse.
    pub input_tokens: Vec<Token>,
}

impl Parser {
    /// A parser over `input_tokens`.
    pub fn new(input_tokens: Vec<Token>) -> (r: Self)
        ensures
            r.output_nodes@.len() == 0,
            r.input_tokens == input_tokens,
    {
        Parser { output_nodes: Vec::new(), input_tokens }
    }

    fn error_at(&self, kind: ParseErrorKind, at: usize) -> (r: ParseError)
        requires
            at < self.input_tokens@.len(),
        ensures
            error_matches(self.input_tokens@, SpecParseError { kind, at: at as int }, r),
    {
        let n = self.input_tokens.len();
        let mut token = self.input_tokens[at].duplicate();
        let next = if at + 1 < n {
            Some(self.input_tokens[at + 1].duplicate())
        } else {
            None
        };
        if matches!(kind, ParseErrorKind::ExpectedToken(_)) && at + 1 < n {
            token.location.start_col = token.location.end_col;
        }
        ParseError { kind, token, next }
    }

    /// Parses every statement and appends them to `output_nodes`, or reports
    /// the first parse error. Each statement's location is that of its
    /// name, where the statement starts.
    pub fn parse(&mut self) -> (r: Result<(), ParseError>)
        ensures
            final(self).input_tokens == old(self).input_tokens,
            old(self).input_tokens@.len() == 0 ==> r is Ok && final(self).output_nodes
                == old(self).output_nodes,
            match parse_from(old(self).input_tokens@, 0) {
                Ok(ss) => {
                    &&& r is Ok
                    &&& final(self).output_nodes@.subrange(0, old(self).output_nodes@.len() as int)
                        == old(self).output_nodes@
                    &&& calls_match(
                        old(self).input_tokens@,
                        ss,
                        final(self).output_nodes@.subrange(
                            old(self).output_nodes@.len() as int,
                            final(self).output_nodes@.len() as int,
                        ),
                    )
                },
                Err(e) => r is Err && error_matches(old(self).input_tokens@, e, r->Err_0),
            },
    {
        let ghost ts = self.input_tokens@;
        let ghost base = self.output_nodes@;
        let ghost mut done: Seq<(int, int)> = Seq::empty();
        let n = self.input_tokens.len();
        let mut i: usize = 0;
        while i < n
            invariant
                self.input_tokens == old(self).input_tokens,
                ts == self.input_tokens@,
                n == ts.len(),
                base == old(self).output_nodes@,
                self.output_nodes@.len() >= base.len(),
                self.output_nodes@.subrange(0, base.len() as int) == base,
                calls_match(
                    ts,
                    done,
                    self.output_nodes@.subrange(base.len() as int, self.output_nodes@.len() as int),
                ),
                parse_from(ts, 0) == prepend_calls(done, parse_from(ts, i as int)),
                n == 0 ==> self.output_nodes == old(self).output_nodes,
            decreases n - i,
        {
            if self.input_tokens[i].kind != TokenKind::Identifier {
                return Err(self.error_at(ParseErrorKind::UnexpectedToken(self.input_tokens[i].kind), i));
            }
            if i + 1 >= n || self.input_tokens[i + 1].kind != TokenKind::OParen {
                return Err(self.error_at(ParseErrorKind::ExpectedToken(TokenKind::OParen), i));
            }
            let mut args: Vec<Node> = Vec::new();
            let mut k: usize = i + 1;
            loop
                invariant_except_break
                    close_paren(ts, i + 1) == close_paren(ts, k as int),
                    args_match(ts, string_args(ts, i + 2, k + 1), args@),
                invariant
                    self.input_tokens == old(self).input_tokens,
                    self.output_nodes == old(self).output_nodes || n > 0,
                    ts == self.input_tokens@,
                    n == ts.len(),
                    i < n,
                    ts[i as int].kind == TokenKind::Identifier,
                    ts[i + 1].kind == TokenKind::OParen,
                    parse_from(ts, 0) == prepend_calls(done, parse_from(ts, i as int)),
                    i + 1 <= k < n,
                ensures
                    i + 1 < k < n,
                    close_paren(ts, i + 1) == Ok::<int, SpecParseError>(k as int),
                    args_match(ts, string_args(ts, i + 2, k as int), args@),
                decreases n - k,
            {
                if k + 1 >= n || !(self.input_tokens[k + 1].kind == TokenKind::CParen
                    || self.input_tokens[k + 1].kind == TokenKind::String
                    || self.input_tokens[k + 1].kind == TokenKind::Comma) {
                    return Err(self.error_at(ParseErrorKind::ExpectedArgument, k));
                }
                k = k + 1;
                if self.input_tokens[k].kind == TokenKind::CParen {
                    break;
                }
                if self.input_tokens[k].kind == TokenKind::String {
                    let value = decode_escapes(&self.input_tokens[k].value);
                    let location = self.input_tokens[k].location.duplicate();
                    let ghost prev = args@;
                    args.push(Node { kind: NodeKind::String(value), location });
                    proof {
                        let idx = string_args(ts, i + 2, k + 1);
                        assert(idx == string_args(ts, i + 2, k as int).push(k as int));
                        assert(forall|j: int| 0 <= j < args@.len() - 1 ==> args@[j] == prev[j]);
                    }
                }
            }
            let c = k;
            if c + 1 >= n || self.input_tokens[c + 1].kind != TokenKind::Semicolon {
                return Err(self.error_at(ParseErrorKind::ExpectedToken(TokenKind::Semicolon), c));
            }
            let name = self.input_tokens[i].value.clone();
            let location = self.input_tokens[i].location.duplicate();
            let ghost before = self.output_nodes@;
            self.output_nodes.push(Node { kind: NodeKind::FunctionCall(name, args), location });
            proof {
                let out = self.output_nodes@;
                let s = (i as int, c as int);
                assert(parse_statement(ts, i as int) == Ok::<int, SpecParseError>(c as int));
                assert(prepend_calls(done, prepend_call(s, parse_from(ts, c + 2))) == prepend_calls(
                    done.push(s),
                    parse_from(ts, c + 2),
                )) by {
                    if let Ok(ss) = parse_from(ts, c + 2) {
                        assert(done + (seq![s] + ss) =~= done.push(s) + ss);
                    }
                }
                done = done.push(s);
                assert(out.subrange(0, base.len() as int) =~= base);
                assert forall|j: int| 0 <= j < done.len() implies call_matches(
                    ts,
                    done[j],
                    #[trigger] out.subrange(base.len() as int, out.len() as int)[j],
                ) by {
                    if j < done.len() - 1 {
                        assert(out.subrange(base.len() as int, out.len() as int)[j]
                            == before.subrange(base.len() as int, before.len() as int)[j]);
                    }
                }
            }
            i = c + 2;
        }
        proof {
            assert(done + Seq::<(int, int)>::empty() =~= done);
        }
        Ok(())
    }
}

} // verus!
