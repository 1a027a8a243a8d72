//! The lexer: source text to a sequence of located tokens, in one left to
//! right scan.

use crate::text::{
    alphabetic, alphanumeric, chars_of, is_alphabetic, is_alphanumeric, is_whitespace, push_char,
    string_of_range, whitespace,
};
use crate::tokens::{Location, Token, TokenKind};
use vstd::prelude::*;

verus! {

/// Index of the first character of the line that holds position `i`.
pub open spec fn line_start(src: Seq<char>, i: int) -> int
    decreases i,
{
    if i <= 0 {
        0
    } else if src[i - 1] == '\n' {
        i
    } else {
        line_start(src, i - 1)
    }
}

/// 1-based number of the line that holds position `i`.
pub open spec fn line_number(src: Seq<char>, i: int) -> int
    decreases i,
{
    if i <= 0 {
        1
    } else {
        line_number(src, i - 1) + if src[i - 1] == '\n' {
            1int
        } else {
            0int
        }
    }
}

/// 1-based column of position `i` within its line.
pub open spec fn column(src: Seq<char>, i: int) -> int {
    i - line_start(src, i) + 1
}

/// Index of the first newline at or after `k`, or the length of `src`.
pub open spec fn line_end(src: Seq<char>, k: int) -> int
    decreases src.len() - k,
{
    if k < 0 || k >= src.len() {
        src.len() as int
    } else if src[k] == '\n' {
        k
    } else {
        line_end(src, k + 1)
    }
}

/// Index of the first character at or after `k` that is a newline or not
/// white space, or the length of `src`.
pub open spec fn code_start(src: Seq<char>, k: int) -> int
    decreases src.len() - k,
{
    if k < 0 || k >= src.len() {
        src.len() as int
    } else if src[k] != '\n' && whitespace(src[k]) {
        code_start(src, k + 1)
    } else {
        k
    }
}

/// Whether the line beginning at `ls` begins with `//` once leading white
/// space is skipped.
pub open spec fn comment_line_at(src: Seq<char>, ls: int) -> bool {
    let f = code_start(src, ls);
    f + 1 < src.len() && src[f] == '/' && src[f + 1] == '/'
}

/// Whether position `i` lies on a full-line comment.
pub open spec fn is_comment_line(src: Seq<char>, i: int) -> bool {
    comment_line_at(src, line_start(src, i))
}

/// The text of the line beginning at `ls`, without its newline.
pub open spec fn line_text_at(src: Seq<char>, ls: int) -> Seq<char> {
    src.subrange(ls, line_end(src, ls))
}

/// The text of the line that holds position `i`, without its newline.
pub open spec fn line_text(src: Seq<char>, i: int) -> Seq<char> {
    line_text_at(src, line_start(src, i))
}

/// End (exclusive) of the run of alphanumeric characters that starts at `k`.
pub open spec fn ident_end(src: Seq<char>, k: int) -> int
    decreases src.len() - k,
{
    if k < 0 || k >= src.len() {
        src.len() as int
    } else if alphanumeric(src[k]) {
        ident_end(src, k + 1)
    } else {
        k
    }
}

/// Index of the first `"` at or after `k`, or the length of `src`.
pub open spec fn quote_from(src: Seq<char>, k: int) -> int
    decreases src.len() - k,
{
    if k < 0 || k >= src.len() {
        src.len() as int
    } else if src[k] == '"' {
        k
    } else {
        quote_from(src, k + 1)
    }
}

/// The kind of a one-character token, if `c` is one.
pub open spec fn punct_kind(c: char) -> Option<TokenKind> {
    if c == '(' {
        Some(TokenKind::OParen)
    } else if c == ')' {
        Some(TokenKind::CParen)
    } else if c == ',' {
        Some(TokenKind::Comma)
    } else if c == ';' {
        Some(TokenKind::Semicolon)
    } else {
        None
    }
}

/// A token as the lexer sees it: its kind, its text, and the positions of
/// its first and last character.
pub struct SpecToken {
    pub kind: TokenKind,
    pub value: Seq<char>,
    pub start: int,
    pub end: int,
}

/// What can stop the lexer.
#[derive(Clone, Copy, Debug, PartialEq, Eq, Structural)]
pub enum LexErrorKind {
    /// A character that begins no token.
    UnexpectedCharacter(char),
    /// A string literal with no closing quote; reported at its opening quote.
    UnterminatedString,
}

/// A lexical error as the lexer sees it: its kind and the position it is
/// reported at.
pub struct SpecLexError {
    pub kind: LexErrorKind,
    pub at: int,
}

/// A fatal lexical error and where it is reported.
#[derive(Clone, Debug, PartialEq)]
pub struct LexError {
    pub kind: LexErrorKind,
    pub location: Location,
}

/// `r` with the token `t` in front of its tokens.
pub open spec fn prepend(
    t: SpecToken,
    r: Result<Seq<SpecToken>, SpecLexError>,
) -> Result<Seq<SpecToken>, SpecLexError> {
    match r {
        Ok(ts) => Ok(seq![t] + ts),
        Err(e) => Err(e),
    }
}

/// `r` with the tokens `d` in front of its tokens.
pub open spec fn prepend_all(
    d: Seq<SpecToken>,
    r: Result<Seq<SpecToken>, SpecLexError>,
) -> Result<Seq<SpecToken>, SpecLexError> {
    match r {
        Ok(ts) => Ok(d + ts),
        Err(e) => Err(e),
    }
}

/// The tokens of `src` from position `i` on, or the first lexical error.
/// A comment line gives no token; `"` starts a string literal that runs to
/// the next `"`; each of `( ) , ;` is a token of its own; white space gives
/// no token; an alphabetic character starts an identifier that runs over
/// the alphanumeric characters after it; anything else is an error.
pub open spec fn lex_from(src: Seq<char>, i: int) -> Result<Seq<SpecToken>, SpecLexError>
    decreases src.len() - i,
    via lex_from_decreases
{
    if i < 0 || i >= src.len() {
        Ok(Seq::empty())
    } else {
        let c = src[i];
        if is_comment_line(src, i) {
            lex_from(src, i + 1)
        } else if c == '"' {
            let q = quote_from(src, i + 1);
            if q >= src.len() {
                Err(SpecLexError { kind: LexErrorKind::UnterminatedString, at: i })
            } else {
                prepend(
                    SpecToken { kind: TokenKind::String, value: src.subrange(i + 1, q), start: i, end: q },
                    lex_from(src, q + 1),
                )
            }
        } else if punct_kind(c) is Some {
            prepend(
                SpecToken { kind: punct_kind(c)->0, value: seq![c], start: i, end: i },
                lex_from(src, i + 1),
            )
        } else if whitespace(c) {
            lex_from(src, i + 1)
        } else if alphabetic(c) {
            let e = ident_end(src, i + 1);
            prepend(
                SpecToken { kind: TokenKind::Identifier, value: src.subrange(i, e), start: i, end: e - 1 },
                lex_from(src, e),
            )
        } else {
            Err(SpecLexError { kind: LexErrorKind::UnexpectedCharacter(c), at: i })
        }
    }
}

#[via_fn]
proof fn lex_from_decreases(src: Seq<char>, i: int) {
    if 0 <= i < src.len() {
        lemma_ident_end_bounds(src, i + 1);
        lemma_quote_from_bounds(src, i + 1);
    }
}

proof fn lemma_ident_end_bounds(src: Seq<char>, k: int)
    requires
        0 <= k <= src.len(),
    ensures
        k <= ident_end(src, k) <= src.len(),
    decreases src.len() - k,
{
    if k < src.len() {
        lemma_ident_end_bounds(src, k + 1);
    }
}

proof fn lemma_quote_from_bounds(src: Seq<char>, k: int)
    requires
        0 <= k <= src.len(),
    ensures
        k <= quote_from(src, k) <= src.len(),
    decreases src.len() - k,
{
    if k < src.len() {
        lemma_quote_from_bounds(src, k + 1);
    }
}

proof fn lemma_line_bounds(src: Seq<char>, i: int)
    requires
        0 <= i,
    ensures
        0 <= line_start(src, i) <= i,
        1 <= line_number(src, i) <= i + 1,
    decreases i,
{
    if i > 0 {
        lemma_line_bounds(src, i - 1);
    }
}

/// Whether `loc` is the location of the span from `start` to `end` of
/// `src`, in the file named `file`.
pub open spec fn located(src: Seq<char>, file: Seq<char>, start: int, end: int, loc: Location) -> bool {
    &&& loc.start_col == column(src, start)
    &&& loc.start_line == line_number(src, start)
    &&& loc.end_col == column(src, end)
    &&& loc.end_line == line_number(src, end)
    &&& loc.file_path@ == file
    &&& loc.line@ == line_text(src, start)
}

/// Whether the token `t` is `s` located in `src`.
pub open spec fn token_matches(src: Seq<char>, file: Seq<char>, t: Token, s: SpecToken) -> bool {
    &&& t.kind == s.kind
    &&& t.value@ == s.value
    &&& located(src, file, s.start, s.end, t.location)
}

/// Whether `ts` are the tokens `specs` located in `src`.
pub open spec fn tokens_match(src: Seq<char>, file: Seq<char>, ts: Seq<Token>, specs: Seq<SpecToken>) -> bool {
    &&& ts.len() == specs.len()
    &&& forall|k: int| 0 <= k < ts.len() ==> token_matches(src, file, #[trigger] ts[k], specs[k])
}

/// The scan position with what is known of its line.
struct Cursor {
    pos: usize,
    line_no: usize,
    line_start: usize,
    comment: bool,
    line: String,
}

impl Cursor {
    spec fn wf(&self, src: Seq<char>) -> bool {
        &&& self.pos <= src.len()
        &&& self.line_no == line_number(src, self.pos as int)
        &&& self.line_start == line_start(src, self.pos as int)
        &&& self.comment == is_comment_line(src, self.pos as int)
        &&& self.line@ == line_text(src, self.pos as int)
    }
}

/// Whether the line beginning at `ls` is a full-line comment.
fn comment_line_from(src: &Vec<char>, ls: usize) -> (r: bool)
    requires
        ls <= src@.len(),
    ensures
        r == comment_line_at(src@, ls as int),
{
    let n = src.len();
    let mut k: usize = ls;
    while k < n && src[k] != '\n' && is_whitespace(src[k])
        invariant
            ls <= k <= n,
            n == src@.len(),
            code_start(src@, k as int) == code_start(src@, ls as int),
        decreases n - k,
    {
        k = k + 1;
    }
    n - k >= 2 && src[k] == '/' && src[k + 1] == '/'
}

/// The text of the line beginning at `ls`.
fn line_text_from(src: &Vec<char>, ls: usize) -> (r: String)
    requires
        ls <= src@.len(),
    ensures
        r@ == line_text_at(src@, ls as int),
{
    let n = src.len();
    let mut k: usize = ls;
    while k < n && src[k] != '\n'
        invariant
            ls <= k <= n,
            n == src@.len(),
            line_end(src@, k as int) == line_end(src@, ls as int),
        decreases n - k,
    {
        k = k + 1;
    }
    string_of_range(src, ls, k)
}

fn cursor_start(src: &Vec<char>) -> (r: Cursor)
    ensures
        r.wf(src@),
        r.pos == 0,
{
    Cursor {
        pos: 0,
        line_no: 1,
        line_start: 0,
        comment: comment_line_from(src, 0),
        line: line_text_from(src, 0),
    }
}

/// Moves the cursor one character on.
fn step(src: &Vec<char>, cur: &mut Cursor)
    requires
        old(cur).wf(src@),
        old(cur).pos < src@.len(),
        src@.len() < usize::MAX,
    ensures
        final(cur).wf(src@),
        final(cur).pos == old(cur).pos + 1,
{
    proof {
        lemma_line_bounds(src@, cur.pos as int);
    }
    let n = src.len();
    let c = src[cur.pos];
    cur.pos = cur.pos + 1;
    if c == '\n' {
        cur.line_no = cur.line_no + 1;
        cur.line_start = cur.pos;
        cur.comment = comment_line_from(src, cur.pos);
        cur.line = line_text_from(src, cur.pos);
    }
}

/// The location of the one character under the cursor.
fn here(src: &Vec<char>, file: &String, cur: &Cursor) -> (r: Location)
    requires
        cur.wf(src@),
        cur.pos < src@.len(),
    ensures
        located(src@, file@, cur.pos as int, cur.pos as int, r),
{
    proof {
        lemma_line_bounds(src@, cur.pos as int);
    }
    let n = src.len();
    let col = cur.pos - cur.line_start + 1;
    Location {
        start_col: col,
        end_col: col,
        start_line: cur.line_no,
        end_line: cur.line_no,
        file_path: file.clone(),
        line: cur.line.clone(),
    }
}

proof fn lemma_prepend_all_push(d: Seq<SpecToken>, t: SpecToken, r: Result<Seq<SpecToken>, SpecLexError>)
    ensures
        prepend_all(d, prepend(t, r)) == prepend_all(d.push(t), r),
{
    if let Ok(ts) = r {
        assert(d + (seq![t] + ts) =~= d.push(t) + ts);
    }
}

/// Whether the tokens `ts` all start at or after `i`, on lines that are not
/// full-line comments, each strictly after the one before it.
pub open spec fn well_placed(src: Seq<char>, i: int, ts: Seq<SpecToken>) -> bool {
    forall|k: int|
        0 <= k < ts.len() ==> {
            &&& i <= #[trigger] ts[k].start < src.len()
            &&& !is_comment_line(src, ts[k].start)
            &&& k + 1 < ts.len() ==> ts[k].start < ts[k + 1].start
        }
}

proof fn lemma_placed_prepend(src: Seq<char>, i: int, e: int, t: SpecToken, r: Seq<SpecToken>)
    requires
        0 <= i < e,
        i < src.len(),
        t.start == i,
        !is_comment_line(src, i),
        well_placed(src, e, r),
    ensures
        well_placed(src, i, seq![t] + r),
{
    let ts = seq![t] + r;
    assert forall|k: int| 0 <= k < ts.len() implies {
        &&& i <= #[trigger] ts[k].start < src.len()
        &&& !is_comment_line(src, ts[k].start)
        &&& k + 1 < ts.len() ==> ts[k].start < ts[k + 1].start
    } by {
        if k > 0 {
            assert(ts[k] == r[k - 1]);
        }
        if k + 1 < ts.len() {
            assert(ts[k + 1] == r[k]);
        }
    }
}

proof fn lemma_lex_from_placed(src: Seq<char>, i: int)
    requires
        0 <= i,
    ensures
        lex_from(src, i) is Ok ==> well_placed(src, i, lex_from(src, i)->Ok_0),
    decreases src.len() - i,
{
    if i < src.len() {
        let c = src[i];
        lemma_ident_end_bounds(src, i + 1);
        lemma_quote_from_bounds(src, i + 1);
        if is_comment_line(src, i) || (c != '"' && punct_kind(c) is None && whitespace(c)) {
            lemma_lex_from_placed(src, i + 1);
        } else if c != '"' && punct_kind(c) is None && alphabetic(c) {
            let e = ident_end(src, i + 1);
            lemma_lex_from_placed(src, e);
            if let Ok(r) = lex_from(src, e) {
                let t = SpecToken { kind: TokenKind::Identifier, value: src.subrange(i, e), start: i, end: e - 1 };
                lemma_placed_prepend(src, i, e, t, r);
            }
        } else if c == '"' {
            let q = quote_from(src, i + 1);
            if q < src.len() {
                lemma_lex_from_placed(src, q + 1);
                if let Ok(r) = lex_from(src, q + 1) {
                    let t = SpecToken { kind: TokenKind::String, value: src.subrange(i + 1, q), start: i, end: q };
                    lemma_placed_prepend(src, i, q + 1, t, r);
                }
            }
        } else if punct_kind(c) is Some {
            lemma_lex_from_placed(src, i + 1);
            if let Ok(r) = lex_from(src, i + 1) {
                let t = SpecToken { kind: punct_kind(c)->0, value: seq![c], start: i, end: i };
                lemma_placed_prepend(src, i, i + 1, t, r);
            }
        }
    }
}

/// Tokens come out in source order, and none of them starts on a line whose
/// first non-blank characters are `//`: such a line yields no token.
pub proof fn lemma_comment_lines_yield_no_tokens(src: Seq<char>)
    ensures
        lex_from(src, 0) is Ok ==> well_placed(src, 0, lex_from(src, 0)->Ok_0),
{
    lemma_lex_from_placed(src, 0);
}

proof fn lemma_no_quote_after(src: Seq<char>, k: int)
    requires
        0 <= k <= src.len(),
        forall|j: int| k <= j < src.len() ==> src[j] != '"',
    ensures
        quote_from(src, k) == src.len(),
    decreases src.len() - k,
{
    if k < src.len() {
        lemma_no_quote_after(src, k + 1);
    }
}

/// A string literal whose opening quote has no `"` after it fails the scan
/// with `UnterminatedString` reported at that opening quote, not at the end
/// of the source.
pub proof fn lemma_unterminated_string_reported_at_opening(src: Seq<char>, i: int)
    requires
        0 <= i < src.len(),
        src[i] == '"',
        !is_comment_line(src, i),
        forall|j: int| i < j < src.len() ==> src[j] != '"',
    ensures
        lex_from(src, i) == Err::<Seq<SpecToken>, SpecLexError>(
            SpecLexError { kind: LexErrorKind::UnterminatedString, at: i },
        ),
{
    lemma_no_quote_after(src, i + 1);
}

/// Turns a source text into tokens.
pub struct Lexer {
    /// The tokens produced so far.
    pub output_tokens: Vec<Token>,
    /// The characters of the source text.
    pub source: Vec<char>,
    /// The display name of the source, used in locations.
    pub file_path: String,
}

impl Lexer {
    /// A lexer over `source_code`, whose locations name `file_path`.
    pub fn new(source_code: String, file_path: String) -> (r: Self)
        ensures
            r.output_tokens@.len() == 0,
            r.source@ == source_code@,
            r.file_path == file_path,
    {
        Lexer { output_tokens: Vec::new(), source: chars_of(&source_code), file_path }
    }

    /// Scans the whole source and appends its tokens to `output_tokens`,
    /// or reports the first lexical error.
    pub fn lex(&mut self) -> (r: Result<(), LexError>)
        requires
            old(self).source@.len() < usize::MAX,
        ensures
            final(self).source == old(self).source,
            final(self).file_path == old(self).file_path,
            match lex_from(old(self).source@, 0) {
                Ok(ts) => {
                    &&& r is Ok
                    &&& final(self).output_tokens@.subrange(0, old(self).output_tokens@.len() as int)
                        == old(self).output_tokens@
                    &&& tokens_match(
                        old(self).source@,
                        old(self).file_path@,
                        final(self).output_tokens@.subrange(
                            old(self).output_tokens@.len() as int,
                            final(self).output_tokens@.len() as int,
                        ),
                        ts,
                    )
                },
                Err(e) => {
                    &&& r is Err
                    &&& r->Err_0.kind == e.kind
                    &&& located(old(self).source@, old(self).file_path@, e.at, e.at, r->Err_0.location)
                },
            },
    {
        let ghost src = self.source@;
        let ghost file = self.file_path@;
        let ghost base = self.output_tokens@;
        let ghost mut done: Seq<SpecToken> = Seq::empty();
        let n = self.source.len();
        let mut cur = cursor_start(&self.source);
        while cur.pos < n
            invariant
                self.source@ == src,
                self.file_path@ == file,
                self.source == old(self).source,
                self.file_path == old(self).file_path,
                n == src.len(),
                n < usize::MAX,
                cur.wf(src),
                self.output_tokens@.subrange(0, base.len() as int) == base,
                tokens_match(
                    src,
                    file,
                    self.output_tokens@.subrange(base.len() as int, self.output_tokens@.len() as int),
                    done,
                ),
                base == old(self).output_tokens@,
                self.output_tokens@.len() >= base.len(),
                lex_from(src, 0) == prepend_all(done, lex_from(src, cur.pos as int)),
            decreases n - cur.pos,
        {
            let i = cur.pos;
            let c = self.source[i];
            let ghost before = self.output_tokens@;
            if cur.comment {
                step(&self.source, &mut cur);
            } else if c == '"' {
                let start = here(&self.source, &self.file_path, &cur);
                let mut value = String::new();
                step(&self.source, &mut cur);
                while cur.pos < n && self.source[cur.pos] != '"'
                    invariant
                        self.source@ == src,
                        n == src.len(),
                        n < usize::MAX,
                        cur.wf(src),
                        i < cur.pos <= n,
                        value@ == src.subrange(i + 1, cur.pos as int),
                        quote_from(src, cur.pos as int) == quote_from(src, i + 1),
                    decreases n - cur.pos,
                {
                    push_char(&mut value, self.source[cur.pos]);
                    step(&self.source, &mut cur);
                    assert(value@ =~= src.subrange(i + 1, cur.pos as int));
                }
                if cur.pos >= n {
                    return Err(LexError { kind: LexErrorKind::UnterminatedString, location: start });
                }
                let close = here(&self.source, &self.file_path, &cur);
                let tok = Token {
                    kind: TokenKind::String,
                    value,
                    location: Location { end_col: close.end_col, end_line: close.end_line, ..start },
                };
                let ghost st = SpecToken {
                    kind: TokenKind::String,
                    value: src.subrange(i + 1, cur.pos as int),
                    start: i as int,
                    end: cur.pos as int,
                };
                self.output_tokens.push(tok);
                step(&self.source, &mut cur);
                proof {
                    lemma_prepend_all_push(done, st, lex_from(src, cur.pos as int));
                    done = done.push(st);
                }
            } else if c == '(' || c == ')' || c == ',' || c == ';' {
                let kind = if c == '(' {
                    TokenKind::OParen
                } else if c == ')' {
                    TokenKind::CParen
                } else if c == ',' {
                    TokenKind::Comma
                } else {
                    TokenKind::Semicolon
                };
                let mut value = String::new();
                push_char(&mut value, c);
                let tok = Token { kind, value, location: here(&self.source, &self.file_path, &cur) };
                let ghost st = SpecToken { kind, value: seq![c], start: i as int, end: i as int };
                self.output_tokens.push(tok);
                step(&self.source, &mut cur);
                proof {
                    assert(value@ =~= seq![c]);
                    lemma_prepend_all_push(done, st, lex_from(src, cur.pos as int));
                    done = done.push(st);
                }
            } else if is_whitespace(c) {
                step(&self.source, &mut cur);
            } else if is_alphabetic(c) {
                let start = here(&self.source, &self.file_path, &cur);
                let mut value = String::new();
                let mut end_col = start.end_col;
                let mut end_line = start.end_line;
                push_char(&mut value, c);
                step(&self.source, &mut cur);
                while cur.pos < n && is_alphanumeric(self.source[cur.pos])
                    invariant
                        self.source@ == src,
                        n == src.len(),
                        n < usize::MAX,
                        cur.wf(src),
                        i < cur.pos <= n,
                        value@ == src.subrange(i as int, cur.pos as int),
                        ident_end(src, cur.pos as int) == ident_end(src, i + 1),
                        end_col == column(src, cur.pos - 1),
                        end_line == line_number(src, cur.pos - 1),
                    decreases n - cur.pos,
                {
                    proof {
                        lemma_line_bounds(src, cur.pos as int);
                    }
                    end_col = cur.pos - cur.line_start + 1;
                    end_line = cur.line_no;
                    push_char(&mut value, self.source[cur.pos]);
                    step(&self.source, &mut cur);
                    assert(value@ =~= src.subrange(i as int, cur.pos as int));
                }
                let tok = Token {
                    kind: TokenKind::Identifier,
                    value,
                    location: Location { end_col, end_line, ..start },
                };
                let ghost st = SpecToken {
                    kind: TokenKind::Identifier,
                    value: src.subrange(i as int, cur.pos as int),
                    start: i as int,
                    end: cur.pos - 1,
                };
                self.output_tokens.push(tok);
                proof {
                    lemma_prepend_all_push(done, st, lex_from(src, cur.pos as int));
                    done = done.push(st);
                }
            } else {
                return Err(
                    LexError {
                        kind: LexErrorKind::UnexpectedCharacter(c),
                        location: here(&self.source, &self.file_path, &cur),
                    },
                );
            }
            proof {
                let out = self.output_tokens@;
                if out.len() > before.len() {
                    assert(out.subrange(0, base.len() as int) =~= base);
                    assert forall|k: int| 0 <= k < done.len() implies token_matches(
                        src,
                        file,
                        #[trigger] out.subrange(base.len() as int, out.len() as int)[k],
                        done[k],
                    ) by {
                        if k < done.len() - 1 {
                            assert(out.subrange(base.len() as int, out.len() as int)[k]
                                == before.subrange(base.len() as int, before.len() as int)[k]);
                        }
                    }
                }
            }
        }
        proof {
            assert(done + Seq::<SpecToken>::empty() =~= done);
        }
        Ok(())
    }
}

} // verus!
