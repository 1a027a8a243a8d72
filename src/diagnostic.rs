//! Rendering of fatal errors as the diagnostic blocks shown to the user:
//!
//! ```text
//! [Error]
//! <message>
//!
//! [Location] <file>:<line>:<col>
//!  <pad> |
//!  <line> | <source line>
//!  <pad> |<marker>
//! ```

use crate::interpreter::{RuntimeError, RuntimeErrorKind};
use crate::lexer::{LexError, LexErrorKind};
use crate::parser::{ParseError, ParseErrorKind};
use crate::text::push_char;
use crate::tokens::{Location, TokenKind};
use vstd::prelude::*;

verus! {

/// The decimal digit for `d`, which is below ten.
pub open spec fn digit_char(d: nat) -> char {
    if d == 0 { '0' } else if d == 1 { '1' } else if d == 2 { '2' } else if d == 3 { '3' }
    else if d == 4 { '4' } else if d == 5 { '5' } else if d == 6 { '6' } else if d == 7 { '7' }
    else if d == 8 { '8' } else { '9' }
}

/// The decimal numeral of `n`, without sign or leading zeros.
pub open spec fn digits(n: nat) -> Seq<char>
    decreases n,
{
    if n < 10 {
        seq![digit_char(n)]
    } else {
        digits(n / 10) + seq![digit_char(n % 10)]
    }
}

/// `c` repeated `k` times.
pub open spec fn repeated(c: char, k: nat) -> Seq<char> {
    Seq::new(k, |i: int| c)
}

/// Relies on the `Display` of `usize`, through `to_string`: the decimal
/// numeral of `n`.
#[verifier::external_body]
fn decimal(n: usize) -> (r: String)
    ensures
        r@ == digits(n as nat),
{
    n.to_string()
}

/// `c` repeated `k` times.
fn repeat_char(c: char, k: usize) -> (r: String)
    ensures
        r@ == repeated(c, k as nat),
{
    let mut out = String::new();
    let mut i: usize = 0;
    while i < k
        invariant
            i <= k,
            out@ == repeated(c, i as nat),
        decreases k - i,
    {
        push_char(&mut out, c);
        i = i + 1;
        assert(out@ =~= repeated(c, i as nat));
    }
    out
}

/// The diagnostic block for `message` at `loc`, whose last line ends in
/// `marker`.
pub open spec fn frame(message: Seq<char>, loc: Location, marker: Seq<char>) -> Seq<char> {
    let line = digits(loc.start_line as nat);
    let pad = repeated(' ', line.len());
    "[Error]\n"@ + message + "\n\n[Location] "@ + loc.file_path@ + ":"@ + line + ":"@ + digits(
        loc.start_col as nat,
    ) + "\n "@ + pad + " |\n "@ + line + " | "@ + loc.line@ + "\n "@ + pad + " |"@ + marker + "\n"@
}

fn render_frame(message: &String, loc: &Location, marker: &String) -> (r: String)
    ensures
        r@ == frame(message@, *loc, marker@),
{
    let line = decimal(loc.start_line);
    let pad = repeat_char(' ', line.as_str().unicode_len());
    let col = decimal(loc.start_col);
    let mut out = String::new();
    out.append("[Error]\n");
    out.append(message.as_str());
    out.append("\n\n[Location] ");
    out.append(loc.file_path.as_str());
    out.append(":");
    out.append(line.as_str());
    out.append(":");
    out.append(col.as_str());
    out.append("\n ");
    out.append(pad.as_str());
    out.append(" |\n ");
    out.append(line.as_str());
    out.append(" | ");
    out.append(loc.line.as_str());
    out.append("\n ");
    out.append(pad.as_str());
    out.append(" |");
    out.append(marker.as_str());
    out.append("\n");
    assert(out@ =~= frame(message@, *loc, marker@));
    out
}

/// The message of a lexical error.
pub open spec fn lex_message(e: LexError) -> Seq<char> {
    match e.kind {
        LexErrorKind::UnexpectedCharacter(c) => "Unexpected character '"@ + seq![c] + "'"@,
        LexErrorKind::UnterminatedString => "Missing end of string '\"' since line "@ + digits(
            e.location.start_line as nat,
        ) + " at column "@ + digits(e.location.start_col as nat),
    }
}

/// The diagnostic of a lexical error: a caret under its column.
pub fn lex_diagnostic(e: &LexError) -> (r: String)
    requires
        e.location.start_col >= 1,
    ensures
        r@ == frame(
            lex_message(*e),
            e.location,
            " "@ + repeated(' ', (e.location.start_col - 1) as nat) + "^"@,
        ),
{
    let mut message = String::new();
    match e.kind {
        LexErrorKind::UnexpectedCharacter(c) => {
            message.append("Unexpected character '");
            push_char(&mut message, c);
            message.append("'");
        },
        LexErrorKind::UnterminatedString => {
            message.append("Missing end of string '\"' since line ");
            message.append(decimal(e.location.start_line).as_str());
            message.append(" at column ");
            message.append(decimal(e.location.start_col).as_str());
        },
    }
    assert(message@ =~= lex_message(*e));
    let mut marker = String::new();
    marker.append(" ");
    marker.append(repeat_char(' ', e.location.start_col - 1).as_str());
    marker.append("^");
    render_frame(&message, &e.location, &marker)
}

/// The name of a token kind as diagnostics show it.
pub open spec fn kind_name(k: TokenKind) -> Seq<char> {
    match k {
        TokenKind::Identifier => "Identifier"@,
        TokenKind::String => "String"@,
        TokenKind::OParen => "OParen"@,
        TokenKind::CParen => "CParen"@,
        TokenKind::Comma => "Comma"@,
        TokenKind::Semicolon => "Semicolon"@,
    }
}

fn kind_name_of(k: TokenKind) -> (r: &'static str)
    ensures
        r@ == kind_name(k),
{
    match k {
        TokenKind::Identifier => "Identifier",
        TokenKind::String => "String",
        TokenKind::OParen => "OParen",
        TokenKind::CParen => "CParen",
        TokenKind::Comma => "Comma",
        TokenKind::Semicolon => "Semicolon",
    }
}

/// What a parse error says was found after the token it is reported at.
pub open spec fn found_text(e: ParseError) -> Seq<char> {
    match e.next {
        None => ", but is end of file."@,
        Some(t) => ", but found '"@ + t.value@ + "' which is of kind '"@ + kind_name(t.kind) + "'"@,
    }
}

/// The message of a parse error.
pub open spec fn parse_message(e: ParseError) -> Seq<char> {
    match e.kind {
        ParseErrorKind::UnexpectedToken(k) => "Unexpected token kind '"@ + kind_name(k) + "'"@,
        ParseErrorKind::ExpectedToken(k) => "Expected token after '"@ + e.token.value@
            + "' to be of kind '"@ + kind_name(k) + "'"@ + found_text(e),
        ParseErrorKind::ExpectedArgument => "Expected token after '"@ + e.token.value@
            + "' to be either of kinds '[CParen, String, Comma]'"@ + found_text(e) + if e.next is Some {
            "."@
        } else {
            Seq::empty()
        },
    }
}

/// How many columns a parse error's marker underlines: the span of the
/// token it is reported at, at least one.
pub open spec fn underline_width(loc: Location) -> nat {
    if loc.end_col >= loc.start_col {
        (loc.end_col - loc.start_col + 1) as nat
    } else {
        1
    }
}

/// The diagnostic of a parse error: the reported token's columns
/// underlined.
pub fn parse_diagnostic(e: &ParseError) -> (r: String)
    ensures
        r@ == frame(
            parse_message(*e),
            e.token.location,
            repeated(' ', e.token.location.start_col as nat) + repeated(
                '^',
                underline_width(e.token.location),
            ),
        ),
{
    let mut found = String::new();
    match &e.next {
        None => found.append(", but is end of file."),
        Some(t) => {
            found.append(", but found '");
            found.append(t.value.as_str());
            found.append("' which is of kind '");
            found.append(kind_name_of(t.kind));
            found.append("'");
        },
    }
    assert(found@ =~= found_text(*e));
    let mut message = String::new();
    match e.kind {
        ParseErrorKind::UnexpectedToken(k) => {
            message.append("Unexpected token kind '");
            message.append(kind_name_of(k));
            message.append("'");
        },
        ParseErrorKind::ExpectedToken(k) => {
            message.append("Expected token after '");
            message.append(e.token.value.as_str());
            message.append("' to be of kind '");
            message.append(kind_name_of(k));
            message.append("'");
            message.append(found.as_str());
        },
        ParseErrorKind::ExpectedArgument => {
            message.append("Expected token after '");
            message.append(e.token.value.as_str());
            message.append("' to be either of kinds '[CParen, String, Comma]'");
            message.append(found.as_str());
            if e.next.is_some() {
                message.append(".");
            }
        },
    }
    assert(message@ =~= parse_message(*e));
    let loc = &e.token.location;
    let extra = if loc.end_col >= loc.start_col {
        loc.end_col - loc.start_col
    } else {
        0
    };
    let mut marker = repeat_char(' ', loc.start_col);
    marker.append(repeat_char('^', extra).as_str());
    push_char(&mut marker, '^');
    assert(repeated('^', extra as nat).push('^') =~= repeated('^', underline_width(*loc)));
    render_frame(&message, loc, &marker)
}

/// The message of a runtime error.
pub open spec fn runtime_message(e: RuntimeError) -> Seq<char> {
    match e.kind {
        RuntimeErrorKind::InvalidArgument(_) => "Invalid argument of kind 'FunctionCall' for function '"@
            + e.function@ + "', expected of kind 'String'"@,
        RuntimeErrorKind::InsufficientArguments => "Insufficient amount of arguments for function '"@
            + e.function@
            + "', at least 1 required.\n[Help]\n([command_name], [arguments]...)\nAll the arguments are strings."@,
        RuntimeErrorKind::InvalidFunction => "Invalid function '"@ + e.function@ + "'"@,
        RuntimeErrorKind::UnimplementedNode => "Unimplemented node 'String'"@,
    }
}

/// The diagnostic of `message` raised by a statement at `loc`: its whole
/// source line underlined.
pub fn statement_diagnostic(message: &String, loc: &Location) -> (r: String)
    ensures
        r@ == frame(message@, *loc, " "@ + repeated('^', loc.line@.len())),
{
    let mut marker = String::new();
    marker.append(" ");
    marker.append(repeat_char('^', loc.line.as_str().unicode_len()).as_str());
    render_frame(message, loc, &marker)
}

/// The diagnostic of a runtime error.
pub fn runtime_diagnostic(e: &RuntimeError) -> (r: String)
    ensures
        r@ == frame(runtime_message(*e), e.location, " "@ + repeated('^', e.location.line@.len())),
{
    let mut message = String::new();
    match e.kind {
        RuntimeErrorKind::InvalidArgument(_) => {
            message.append("Invalid argument of kind 'FunctionCall' for function '");
            message.append(e.function.as_str());
            message.append("', expected of kind 'String'");
        },
        RuntimeErrorKind::InsufficientArguments => {
            message.append("Insufficient amount of arguments for function '");
            message.append(e.function.as_str());
            message.append(
                "', at least 1 required.\n[Help]\n([command_name], [arguments]...)\nAll the arguments are strings.",
            );
        },
        RuntimeErrorKind::InvalidFunction => {
            message.append("Invalid function '");
            message.append(e.function.as_str());
            message.append("'");
        },
        RuntimeErrorKind::UnimplementedNode => {
            message.append("Unimplemented node 'String'");
        },
    }
    assert(message@ =~= runtime_message(*e));
    statement_diagnostic(&message, &e.location)
}

} // verus!
