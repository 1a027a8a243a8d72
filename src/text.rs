//! Character classification and string building shared by the pipeline.

use vstd::prelude::*;
use vstd::std_specs::iter::IteratorSpec;

verus! {

/// Whether `c` has the Unicode `Alphabetic` property.
pub uninterp spec fn alphabetic(c: char) -> bool;

/// Whether `c` is alphabetic or numeric in the Unicode sense.
pub uninterp spec fn alphanumeric(c: char) -> bool;

/// Whether `c` has the Unicode `White_Space` property.
pub uninterp spec fn whitespace(c: char) -> bool;

/// Relies on `char::is_alphabetic`: the answer depends on `c` alone.
#[verifier::external_body]
pub(crate) fn is_alphabetic(c: char) -> (r: bool)
    ensures
        r == alphabetic(c),
{
    c.is_alphabetic()
}

/// Relies on `char::is_alphanumeric`: the answer depends on `c` alone.
#[verifier::external_body]
pub(crate) fn is_alphanumeric(c: char) -> (r: bool)
    ensures
        r == alphanumeric(c),
{
    c.is_alphanumeric()
}

/// Relies on `char::is_whitespace`: the answer depends on `c` alone.
#[verifier::external_body]
pub(crate) fn is_whitespace(c: char) -> (r: bool)
    ensures
        r == whitespace(c),
{
    c.is_whitespace()
}

/// Relies on `String::push`: appends `c` at the end of `s`.
#[verifier::external_body]
pub(crate) fn push_char(s: &mut String, c: char)
    ensures
        final(s)@ == old(s)@.push(c),
{
    s.push(c)
}

/// The characters of `s`, in order.
pub fn chars_of(s: &String) -> (r: Vec<char>)
    ensures
        r@ == s@,
{
    let mut it = s.as_str().chars();
    let mut out: Vec<char> = Vec::new();
    loop
        invariant
            out@ + it.remaining() == s@,
            it.decrease() is Some,
        ensures
            out@ == s@,
        decreases it.decrease()->0,
    {
        let ghost before = it.remaining();
        match it.next() {
            Some(c) => {
                out.push(c);
                assert(out@ + it.remaining() =~= s@) by {
                    assert(before =~= seq![c] + it.remaining());
                }
            },
            None => {
                assert(out@ + before =~= out@);
                break;
            },
        }
    }
    out
}

/// The string made of `src[from..to]`.
pub fn string_of_range(src: &Vec<char>, from: usize, to: usize) -> (r: String)
    requires
        from <= to <= src@.len(),
    ensures
        r@ == src@.subrange(from as int, to as int),
{
    let mut out = String::new();
    let mut i: usize = from;
    while i < to
        invariant
            from <= i <= to <= src@.len(),
            out@ == src@.subrange(from as int, i as int),
        decreases to - i,
    {
        push_char(&mut out, src[i]);
        i = i + 1;
        assert(out@ =~= src@.subrange(from as int, i as int));
    }
    out
}

/// The text of a string literal with each two-character sequence `\n`
/// replaced by a newline, scanning left to right.
pub open spec fn decoded(s: Seq<char>) -> Seq<char>
    decreases s.len(),
{
    if s.len() == 0 {
        Seq::empty()
    } else if s.len() >= 2 && s[0] == '\\' && s[1] == 'n' {
        seq!['\n'] + decoded(s.subrange(2, s.len() as int))
    } else {
        seq![s[0]] + decoded(s.subrange(1, s.len() as int))
    }
}

/// Decodes a string literal's raw text: `\n` becomes a newline character.
pub fn decode_escapes(s: &String) -> (r: String)
    ensures
        r@ == decoded(s@),
{
    let cs = chars_of(s);
    let n = cs.len();
    let mut out = String::new();
    let mut i: usize = 0;
    assert(cs@.subrange(0, n as int) =~= s@);
    assert(out@ + decoded(s@) =~= decoded(s@));
    while i < n
        invariant
            n == cs@.len(),
            cs@ == s@,
            i <= n,
            out@ + decoded(cs@.subrange(i as int, n as int)) == decoded(s@),
        decreases n - i,
    {
        let rest = Ghost(cs@.subrange(i as int, n as int));
        if i + 1 < n && cs[i] == '\\' && cs[i + 1] == 'n' {
            push_char(&mut out, '\n');
            assert(rest@.subrange(2, rest@.len() as int) =~= cs@.subrange(i + 2, n as int));
            i = i + 2;
        } else {
            push_char(&mut out, cs[i]);
            assert(rest@.subrange(1, rest@.len() as int) =~= cs@.subrange(i + 1, n as int));
            i = i + 1;
        }
        assert(out@ + decoded(cs@.subrange(i as int, n as int)) =~= decoded(s@));
    }
    assert(cs@.subrange(n as int, n as int) =~= Seq::<char>::empty());
    out
}

/// Text without a backslash decodes to itself.
pub proof fn lemma_decoded_plain(s: Seq<char>)
    requires
        forall|k: int| 0 <= k < s.len() ==> s[k] != '\\',
    ensures
        decoded(s) == s,
    decreases s.len(),
{
    if s.len() > 0 {
        let t = s.subrange(1, s.len() as int);
        lemma_decoded_plain(t);
        assert(s =~= seq![s[0]] + t);
    }
}

/// The two characters `\` `n` at the front decode to one newline, and
/// the rest decodes on its own.
pub proof fn lemma_decoded_newline_escape(s: Seq<char>)
    ensures
        decoded(seq!['\\', 'n'] + s) == seq!['\n'] + decoded(s),
{
    let t = seq!['\\', 'n'] + s;
    assert(t.subrange(2, t.len() as int) =~= s);
}

} // verus!
