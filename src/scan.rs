use vstd::prelude::*;
use vstd::string::*;

use crate::error::{not_found, ParseError, SpecParseError};

verus! {

/// The character classes that the scanners split on.
#[derive(Clone, Copy, PartialEq, Eq)]
pub enum CharClass {
    /// ASCII whitespace: space, tab, line feed, form feed, carriage return.
    Whitespace,
    /// ASCII digits.
    Digit,
    /// ASCII letters and digits.
    Alphanumeric,
    /// Every character but the double quote.
    NotQuote,
}

pub open spec fn is_digit(c: char) -> bool {
    '0' <= c && c <= '9'
}

pub open spec fn is_letter(c: char) -> bool {
    ('a' <= c && c <= 'z') || ('A' <= c && c <= 'Z')
}

pub open spec fn in_class(k: CharClass, c: char) -> bool {
    match k {
        CharClass::Whitespace => c == ' ' || c == '\t' || c == '\n' || c == '\x0C' || c == '\r',
        CharClass::Digit => is_digit(c),
        CharClass::Alphanumeric => is_digit(c) || is_letter(c),
        CharClass::NotQuote => c != '"',
    }
}

fn char_in_class(k: CharClass, c: char) -> (r: bool)
    ensures
        r == in_class(k, c),
{
    match k {
        CharClass::Whitespace => c == ' ' || c == '\t' || c == '\n' || c == '\x0C' || c == '\r',
        CharClass::Digit => '0' <= c && c <= '9',
        CharClass::Alphanumeric => ('0' <= c && c <= '9') || ('a' <= c && c <= 'z') || ('A' <= c
            && c <= 'Z'),
        CharClass::NotQuote => c != '"',
    }
}

/// The end of the longest run of characters of class `k` that starts at `pos`.
pub open spec fn run_end(s: Seq<char>, pos: int, k: CharClass) -> int
    decreases s.len() - pos,
{
    if 0 <= pos < s.len() && in_class(k, s[pos]) {
        run_end(s, pos + 1, k)
    } else {
        pos
    }
}

pub proof fn lemma_run_end(s: Seq<char>, pos: int, k: CharClass)
    requires
        0 <= pos <= s.len(),
    ensures
        pos <= run_end(s, pos, k) <= s.len(),
        forall|i: int| pos <= i < run_end(s, pos, k) ==> in_class(k, #[trigger] s[i]),
        run_end(s, pos, k) < s.len() ==> !in_class(k, s[run_end(s, pos, k)]),
    decreases s.len() - pos,
{
    if pos < s.len() && in_class(k, s[pos]) {
        lemma_run_end(s, pos + 1, k);
    }
}

/// Text as characters, with its length in characters.
pub struct Source<'a> {
    pub text: &'a str,
    pub len: usize,
}

impl<'a> Source<'a> {
    pub open spec fn chars(&self) -> Seq<char> {
        self.text@
    }

    pub open spec fn wf(&self) -> bool {
        self.len == self.text@.len()
    }

    pub fn new(text: &'a str) -> (r: Source<'a>)
        ensures
            r.wf(),
            r.text == text,
    {
        Source { text, len: text.unicode_len() }
    }

    pub fn at(&self, i: usize) -> (c: char)
        requires
            self.wf(),
            i < self.len,
        ensures
            c == self.chars()[i as int],
    {
        self.text.get_char(i)
    }

    /// The characters from `from` to `to`, as a `String`.
    pub fn slice(&self, from: usize, to: usize) -> (r: String)
        requires
            self.wf(),
            from <= to <= self.len,
        ensures
            r@ == self.chars().subrange(from as int, to as int),
    {
        self.text.substring_char(from, to).to_owned()
    }

    pub fn run_end(&self, pos: usize, k: CharClass) -> (e: usize)
        requires
            self.wf(),
            pos <= self.len,
        ensures
            e == run_end(self.chars(), pos as int, k),
            pos <= e <= self.len,
    {
        proof {
            lemma_run_end(self.chars(), pos as int, k);
        }
        let mut i = pos;
        while i < self.len && char_in_class(k, self.at(i))
            invariant
                self.wf(),
                pos <= i <= self.len,
                run_end(self.chars(), i as int, k) == run_end(self.chars(), pos as int, k),
            decreases self.len - i,
        {
            i = i + 1;
        }
        i
    }
}

/// The characters of `s` from `pos` to its end.
pub open spec fn rest(s: Seq<char>, pos: int) -> Seq<char> {
    s.subrange(pos, s.len() as int)
}

/// The end of the float run at `pos`: digits, then at most one decimal point
/// followed by digits.
pub open spec fn float_end(s: Seq<char>, pos: int) -> int {
    let a = run_end(s, pos, CharClass::Digit);
    if 0 <= a < s.len() && s[a] == '.' {
        run_end(s, a + 1, CharClass::Digit)
    } else {
        a
    }
}

pub proof fn lemma_float_end(s: Seq<char>, pos: int)
    requires
        0 <= pos <= s.len(),
    ensures
        pos <= float_end(s, pos) <= s.len(),
{
    lemma_run_end(s, pos, CharClass::Digit);
    let a = run_end(s, pos, CharClass::Digit);
    if a < s.len() && s[a] == '.' {
        lemma_run_end(s, a + 1, CharClass::Digit);
    }
}

/// Whether `t` stands in `s` at `pos`.
pub open spec fn has_at(s: Seq<char>, pos: int, t: Seq<char>) -> bool {
    pos + t.len() <= s.len() && s.subrange(pos, pos + t.len()) == t
}

/// Strips the exact token `t` at `pos`, or fails saying what stood there instead.
pub open spec fn tag_spec(s: Seq<char>, pos: int, t: Seq<char>) -> Result<int, SpecParseError> {
    if has_at(s, pos, t) {
        Ok(pos + t.len())
    } else {
        Err(SpecParseError::SequenceNotFound(t, rest(s, pos)))
    }
}

/// The position after the whitespace that starts at `pos`.
pub open spec fn skip_ws(s: Seq<char>, pos: int) -> int {
    run_end(s, pos, CharClass::Whitespace)
}

/// A quoted string at `pos`: the start and end of its content and the position
/// after its closing quote.
pub open spec fn string_spec(s: Seq<char>, pos: int) -> Result<(int, int, int), SpecParseError> {
    match tag_spec(s, pos, "\""@) {
        Err(e) => Err(e),
        Ok(p) => {
            let e = run_end(s, p, CharClass::NotQuote);
            match tag_spec(s, e, "\""@) {
                Err(x) => Err(x),
                Ok(q) => Ok((p, e, q)),
            }
        },
    }
}

pub open spec fn is_op_char(c: char) -> bool {
    c == '+' || c == '-' || c == '*' || c == '/'
}

/// The character at `pos`, if there is one.
pub open spec fn char_at(s: Seq<char>, pos: int) -> Option<char> {
    if 0 <= pos < s.len() {
        Some(s[pos])
    } else {
        None
    }
}

/// The text that `{:?}` gives for an optional character.
pub uninterp spec fn debug_text(c: Option<char>) -> Seq<char>;

/// Relies on std's `Debug` for `Option<char>`, which depends on the value alone.
#[verifier::external_body]
fn debug_of(c: Option<char>) -> (r: String)
    ensures
        r@ == debug_text(c),
{
    format!("{c:?}")
}

/// An operator symbol at `pos`: the position after it.
pub open spec fn op_spec(s: Seq<char>, pos: int) -> Result<int, SpecParseError> {
    if 0 <= pos < s.len() && is_op_char(s[pos]) {
        Ok(pos + 1)
    } else {
        Err(SpecParseError::SequenceNotFound("[+, -, *, /]"@, debug_text(char_at(s, pos))))
    }
}

/// An identifier run at `pos`: its end. The run may be empty; it may not start
/// with a digit.
pub open spec fn ident_spec(s: Seq<char>, pos: int) -> Result<int, SpecParseError> {
    if pos >= s.len() {
        Err(SpecParseError::SequenceNotFound("an identifier"@, ""@))
    } else if is_digit(s[pos]) {
        Err(
            SpecParseError::InvalidSequence(
                "an identifier not beginning with a digit"@,
                s.subrange(pos, run_end(s, pos, CharClass::Alphanumeric)),
            ),
        )
    } else {
        Ok(run_end(s, pos, CharClass::Alphanumeric))
    }
}

impl<'a> Source<'a> {
    pub fn rest(&self, pos: usize) -> (r: String)
        requires
            self.wf(),
            pos <= self.len,
        ensures
            r@ == rest(self.chars(), pos as int),
    {
        self.slice(pos, self.len)
    }

    /// Whether `t` stands at `pos`.
    pub fn has_at(&self, pos: usize, t: &str) -> (r: bool)
        requires
            self.wf(),
            pos <= self.len,
        ensures
            r == has_at(self.chars(), pos as int, t@),
    {
        let n = t.unicode_len();
        if n > self.len - pos {
            return false;
        }
        let mut i: usize = 0;
        while i < n
            invariant
                self.wf(),
                n == t@.len(),
                pos + n <= self.len,
                i <= n,
                forall|j: int| 0 <= j < i ==> self.chars()[pos + j] == t@[j],
            decreases n - i,
        {
            if self.at(pos + i) != t.get_char(i) {
                assert(self.chars().subrange(pos as int, pos + n)[i as int] != t@[i as int]);
                return false;
            }
            i = i + 1;
        }
        assert(self.chars().subrange(pos as int, pos + n) =~= t@);
        true
    }

    pub fn tag(&self, pos: usize, t: &str) -> (r: Result<usize, ParseError>)
        requires
            self.wf(),
            pos <= self.len,
        ensures
            r matches Ok(p) ==> pos <= p <= self.len,
            match (r, tag_spec(self.chars(), pos as int, t@)) {
                (Ok(p), Ok(q)) => p == q,
                (Err(e), Err(f)) => e@ == f,
                _ => false,
            },
    {
        if self.has_at(pos, t) {
            Ok(pos + t.unicode_len())
        } else {
            Err(ParseError::SequenceNotFound { expected: t.to_owned(), received: self.rest(pos) })
        }
    }

    pub fn float_end(&self, pos: usize) -> (e: usize)
        requires
            self.wf(),
            pos <= self.len,
        ensures
            e == float_end(self.chars(), pos as int),
            pos <= e <= self.len,
    {
        let a = self.run_end(pos, CharClass::Digit);
        if a < self.len && self.at(a) == '.' {
            self.run_end(a + 1, CharClass::Digit)
        } else {
            a
        }
    }

    pub fn skip_ws(&self, pos: usize) -> (e: usize)
        requires
            self.wf(),
            pos <= self.len,
        ensures
            e == skip_ws(self.chars(), pos as int),
            pos <= e <= self.len,
    {
        self.run_end(pos, CharClass::Whitespace)
    }

    pub fn string(&self, pos: usize) -> (r: Result<(usize, usize, usize), ParseError>)
        requires
            self.wf(),
            pos <= self.len,
        ensures
            r matches Ok((p, e, q)) ==> pos <= p <= e <= q <= self.len && pos < q,
            match (r, string_spec(self.chars(), pos as int)) {
                (Ok((p, e, q)), Ok((at1, e1, q1))) => p == at1 && e == e1 && q == q1,
                (Err(x), Err(y)) => x@ == y,
                _ => false,
            },
    {
        let p = self.tag(pos, "\"")?;
        proof {
            reveal_strlit("\"");
        }
        let e = self.run_end(p, CharClass::NotQuote);
        let q = self.tag(e, "\"")?;
        Ok((p, e, q))
    }

    pub fn op(&self, pos: usize) -> (r: Result<usize, ParseError>)
        requires
            self.wf(),
            pos <= self.len,
        ensures
            r matches Ok(p) ==> p == pos + 1 && p <= self.len,
            match (r, op_spec(self.chars(), pos as int)) {
                (Ok(p), Ok(q)) => p == q,
                (Err(x), Err(y)) => x@ == y,
                _ => false,
            },
    {
        if pos < self.len {
            let c = self.at(pos);
            if c == '+' || c == '-' || c == '*' || c == '/' {
                return Ok(pos + 1);
            }
            Err(not_found("[+, -, *, /]", debug_of(Some(c)).as_str()))
        } else {
            Err(not_found("[+, -, *, /]", debug_of(None).as_str()))
        }
    }

    pub fn ident(&self, pos: usize) -> (r: Result<usize, ParseError>)
        requires
            self.wf(),
            pos <= self.len,
        ensures
            r matches Ok(p) ==> pos <= p <= self.len,
            match (r, ident_spec(self.chars(), pos as int)) {
                (Ok(p), Ok(q)) => p == q,
                (Err(x), Err(y)) => x@ == y,
                _ => false,
            },
    {
        let e = self.run_end(pos, CharClass::Alphanumeric);
        if pos >= self.len {
            return Err(not_found("an identifier", ""));
        }
        let c = self.at(pos);
        if '0' <= c && c <= '9' {
            return Err(
                ParseError::InvalidSequence {
                    expected: "an identifier not beginning with a digit".to_owned(),
                    received: self.slice(pos, e),
                },
            );
        }
        Ok(e)
    }
}

/// Strips the exact token `seq` from the start of `s`.
pub fn tag(seq: &str, s: &str) -> (r: Result<String, ParseError>)
    ensures
        match (r, tag_spec(s@, 0, seq@)) {
            (Ok(t), Ok(p)) => t@ == rest(s@, p),
            (Err(e), Err(f)) => e@ == f,
            _ => false,
        },
{
    let src = Source::new(s);
    let p = src.tag(0, seq)?;
    Ok(src.rest(p))
}

/// Splits a double-quoted string at the start of `s` into its content and what
/// follows the closing quote.
pub fn extract_string(s: &str) -> (r: Result<(String, String), ParseError>)
    ensures
        match (r, string_spec(s@, 0)) {
            (Ok((c, t)), Ok((p, e, q))) => c@ == s@.subrange(p, e) && t@ == rest(s@, q),
            (Err(x), Err(y)) => x@ == y,
            _ => false,
        },
{
    let src = Source::new(s);
    let (p, e, q) = src.string(0)?;
    Ok((src.slice(p, e), src.rest(q)))
}

/// Splits off the float run at the start of `s`: digits, then at most one
/// decimal point followed by digits.
pub fn extract_float(s: &str) -> (r: (String, String))
    ensures
        r.0@ == s@.subrange(0, float_end(s@, 0)),
        r.1@ == rest(s@, float_end(s@, 0)),
{
    let src = Source::new(s);
    let e = src.float_end(0);
    (src.slice(0, e), src.rest(e))
}

/// Splits off the operator symbol (`+`, `-`, `*` or `/`) that starts `s`.
pub fn extract_op(s: &str) -> (r: Result<(String, String), ParseError>)
    ensures
        match (r, op_spec(s@, 0)) {
            (Ok((o, t)), Ok(p)) => o@ == s@.subrange(0, 1) && t@ == rest(s@, 1),
            (Err(x), Err(y)) => x@ == y,
            _ => false,
        },
{
    let src = Source::new(s);
    let p = src.op(0)?;
    Ok((src.slice(0, p), src.rest(p)))
}

/// Splits off the run of ASCII letters and digits that starts `s`; fails on an
/// empty `s` and on a run that starts with a digit.
pub fn extract_ident(s: &str) -> (r: Result<(String, String), ParseError>)
    ensures
        match (r, ident_spec(s@, 0)) {
            (Ok((i, t)), Ok(e)) => i@ == s@.subrange(0, e) && t@ == rest(s@, e),
            (Err(x), Err(y)) => x@ == y,
            _ => false,
        },
{
    let src = Source::new(s);
    let e = src.ident(0)?;
    Ok((src.slice(0, e), src.rest(e)))
}

/// Splits off the run of ASCII whitespace at the start of `s`.
pub fn extract_whitespace(s: &str) -> (r: (String, String))
    ensures
        r.0@ == s@.subrange(0, run_end(s@, 0, CharClass::Whitespace)),
        r.1@ == rest(s@, run_end(s@, 0, CharClass::Whitespace)),
{
    let src = Source::new(s);
    let e = src.run_end(0, CharClass::Whitespace);
    (src.slice(0, e), src.slice(e, src.len))
}

} // verus!
