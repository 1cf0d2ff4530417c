//! The tokens of the query language.

use vstd::prelude::*;
use crate::text::{alphanumeric, is_alphanumeric, is_whitespace, to_chars, whitespace};

verus! {

/// Why a query text is not a query.
#[derive(Debug, Clone, Copy, PartialEq, Eq, Structural)]
pub enum ParseError {
    /// An opening `"` with no closing `"` after it.
    UnterminatedString,
    /// A path token that no `:` follows.
    MissingColon,
    /// No token where a path or a value has to stand.
    MissingToken,
}

impl ParseError {
    /// The sentence that reports this error.
    pub open spec fn message_text(self) -> Seq<char> {
        match self {
            ParseError::UnterminatedString => "Expected end of quoted string"@,
            ParseError::MissingColon => "Expected colon"@,
            ParseError::MissingToken => "No string found"@,
        }
    }

    /// A sentence for the sender of the query.
    pub fn message(&self) -> (text: String)
        ensures
            text@ == self.message_text(),
    {
        match self {
            ParseError::UnterminatedString => "Expected end of quoted string".to_owned(),
            ParseError::MissingColon => "Expected colon".to_owned(),
            ParseError::MissingToken => "No string found".to_owned(),
        }
    }
}

/// The first position at or after `from` that holds no white space.
pub open spec fn skip_whitespace(s: Seq<char>, from: int) -> int
    decreases s.len() - from,
{
    if 0 <= from < s.len() && whitespace(s[from]) {
        skip_whitespace(s, from + 1)
    } else {
        from
    }
}

/// A character that an unquoted token may hold.
pub open spec fn bare(c: char) -> bool {
    alphanumeric(c) || c == '.'
}

/// The end of the longest run of unquoted-token characters that starts at `from`.
pub open spec fn bare_end(s: Seq<char>, from: int) -> int
    decreases s.len() - from,
{
    if 0 <= from < s.len() && bare(s[from]) {
        bare_end(s, from + 1)
    } else {
        from
    }
}

/// The position of the first `c` at or after `from`; the length of `s` when
/// there is none.
pub open spec fn position_of(s: Seq<char>, c: char, from: int) -> int
    decreases s.len() - from,
{
    if 0 <= from < s.len() && s[from] != c {
        position_of(s, c, from + 1)
    } else {
        from
    }
}

/// The token that starts at or after `from`, with the position behind it.
///
/// Leading white space is skipped. A `"` opens a quoted token, which runs to
/// the next `"` and excludes both; escapes do not exist. Anything else starts
/// an unquoted token: the longest run of alphanumeric characters and `.`,
/// which must not be empty.
pub open spec fn lex_at(s: Seq<char>, from: int) -> Result<(Seq<char>, int), ParseError> {
    let start = skip_whitespace(s, from);
    if start < s.len() && s[start] == '"' {
        let close = position_of(s, '"', start + 1);
        if close < s.len() {
            Ok((s.subrange(start + 1, close), close + 1))
        } else {
            Err(ParseError::UnterminatedString)
        }
    } else {
        let end = bare_end(s, start);
        if end == start {
            Err(ParseError::MissingToken)
        } else {
            Ok((s.subrange(start, end), end))
        }
    }
}

/// The first token of `s` and what is left of `s` behind it.
pub open spec fn lex(s: Seq<char>) -> Result<(Seq<char>, Seq<char>), ParseError> {
    match lex_at(s, 0) {
        Ok((token, next)) => Ok((token, s.skip(next))),
        Err(e) => Err(e),
    }
}

/// `skip_whitespace` moves forward, stays inside `s`, passes only white
/// space, and stops at the end or at a character that is none.
pub proof fn lemma_skip_whitespace(s: Seq<char>, from: int)
    requires
        0 <= from <= s.len(),
    ensures
        from <= skip_whitespace(s, from) <= s.len(),
        forall|i: int| from <= i < skip_whitespace(s, from) ==> whitespace(#[trigger] s[i]),
        skip_whitespace(s, from) < s.len() ==> !whitespace(s[skip_whitespace(s, from)]),
    decreases s.len() - from,
{
    if from < s.len() && whitespace(s[from]) {
        lemma_skip_whitespace(s, from + 1);
    }
}

/// `bare_end` moves forward, stays inside `s`, passes only token characters,
/// and stops at the end or at a character that is none.
pub proof fn lemma_bare_end(s: Seq<char>, from: int)
    requires
        0 <= from <= s.len(),
    ensures
        from <= bare_end(s, from) <= s.len(),
        forall|i: int| from <= i < bare_end(s, from) ==> bare(#[trigger] s[i]),
        bare_end(s, from) < s.len() ==> !bare(s[bare_end(s, from)]),
    decreases s.len() - from,
{
    if from < s.len() && bare(s[from]) {
        lemma_bare_end(s, from + 1);
    }
}

/// `position_of` moves forward, stays inside `s`, passes no `c`, and stops at
/// the end or at a `c`.
pub proof fn lemma_position_of(s: Seq<char>, c: char, from: int)
    requires
        0 <= from <= s.len(),
    ensures
        from <= position_of(s, c, from) <= s.len(),
        forall|i: int| from <= i < position_of(s, c, from) ==> #[trigger] s[i] != c,
        position_of(s, c, from) < s.len() ==> s[position_of(s, c, from)] == c,
    decreases s.len() - from,
{
    if from < s.len() && s[from] != c {
        lemma_position_of(s, c, from + 1);
    }
}

/// A token lies behind `from`, and the position behind it lies further on.
pub proof fn lemma_lex_at_advances(s: Seq<char>, from: int)
    requires
        0 <= from <= s.len(),
    ensures
        lex_at(s, from) matches Ok((token, next)) ==> from < next <= s.len(),
{
    lemma_skip_whitespace(s, from);
    let start = skip_whitespace(s, from);
    if start < s.len() && s[start] == '"' {
        lemma_position_of(s, '"', start + 1);
    } else {
        lemma_bare_end(s, start);
    }
}

/// Where a token lies in a character buffer: the token is `start..end`, and
/// reading goes on at `next`.
#[derive(Debug, Clone, Copy, PartialEq, Eq)]
pub struct TokenSpan {
    pub start: usize,
    pub end: usize,
    pub next: usize,
}

pub(crate) fn scan_whitespace(chars: &[char], from: usize) -> (r: usize)
    requires
        from <= chars@.len(),
    ensures
        r == skip_whitespace(chars@, from as int),
        from <= r <= chars@.len(),
{
    let mut i: usize = from;
    while i < chars.len() && is_whitespace(chars[i])
        invariant
            from <= i <= chars@.len(),
            skip_whitespace(chars@, from as int) == skip_whitespace(chars@, i as int),
        decreases chars@.len() - i,
    {
        i = i + 1;
    }
    i
}

fn scan_bare(chars: &[char], from: usize) -> (r: usize)
    requires
        from <= chars@.len(),
    ensures
        r == bare_end(chars@, from as int),
        from <= r <= chars@.len(),
{
    let mut i: usize = from;
    while i < chars.len() && (chars[i] == '.' || is_alphanumeric(chars[i]))
        invariant
            from <= i <= chars@.len(),
            bare_end(chars@, from as int) == bare_end(chars@, i as int),
        decreases chars@.len() - i,
    {
        i = i + 1;
    }
    i
}

pub(crate) fn scan_for(chars: &[char], c: char, from: usize) -> (r: usize)
    requires
        from <= chars@.len(),
    ensures
        r == position_of(chars@, c, from as int),
        from <= r <= chars@.len(),
{
    let mut i: usize = from;
    while i < chars.len() && chars[i] != c
        invariant
            from <= i <= chars@.len(),
            position_of(chars@, c, from as int) == position_of(chars@, c, i as int),
        decreases chars@.len() - i,
    {
        i = i + 1;
    }
    i
}

/// Finds the token that starts at or after `from`. Behind the end of
/// `chars` there is none.
pub fn lex_chars(chars: &[char], from: usize) -> (r: Result<TokenSpan, ParseError>)
    ensures
        match r {
            Ok(span) => from <= span.start <= span.end <= span.next <= chars@.len() && from
                < span.next && lex_at(chars@, from as int) == Ok::<_, ParseError>(
                (chars@.subrange(span.start as int, span.end as int), span.next as int),
            ),
            Err(e) => lex_at(chars@, from as int) == Err::<(Seq<char>, int), _>(e),
        },
{
    if from > chars.len() {
        return Err(ParseError::MissingToken);
    }
    let start = scan_whitespace(chars, from);
    if start < chars.len() && chars[start] == '"' {
        let close = scan_for(chars, '"', start + 1);
        if close < chars.len() {
            Ok(TokenSpan { start: start + 1, end: close, next: close + 1 })
        } else {
            Err(ParseError::UnterminatedString)
        }
    } else {
        let end = scan_bare(chars, start);
        if end == start {
            Err(ParseError::MissingToken)
        } else {
            Ok(TokenSpan { start, end, next: end })
        }
    }
}

/// Splits the first token off `input`: the token, and the rest of `input`
/// behind it.
pub fn lex_string<'a>(input: &'a str) -> (r: Result<(&'a str, &'a str), ParseError>)
    ensures
        match r {
            Ok((token, rest)) => lex(input@) == Ok::<_, ParseError>((token@, rest@)),
            Err(e) => lex(input@) == Err::<(Seq<char>, Seq<char>), _>(e),
        },
{
    let chars = to_chars(input);
    match lex_chars(chars.as_slice(), 0) {
        Ok(span) => {
            let token = input.substring_char(span.start, span.end);
            let rest = input.substring_char(span.next, chars.len());
            assert(input@.skip(span.next as int) =~= input@.subrange(
                span.next as int,
                input@.len() as int,
            ));
            Ok((token, rest))
        },
        Err(e) => Err(e),
    }
}

} // verus!
