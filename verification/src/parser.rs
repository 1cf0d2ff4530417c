//! The query compiler: from a query text to its conditions.

use vstd::prelude::*;
use crate::lexer::{
    lemma_lex_at_advances, lemma_skip_whitespace, lex_at, lex_chars, scan_whitespace,
    skip_whitespace, ParseError,
};
use crate::query::{
    field_path, is_field_path, lemma_segments_are_a_field_path, Condition, Operator, Query,
    QueryCondition,
};
use crate::text::to_chars;

verus! {

/// The operator that the character at `at` writes: `>` or `<`, and `Equals`
/// where anything else, or nothing, stands there.
pub open spec fn operator_at(s: Seq<char>, at: int) -> Operator {
    if 0 <= at < s.len() && s[at] == '>' {
        Operator::GreaterThan
    } else if 0 <= at < s.len() && s[at] == '<' {
        Operator::LessThan
    } else {
        Operator::Equals
    }
}

/// A condition in front of the conditions `rest`, or the error of `rest`.
pub open spec fn followed_by(first: Condition, rest: Result<Seq<Condition>, ParseError>) -> Result<
    Seq<Condition>,
    ParseError,
> {
    match rest {
        Ok(conditions) => Ok(seq![first] + conditions),
        Err(e) => Err(e),
    }
}

/// The conditions written in `s` from position `from` on.
///
/// A condition is a path token, a `:`, an operator and a value token. White
/// space may stand before each token and before the `:`. The operator is
/// decided by the character right behind the `:` alone: `>` and `<` are
/// consumed, anything else is left to the value token, under `Equals`.
pub open spec fn parse_from(s: Seq<char>, from: int) -> Result<Seq<Condition>, ParseError>
    decreases s.len() - from,
{
    let start = skip_whitespace(s, from);
    if !(0 <= from <= start < s.len()) {
        Ok(Seq::empty())
    } else {
        match lex_at(s, start) {
            Err(e) => Err(e),
            Ok((key, after_key)) => {
                let colon = skip_whitespace(s, after_key);
                if !(colon < s.len() && s[colon] == ':') {
                    Err(ParseError::MissingColon)
                } else {
                    let op = operator_at(s, colon + 1);
                    let value_from = if op == Operator::Equals {
                        colon + 1
                    } else {
                        colon + 2
                    };
                    match lex_at(s, value_from) {
                        Err(e) => Err(e),
                        Ok((value, next)) => {
                            proof {
                                lemma_lex_at_advances(s, start);
                                lemma_skip_whitespace(s, after_key);
                                lemma_lex_at_advances(s, value_from);
                            }
                            followed_by(
                                Condition { path: field_path(key), value, op },
                                parse_from(s, next),
                            )
                        },
                    }
                }
            },
        }
    }
}

/// The query that `s` writes, or the reason why it writes none.
pub open spec fn parse(s: Seq<char>) -> Result<Seq<Condition>, ParseError> {
    parse_from(s, 0)
}

/// Every condition of a parsed query holds a field path.
pub proof fn lemma_parsed_paths(s: Seq<char>, from: int)
    ensures
        parse_from(s, from) matches Ok(conditions) ==> forall|i: int|
            0 <= i < conditions.len() ==> is_field_path(#[trigger] conditions[i].path),
    decreases s.len() - from,
{
    let start = skip_whitespace(s, from);
    if 0 <= from <= start < s.len() {
        if let Ok((key, after_key)) = lex_at(s, start) {
            let colon = skip_whitespace(s, after_key);
            if colon < s.len() && s[colon] == ':' {
                let op = operator_at(s, colon + 1);
                let value_from = if op == Operator::Equals {
                    colon + 1
                } else {
                    colon + 2
                };
                if let Ok((value, next)) = lex_at(s, value_from) {
                    lemma_lex_at_advances(s, start);
                    lemma_skip_whitespace(s, after_key);
                    lemma_lex_at_advances(s, value_from);
                    lemma_parsed_paths(s, next);
                    lemma_segments_are_a_field_path(key, 0);
                    if let Ok(rest) = parse_from(s, next) {
                        let first = Condition { path: field_path(key), value, op };
                        let all = seq![first] + rest;
                        assert forall|i: int| 0 <= i < all.len() implies is_field_path(
                            #[trigger] all[i].path,
                        ) by {
                            if i > 0 {
                                assert(all[i] == rest[i - 1]);
                            }
                        }
                    }
                }
            }
        }
    }
}

/// The conditions `done` in front of the outcome `rest`.
spec fn after(done: Seq<Condition>, rest: Result<Seq<Condition>, ParseError>) -> Result<
    Seq<Condition>,
    ParseError,
> {
    match rest {
        Ok(conditions) => Ok(done + conditions),
        Err(e) => Err(e),
    }
}

/// Compiles a query text.
pub fn parse_query(q: &str) -> (r: Result<Query, ParseError>)
    ensures
        match r {
            Ok(query) => parse(q@) == Ok::<_, ParseError>(query@),
            Err(e) => parse(q@) == Err::<Seq<Condition>, _>(e),
        },
        r matches Ok(query) ==> forall|i: int|
            0 <= i < query@.len() ==> is_field_path(#[trigger] query@[i].path),
{
    let chars = to_chars(q);
    let n = chars.len();
    let mut parsed = Query { conditions: Vec::new() };
    let mut from: usize = 0;
    assert(parsed@ =~= Seq::empty());
    assert(after(parsed@, parse_from(q@, 0)) =~= parse_from(q@, 0)) by {
        match parse_from(q@, 0) {
            Ok(conditions) => {
                assert(parsed@ + conditions =~= conditions);
            },
            Err(_) => {},
        }
    }
    loop
        invariant
            chars@ == q@,
            n == chars@.len(),
            from <= n,
            parse(q@) == after(parsed@, parse_from(q@, from as int)),
        decreases n - from,
    {
        let start = scan_whitespace(chars.as_slice(), from);
        if start >= n {
            proof {
                assert(parsed@ + Seq::<Condition>::empty() =~= parsed@);
                lemma_parsed_paths(q@, 0);
            }
            return Ok(parsed);
        }
        let key_span = match lex_chars(chars.as_slice(), start) {
            Ok(span) => span,
            Err(e) => {
                return Err(e);
            },
        };
        let colon = scan_whitespace(chars.as_slice(), key_span.next);
        if !(colon < n && chars[colon] == ':') {
            return Err(ParseError::MissingColon);
        }
        let mut op = Operator::Equals;
        let mut value_from = colon + 1;
        if value_from < n && chars[value_from] == '>' {
            op = Operator::GreaterThan;
            value_from = value_from + 1;
        } else if value_from < n && chars[value_from] == '<' {
            op = Operator::LessThan;
            value_from = value_from + 1;
        }
        let value_span = match lex_chars(chars.as_slice(), value_from) {
            Ok(span) => span,
            Err(e) => {
                return Err(e);
            },
        };
        let key = q.substring_char(key_span.start, key_span.end).to_owned();
        let value = q.substring_char(value_span.start, value_span.end).to_owned();
        let condition = QueryCondition::new(key, value, op);
        let ghost before = parsed@;
        let ghost added = condition@;
        parsed.conditions.push(condition);
        proof {
            assert(parsed@ =~= before + seq![added]);
            match parse_from(q@, value_span.next as int) {
                Ok(rest) => {
                    assert(parsed@ + rest =~= before + (seq![added] + rest));
                },
                Err(_) => {},
            }
        }
        from = value_span.next;
    }
}

} // verus!
