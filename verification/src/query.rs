//! Conditions, queries, and their evaluation against a document.

use vstd::prelude::*;
use crate::document::{get_value_from_doc, resolve, texts, Document, Json};
use crate::lexer::{
    lemma_position_of, lemma_skip_whitespace, position_of, scan_for, scan_whitespace,
    skip_whitespace,
};
use crate::number::{parse_i32, parse_integer};
use crate::text::{is_whitespace, to_chars, whitespace};

verus! {

/// How a condition compares the value it finds with its literal.
#[derive(Debug, Clone, Copy, PartialEq, Eq, Structural)]
pub enum Operator {
    Equals,
    GreaterThan,
    LessThan,
}

/// The end of `s` once the white space before position `to` is cut off.
pub open spec fn trailing_end(s: Seq<char>, to: int) -> int
    decreases to,
{
    if 0 < to <= s.len() && whitespace(s[to - 1]) {
        trailing_end(s, to - 1)
    } else {
        to
    }
}

/// `s` without the white space at its two ends.
pub open spec fn trimmed(s: Seq<char>) -> Seq<char> {
    let start = skip_whitespace(s, 0);
    let end = trailing_end(s, s.len() as int);
    if start < end {
        s.subrange(start, end)
    } else {
        Seq::empty()
    }
}

/// The segments of the part of `key` that starts at `from`: the pieces
/// between its dots, each trimmed, the empty ones left out.
pub open spec fn segments_from(key: Seq<char>, from: int) -> Seq<Seq<char>>
    decreases key.len() - from,
{
    if 0 <= from <= key.len() {
        let dot = position_of(key, '.', from);
        let piece = trimmed(key.subrange(from, dot));
        let rest = if dot < key.len() {
            proof {
                lemma_position_of(key, '.', from);
            }
            segments_from(key, dot + 1)
        } else {
            Seq::empty()
        };
        if piece.len() == 0 {
            rest
        } else {
            seq![piece] + rest
        }
    } else {
        Seq::empty()
    }
}

/// The field path that a key token stands for.
pub open spec fn field_path(key: Seq<char>) -> Seq<Seq<char>> {
    segments_from(key, 0)
}

/// A segment of a field path: not empty, without white space at either end,
/// and without a dot.
pub open spec fn is_segment(segment: Seq<char>) -> bool {
    &&& segment.len() > 0
    &&& !whitespace(segment.first())
    &&& !whitespace(segment.last())
    &&& forall|i: int| 0 <= i < segment.len() ==> #[trigger] segment[i] != '.'
}

/// A field path: every one of its segments is one.
pub open spec fn is_field_path(path: Seq<Seq<char>>) -> bool {
    forall|i: int| 0 <= i < path.len() ==> is_segment(#[trigger] path[i])
}

/// `trailing_end` moves backward, stays inside `s`, and stops at the start
/// or behind a character that is no white space.
pub proof fn lemma_trailing_end(s: Seq<char>, to: int)
    requires
        0 <= to <= s.len(),
    ensures
        0 <= trailing_end(s, to) <= to,
        trailing_end(s, to) > 0 ==> !whitespace(s[trailing_end(s, to) - 1]),
    decreases to,
{
    if 0 < to && whitespace(s[to - 1]) {
        lemma_trailing_end(s, to - 1);
    }
}

/// What trimming leaves of a text without dots is empty or a segment.
pub proof fn lemma_trimmed_is_segment(s: Seq<char>)
    requires
        forall|i: int| 0 <= i < s.len() ==> #[trigger] s[i] != '.',
    ensures
        trimmed(s).len() == 0 || is_segment(trimmed(s)),
{
    lemma_skip_whitespace(s, 0);
    lemma_trailing_end(s, s.len() as int);
}

/// Every segment that a key is split into is a segment of a field path.
pub proof fn lemma_segments_are_a_field_path(key: Seq<char>, from: int)
    ensures
        is_field_path(segments_from(key, from)),
    decreases key.len() - from,
{
    if 0 <= from <= key.len() {
        lemma_position_of(key, '.', from);
        let dot = position_of(key, '.', from);
        let piece = trimmed(key.subrange(from, dot));
        lemma_trimmed_is_segment(key.subrange(from, dot));
        if dot < key.len() {
            lemma_segments_are_a_field_path(key, dot + 1);
        }
        let rest = if dot < key.len() {
            segments_from(key, dot + 1)
        } else {
            Seq::empty()
        };
        let all = segments_from(key, from);
        assert forall|i: int| 0 <= i < all.len() implies is_segment(#[trigger] all[i]) by {
            if piece.len() != 0 && i > 0 {
                assert(all[i] == rest[i - 1]);
            }
        }
    }
}

fn scan_trailing(chars: &[char]) -> (r: usize)
    ensures
        r == trailing_end(chars@, chars@.len() as int),
        r <= chars@.len(),
{
    let mut i: usize = chars.len();
    while i > 0 && is_whitespace(chars[i - 1])
        invariant
            i <= chars@.len(),
            trailing_end(chars@, chars@.len() as int) == trailing_end(chars@, i as int),
        decreases i,
    {
        i = i - 1;
    }
    i
}

/// Splits a key token into its field path.
pub fn split_path(key: &str) -> (path: Vec<String>)
    ensures
        texts(path@) == field_path(key@),
        is_field_path(texts(path@)),
{
    proof {
        lemma_segments_are_a_field_path(key@, 0);
    }
    let chars = to_chars(key);
    let n = chars.len();
    let mut path: Vec<String> = Vec::new();
    let mut from: usize = 0;
    let mut done = false;
    assert(texts(path@) =~= Seq::empty());
    while !done
        invariant
            chars@ == key@,
            n == chars@.len(),
            from <= n,
            !done ==> field_path(key@) == texts(path@) + segments_from(key@, from as int),
            done ==> field_path(key@) == texts(path@),
        decreases n - from + if done { 0int } else { 1int },
    {
        let dot = scan_for(chars.as_slice(), '.', from);
        let piece = key.substring_char(from, dot);
        let piece_chars = to_chars(piece);
        let start = scan_whitespace(piece_chars.as_slice(), 0);
        let end = scan_trailing(piece_chars.as_slice());
        let ghost before = texts(path@);
        if start < end {
            let segment = piece.substring_char(start, end).to_owned();
            path.push(segment);
            assert(texts(path@) =~= before + seq![trimmed(piece@)]);
        }
        proof {
            let rest = if dot < n { segments_from(key@, dot + 1) } else { Seq::empty() };
            if start < end {
                assert(texts(path@) + rest =~= before + (seq![trimmed(piece@)] + rest));
            } else {
                assert(trimmed(piece@).len() == 0);
            }
            assert(dot >= n ==> texts(path@) + rest =~= texts(path@));
        }
        if dot < n {
            from = dot + 1;
        } else {
            done = true;
        }
    }
    path
}

/// One test of a query: a field path, an operator, and the literal to
/// compare with.
#[derive(Debug, Clone, PartialEq, Eq)]
pub struct QueryCondition {
    pub path: Vec<String>,
    pub value: String,
    pub op: Operator,
}

/// The mathematical value of a [`QueryCondition`].
pub struct Condition {
    pub path: Seq<Seq<char>>,
    pub value: Seq<char>,
    pub op: Operator,
}

impl View for QueryCondition {
    type V = Condition;

    open spec fn view(&self) -> Condition {
        Condition { path: texts(self.path@), value: self.value@, op: self.op }
    }
}

impl QueryCondition {
    /// The condition that compares the value at the path written in `key`
    /// with `value`.
    pub fn new(key: String, value: String, op: Operator) -> (condition: Self)
        ensures
            condition@ == (Condition { path: field_path(key@), value: value@, op }),
            is_field_path(condition@.path),
    {
        let path = split_path(key.as_str());
        QueryCondition { path, value, op }
    }
}

/// An ordering comparison met an operand that is not an integer.
#[derive(Debug, Clone, Copy, PartialEq, Eq, Structural)]
pub enum EvaluationError {
    /// The value found in the document is none.
    Value,
    /// The literal of the condition is none.
    Literal,
}

impl EvaluationError {
    /// The sentence that reports this error.
    pub open spec fn message_text(self) -> Seq<char> {
        match self {
            EvaluationError::Value => "Document value is not an integer"@,
            EvaluationError::Literal => "Query value is not an integer"@,
        }
    }

    /// A sentence that names the operand at fault.
    pub fn message(&self) -> (text: String)
        ensures
            text@ == self.message_text(),
    {
        match self {
            EvaluationError::Value => "Document value is not an integer".to_owned(),
            EvaluationError::Literal => "Query value is not an integer".to_owned(),
        }
    }
}

/// The integer that an ordering comparison reads from a value: that of its
/// text where it is a string, of its decimal form where it is a number. No
/// other value has one.
pub open spec fn integer_operand(value: Json) -> Option<int> {
    match value {
        Json::Text(text) => parse_integer(text),
        Json::Number(text) => parse_integer(text),
        _ => None,
    }
}

/// Whether `doc` meets `condition`.
///
/// A path that resolves to nothing is met by no condition. `Equals` holds of
/// a string equal to the literal, character for character, and of nothing
/// else. The two orderings compare integers, and it is an error when the
/// value or the literal is none: the value is looked at first.
pub open spec fn evaluate(doc: Json, condition: Condition) -> Result<bool, EvaluationError> {
    match resolve(doc, condition.path) {
        None => Ok(false),
        Some(value) => match condition.op {
            Operator::Equals => Ok(value == Json::Text(condition.value)),
            _ => match integer_operand(value) {
                None => Err(EvaluationError::Value),
                Some(lhs) => match parse_integer(condition.value) {
                    None => Err(EvaluationError::Literal),
                    Some(rhs) => Ok(
                        if condition.op == Operator::GreaterThan {
                            lhs > rhs
                        } else {
                            lhs < rhs
                        },
                    ),
                },
            },
        },
    }
}

/// Whether `doc` meets every one of `conditions`, taken in order up to the
/// first that fails or cannot be evaluated.
pub open spec fn matches_all(doc: Json, conditions: Seq<Condition>) -> Result<
    bool,
    EvaluationError,
>
    decreases conditions.len(),
{
    if conditions.len() == 0 {
        Ok(true)
    } else {
        match evaluate(doc, conditions[0]) {
            Ok(true) => matches_all(doc, conditions.skip(1)),
            outcome => outcome,
        }
    }
}

fn operand(value: &Document) -> (r: Option<i32>)
    ensures
        match r {
            Some(n) => integer_operand(value@) == Some(n as int),
            None => integer_operand(value@) is None,
        },
{
    match value {
        Document::Text(text) => parse_i32(text.as_str()),
        Document::Number(text) => parse_i32(text.as_str()),
        _ => None,
    }
}

impl QueryCondition {
    /// Tests `doc` against this condition.
    pub fn evaluate(&self, doc: &Document) -> (r: Result<bool, EvaluationError>)
        ensures
            r == evaluate(doc@, self@),
    {
        match get_value_from_doc(doc, self.path.as_slice()) {
            None => Ok(false),
            Some(value) => match self.op {
                Operator::Equals => match value {
                    Document::Text(text) => Ok(*text == self.value),
                    _ => Ok(false),
                },
                Operator::GreaterThan => match operand(value) {
                    None => Err(EvaluationError::Value),
                    Some(lhs) => match parse_i32(self.value.as_str()) {
                        None => Err(EvaluationError::Literal),
                        Some(rhs) => Ok(lhs > rhs),
                    },
                },
                Operator::LessThan => match operand(value) {
                    None => Err(EvaluationError::Value),
                    Some(lhs) => match parse_i32(self.value.as_str()) {
                        None => Err(EvaluationError::Literal),
                        Some(rhs) => Ok(lhs < rhs),
                    },
                },
            },
        }
    }
}

/// The conditions of a query, in the order in which they were written. A
/// document matches when it meets them all.
#[derive(Debug, Clone, PartialEq, Eq)]
pub struct Query {
    pub conditions: Vec<QueryCondition>,
}

impl View for Query {
    type V = Seq<Condition>;

    open spec fn view(&self) -> Seq<Condition> {
        Seq::new(self.conditions@.len(), |i: int| self.conditions@[i]@)
    }
}

impl Query {
    /// Tests `doc` against this query: `Ok(true)` when it matches,
    /// `Ok(false)` when it does not, and the error of the first condition
    /// that cannot be evaluated where no earlier one has failed.
    pub fn matches(&self, doc: &Document) -> (r: Result<bool, EvaluationError>)
        ensures
            r == matches_all(doc@, self@),
    {
        let ghost all = self@;
        let mut i: usize = 0;
        assert(all.skip(0) =~= all);
        while i < self.conditions.len()
            invariant
                i <= self.conditions.len(),
                all == self@,
                matches_all(doc@, all) == matches_all(doc@, all.skip(i as int)),
            decreases self.conditions.len() - i,
        {
            assert(all.skip(i as int)[0] == self.conditions[i as int]@);
            assert(all.skip(i as int).skip(1) =~= all.skip(i + 1));
            match self.conditions[i].evaluate(doc) {
                Ok(true) => {},
                Ok(false) => {
                    return Ok(false);
                },
                Err(e) => {
                    return Err(e);
                },
            }
            i = i + 1;
        }
        Ok(true)
    }
}

} // verus!
