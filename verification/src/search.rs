//! The scan executor: a query applied to every stored record in turn.

use vstd::prelude::*;
use crate::codec::{decode, json_document};
use crate::document::{Document, Json};
use crate::error::{DocError, Failure};
use crate::parser::{parse, parse_query};
use crate::query::{matches_all, Condition, Query};

verus! {

/// What the store hands over for one position of its iteration.
#[derive(Debug, Clone, PartialEq, Eq)]
pub enum ScanEntry {
    /// A stored record: its id and the bytes kept under it.
    Record { id: String, bytes: Vec<u8> },
    /// The engine failed at this position; `detail` is what it reported.
    Failure { detail: String },
}

/// The mathematical value of a [`ScanEntry`].
pub enum Entry {
    Record { id: Seq<char>, bytes: Seq<u8> },
    Failure { detail: Seq<char> },
}

impl View for ScanEntry {
    type V = Entry;

    open spec fn view(&self) -> Entry {
        match self {
            ScanEntry::Record { id, bytes } => Entry::Record { id: id@, bytes: bytes@ },
            ScanEntry::Failure { detail } => Entry::Failure { detail: detail@ },
        }
    }
}

/// The mathematical values of a list of entries.
pub open spec fn entries_of(entries: Seq<ScanEntry>) -> Seq<Entry> {
    Seq::new(entries.len(), |i: int| entries[i]@)
}

/// A document that matched, with the id it is stored under.
#[derive(Debug, Clone, PartialEq, Eq)]
pub struct FoundDocument {
    pub id: String,
    pub body: Document,
}

impl View for FoundDocument {
    type V = (Seq<char>, Json);

    open spec fn view(&self) -> (Seq<char>, Json) {
        (self.id@, self.body@)
    }
}

/// The answer to a search: the matching documents in the order of the
/// iteration, and how many they are.
#[derive(Debug, Clone, PartialEq, Eq)]
pub struct SearchResult {
    pub documents: Vec<FoundDocument>,
    pub count: usize,
}

impl View for SearchResult {
    type V = Seq<(Seq<char>, Json)>;

    open spec fn view(&self) -> Seq<(Seq<char>, Json)> {
        Seq::new(self.documents@.len(), |i: int| self.documents@[i]@)
    }
}

/// What one entry adds to a scan: a hit, nothing, or the failure that ends
/// the scan.
///
/// An engine failure is a store error with the engine's words. Bytes that
/// are no document are a deserialization error with the reader's words. A
/// document is then tested against the query, and a condition that cannot
/// be evaluated is an evaluation error.
pub open spec fn scan_step(query: Seq<Condition>, entry: Entry) -> Result<
    Option<(Seq<char>, Json)>,
    Failure,
> {
    match entry {
        Entry::Failure { detail } => Err(Failure::Store(detail)),
        Entry::Record { id, bytes } => match json_document(bytes) {
            Err(detail) => Err(Failure::Deserialization(detail)),
            Ok(doc) => match matches_all(doc, query) {
                Err(e) => Err(Failure::Evaluation(e)),
                Ok(true) => Ok(Some((id, doc))),
                Ok(false) => Ok(None),
            },
        },
    }
}

/// The hits of `query` among `entries`, in order; the failure of the first
/// entry that has one, whatever came before it.
pub open spec fn scan(query: Seq<Condition>, entries: Seq<Entry>) -> Result<
    Seq<(Seq<char>, Json)>,
    Failure,
>
    decreases entries.len(),
{
    if entries.len() == 0 {
        Ok(Seq::empty())
    } else {
        match scan_step(query, entries[0]) {
            Err(e) => Err(e),
            Ok(hit) => match scan(query, entries.skip(1)) {
                Err(e) => Err(e),
                Ok(rest) => Ok(
                    match hit {
                        Some(found) => seq![found] + rest,
                        None => rest,
                    },
                ),
            },
        }
    }
}

/// The answer to the query text `q` over `entries`: a parse error before any
/// entry is looked at, else the outcome of the scan.
pub open spec fn search(q: Seq<char>, entries: Seq<Entry>) -> Result<
    Seq<(Seq<char>, Json)>,
    Failure,
> {
    match parse(q) {
        Err(e) => Err(Failure::Parse(e)),
        Ok(query) => scan(query, entries),
    }
}

/// The hits `found` in front of the outcome `rest`.
spec fn hits_then(
    found: Seq<(Seq<char>, Json)>,
    rest: Result<Seq<(Seq<char>, Json)>, Failure>,
) -> Result<Seq<(Seq<char>, Json)>, Failure> {
    match rest {
        Ok(more) => Ok(found + more),
        Err(e) => Err(e),
    }
}

/// Tests one entry against `query`.
pub fn scan_entry(query: &Query, entry: &ScanEntry) -> (r: Result<Option<FoundDocument>, DocError>)
    ensures
        match r {
            Ok(Some(found)) => scan_step(query@, entry@) == Ok::<_, Failure>(Some(found@)),
            Ok(None) => scan_step(query@, entry@) == Ok::<Option<(Seq<char>, Json)>, Failure>(
                None,
            ),
            Err(e) => scan_step(query@, entry@) == Err::<Option<(Seq<char>, Json)>, _>(e@),
        },
{
    match entry {
        ScanEntry::Failure { detail } => Err(DocError::Store(detail.clone())),
        ScanEntry::Record { id, bytes } => match decode(bytes.as_slice()) {
            Err(detail) => Err(DocError::Deserialization(detail)),
            Ok(body) => match query.matches(&body) {
                Err(e) => Err(DocError::Evaluation(e)),
                Ok(true) => Ok(Some(FoundDocument { id: id.clone(), body })),
                Ok(false) => Ok(None),
            },
        },
    }
}

/// Applies `query` to `entries` in order and collects the documents that
/// match. The first entry that fails ends the scan with its error, and
/// nothing of what was collected is returned.
pub fn scan_documents(query: &Query, entries: &[ScanEntry]) -> (r: Result<SearchResult, DocError>)
    ensures
        match r {
            Ok(found) => scan(query@, entries_of(entries@)) == Ok::<_, Failure>(found@)
                && found.count == found@.len(),
            Err(e) => scan(query@, entries_of(entries@)) == Err::<Seq<(Seq<char>, Json)>, _>(e@),
        },
{
    let ghost all = entries_of(entries@);
    let mut documents: Vec<FoundDocument> = Vec::new();
    let ghost mut found: Seq<(Seq<char>, Json)> = Seq::empty();
    let mut i: usize = 0;
    proof {
        assert(all.skip(0) =~= all);
        match scan(query@, all) {
            Ok(more) => {
                assert(found + more =~= more);
            },
            Err(_) => {},
        }
    }
    while i < entries.len()
        invariant
            i <= entries.len(),
            all == entries_of(entries@),
            found.len() == documents@.len(),
            forall|k: int| 0 <= k < found.len() ==> found[k] == documents@[k]@,
            scan(query@, all) == hits_then(found, scan(query@, all.skip(i as int))),
        decreases entries.len() - i,
    {
        assert(all.skip(i as int)[0] == entries[i as int]@);
        assert(all.skip(i as int).skip(1) =~= all.skip(i + 1));
        let ghost before = found;
        match scan_entry(query, &entries[i]) {
            Err(e) => {
                return Err(e);
            },
            Ok(None) => {},
            Ok(Some(hit)) => {
                proof {
                    found = found.push(hit@);
                }
                documents.push(hit);
            },
        }
        proof {
            match scan(query@, all.skip(i + 1)) {
                Ok(more) => {
                    if found.len() > before.len() {
                        assert(found + more =~= before + (seq![found.last()] + more));
                    }
                },
                Err(_) => {},
            }
        }
        i = i + 1;
    }
    let count = documents.len();
    let result = SearchResult { documents, count };
    proof {
        assert(all.skip(i as int) =~= Seq::empty());
        assert(found + Seq::<(Seq<char>, Json)>::empty() =~= found);
        assert(result@ =~= found);
    }
    Ok(result)
}

/// Compiles `q` and runs it over `entries`. A query that does not compile is
/// reported before any entry is read.
pub fn search_documents(q: &str, entries: &[ScanEntry]) -> (r: Result<SearchResult, DocError>)
    ensures
        match r {
            Ok(found) => search(q@, entries_of(entries@)) == Ok::<_, Failure>(found@)
                && found.count == found@.len(),
            Err(e) => search(q@, entries_of(entries@)) == Err::<Seq<(Seq<char>, Json)>, _>(e@),
        },
{
    match parse_query(q) {
        Err(e) => Err(DocError::Parse(e)),
        Ok(query) => scan_documents(&query, entries),
    }
}

/// Determinism: what a search answers is a function of the query text and
/// the entries. Two answers to the same question hold the same documents
/// under the same ids in the same order, and so the same count, or the same
/// kind of failure.
pub proof fn lemma_search_deterministic(
    q: Seq<char>,
    entries: Seq<Entry>,
    first: Result<Seq<(Seq<char>, Json)>, Failure>,
    second: Result<Seq<(Seq<char>, Json)>, Failure>,
)
    requires
        first == search(q, entries),
        second == search(q, entries),
    ensures
        first == second,
        first matches Ok(a) ==> second matches Ok(b) && a.len() == b.len(),
{
}

} // verus!
