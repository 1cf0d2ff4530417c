//! The document store: ids, what is written for a document, and what a
//! read means. The engine itself stays with the caller, who performs the
//! write that [`add_document`] asks for and hands the answer of a read to
//! [`get_document_by_id`].

use vstd::prelude::*;
use vstd::string::StrSliceExecFns;
use vstd::utf8::{encode_utf8, encode_utf8_decode_utf8};
use crate::codec::{decode, encode, json_document, json_text};
use crate::document::{Document, Json};
use crate::error::{DocError, Failure};

verus! {

/// A lower-case hexadecimal digit.
pub open spec fn is_lower_hex(c: char) -> bool {
    '0' <= c <= '9' || 'a' <= c <= 'f'
}

/// The canonical text of a random 128-bit id: 36 characters in groups of
/// 8, 4, 4, 4 and 12 lower-case hexadecimal digits with `-` between them,
/// the third group starting with `4` and the fourth with `8`, `9`, `a` or `b`.
pub open spec fn canonical_id(id: Seq<char>) -> bool {
    &&& id.len() == 36
    &&& forall|i: int|
        0 <= i < 36 ==> if i == 8 || i == 13 || i == 18 || i == 23 {
            #[trigger] id[i] == '-'
        } else {
            is_lower_hex(id[i])
        }
    &&& id[14] == '4'
    &&& (id[19] == '8' || id[19] == '9' || id[19] == 'a' || id[19] == 'b')
}

/// Draws a random id: `uuid::Uuid::new_v4`, printed by its `Display`. The
/// contract states the shape that every such text has, and nothing of which
/// one comes out: two calls may or may not differ. The call does not return
/// where the system has no random bytes to give.
#[verifier::external_body]
fn random_id() -> (id: String)
    ensures
        canonical_id(id@),
{
    uuid::Uuid::new_v4().to_string()
}

/// The write that stores a document: `value` goes under `key`, and `id` is
/// what the document is known by from then on.
#[derive(Debug, Clone, PartialEq, Eq)]
pub struct WriteRequest {
    pub id: String,
    pub key: Vec<u8>,
    pub value: Vec<u8>,
}

/// What the engine answered to a point read.
#[derive(Debug, Clone, PartialEq, Eq)]
pub enum EngineRead {
    /// The bytes stored under the key.
    Found(Vec<u8>),
    /// Nothing is stored under the key.
    Missing,
    /// The read failed; the text is what the engine reported.
    Failed(String),
}

/// The mathematical value of an [`EngineRead`].
pub enum Read {
    Found(Seq<u8>),
    Missing,
    Failed(Seq<char>),
}

impl View for EngineRead {
    type V = Read;

    open spec fn view(&self) -> Read {
        match self {
            EngineRead::Found(bytes) => Read::Found(bytes@),
            EngineRead::Missing => Read::Missing,
            EngineRead::Failed(detail) => Read::Failed(detail@),
        }
    }
}

/// The key under which the document known by `id` is stored.
pub open spec fn key_of(id: Seq<char>) -> Seq<u8> {
    encode_utf8(id)
}

/// The bytes stored for `doc`: its JSON text. Where it has none, the store
/// error that says why.
pub open spec fn stored_bytes(doc: Json) -> Result<Seq<u8>, Failure> {
    match json_text(doc) {
        Ok(text) => Ok(encode_utf8(text)),
        Err(detail) => Err(Failure::Store(detail)),
    }
}

/// What a read means: the document that the bytes found hold.
pub open spec fn read_outcome(read: Read) -> Result<Json, Failure> {
    match read {
        Read::Missing => Err(Failure::NotFound),
        Read::Failed(detail) => Err(Failure::Store(detail)),
        Read::Found(bytes) => match json_document(bytes) {
            Ok(doc) => Ok(doc),
            Err(detail) => Err(Failure::Deserialization(detail)),
        },
    }
}

/// The engine key for `id`.
pub fn document_key(id: &str) -> (key: Vec<u8>)
    ensures
        key@ == key_of(id@),
{
    id.as_bytes_vec()
}

/// The write that stores `document` under the id `id`. It fails, as a store
/// error, exactly when the document has no JSON text.
pub fn put_with_id(id: String, document: &Document) -> (r: Result<WriteRequest, DocError>)
    ensures
        match r {
            Ok(request) => request.id@ == id@ && request.key@ == key_of(id@) && stored_bytes(
                document@,
            ) == Ok::<_, Failure>(request.value@),
            Err(e) => stored_bytes(document@) == Err::<Seq<u8>, _>(e@),
        },
{
    match encode(document) {
        Err(detail) => Err(DocError::Store(detail)),
        Ok(text) => {
            let key = document_key(id.as_str());
            let value = text.as_str().as_bytes_vec();
            Ok(WriteRequest { id, key, value })
        },
    }
}

/// The write that stores `document` under a fresh random id. Which id is
/// drawn is not determined; every one has the canonical shape.
pub fn add_document(document: &Document) -> (r: Result<WriteRequest, DocError>)
    ensures
        match r {
            Ok(request) => canonical_id(request.id@) && request.key@ == key_of(request.id@)
                && stored_bytes(document@) == Ok::<_, Failure>(request.value@),
            Err(e) => stored_bytes(document@) == Err::<Seq<u8>, _>(e@),
        },
{
    put_with_id(random_id(), document)
}

/// The document that a read of the engine gave, or why there is none: not
/// found where nothing is stored, a deserialization error where the bytes
/// are no document, a store error where the read itself failed.
pub fn get_document_by_id(read: EngineRead) -> (r: Result<Document, DocError>)
    ensures
        match r {
            Ok(doc) => read_outcome(read@) == Ok::<_, Failure>(doc@),
            Err(e) => read_outcome(read@) == Err::<Json, _>(e@),
        },
{
    match read {
        EngineRead::Missing => Err(DocError::NotFound),
        EngineRead::Failed(detail) => Err(DocError::Store(detail)),
        EngineRead::Found(bytes) => match decode(bytes.as_slice()) {
            Ok(doc) => Ok(doc),
            Err(detail) => Err(DocError::Deserialization(detail)),
        },
    }
}

/// What a point read of an engine that holds `engine` answers for `key`.
pub open spec fn engine_read(engine: Map<Seq<u8>, Seq<u8>>, key: Seq<u8>) -> Read {
    if engine.dom().contains(key) {
        Read::Found(engine[key])
    } else {
        Read::Missing
    }
}

/// The outcome of `get` for `id` on an engine that holds `engine`.
pub open spec fn get(engine: Map<Seq<u8>, Seq<u8>>, id: Seq<char>) -> Result<Json, Failure> {
    read_outcome(engine_read(engine, key_of(id)))
}

/// What the engine holds once `doc` has been put under `id`. A document
/// without JSON text is not written.
pub open spec fn put(engine: Map<Seq<u8>, Seq<u8>>, id: Seq<char>, doc: Json) -> Map<
    Seq<u8>,
    Seq<u8>,
> {
    match stored_bytes(doc) {
        Ok(bytes) => engine.insert(key_of(id), bytes),
        Err(_) => engine,
    }
}

/// A document whose JSON text reads back as itself.
pub open spec fn reads_back(doc: Json) -> bool {
    stored_bytes(doc) matches Ok(bytes) && json_document(bytes) == Ok::<_, Seq<char>>(doc)
}

/// Round trip: a document that reads back from its own JSON text is what
/// `get` returns for the id it was put under.
pub proof fn lemma_get_after_put(engine: Map<Seq<u8>, Seq<u8>>, id: Seq<char>, doc: Json)
    requires
        reads_back(doc),
    ensures
        get(put(engine, id, doc), id) == Ok::<_, Failure>(doc),
{
}

/// An id under which the engine holds nothing is not found; it is never a
/// deserialization error.
pub proof fn lemma_get_unused_id(engine: Map<Seq<u8>, Seq<u8>>, id: Seq<char>)
    requires
        !engine.dom().contains(key_of(id)),
    ensures
        get(engine, id) == Err::<Json, _>(Failure::NotFound),
{
}

/// Different ids have different keys.
pub proof fn lemma_keys_differ(a: Seq<char>, b: Seq<char>)
    requires
        a != b,
    ensures
        key_of(a) != key_of(b),
{
    encode_utf8_decode_utf8(a);
    encode_utf8_decode_utf8(b);
}

/// A put under one id leaves what `get` returns for every other id as it was.
pub proof fn lemma_put_keeps_others(
    engine: Map<Seq<u8>, Seq<u8>>,
    id: Seq<char>,
    doc: Json,
    other: Seq<char>,
)
    requires
        other != id,
    ensures
        get(put(engine, id, doc), other) == get(engine, other),
{
    lemma_keys_differ(other, id);
}

/// What the engine holds once each of `docs` has been put under the id at
/// its place in `ids`, the first one first.
pub open spec fn put_all(
    engine: Map<Seq<u8>, Seq<u8>>,
    ids: Seq<Seq<char>>,
    docs: Seq<Json>,
) -> Map<Seq<u8>, Seq<u8>>
    decreases ids.len(),
{
    if ids.len() == 0 || docs.len() != ids.len() {
        engine
    } else {
        put(put_all(engine, ids.drop_last(), docs.drop_last()), ids.last(), docs.last())
    }
}

/// Puts under ids that differ from one another lose nothing: after all of
/// them, `get` returns for each id the document that was put under it,
/// provided the document reads back from its own JSON text.
pub proof fn lemma_distinct_ids_keep_documents(
    engine: Map<Seq<u8>, Seq<u8>>,
    ids: Seq<Seq<char>>,
    docs: Seq<Json>,
    k: int,
)
    requires
        ids.len() == docs.len(),
        forall|i: int, j: int| 0 <= i < j < ids.len() ==> ids[i] != ids[j],
        forall|i: int| 0 <= i < docs.len() ==> reads_back(#[trigger] docs[i]),
        0 <= k < ids.len(),
    ensures
        get(put_all(engine, ids, docs), ids[k]) == Ok::<_, Failure>(docs[k]),
    decreases ids.len(),
{
    let before = put_all(engine, ids.drop_last(), docs.drop_last());
    if k == ids.len() - 1 {
        lemma_get_after_put(before, ids.last(), docs.last());
    } else {
        lemma_distinct_ids_keep_documents(engine, ids.drop_last(), docs.drop_last(), k);
        lemma_put_keeps_others(before, ids.last(), docs.last(), ids[k]);
    }
}

} // verus!
