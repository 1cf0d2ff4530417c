use docdb::codec::{decode, encode};
use docdb::document::Document;
use docdb::error::{DocError, ErrorKind};
use docdb::lexer::ParseError;
use docdb::parser::parse_query;
use docdb::query::EvaluationError;
use docdb::search::{scan_documents, scan_entry, search_documents, FoundDocument, ScanEntry};
use docdb::store::{add_document, document_key, get_document_by_id, put_with_id, EngineRead};
use std::collections::BTreeMap;

fn text(s: &str) -> Document {
    Document::Text(s.to_string())
}

fn number(s: &str) -> Document {
    Document::Number(s.to_string())
}

fn object(members: Vec<(&str, Document)>) -> Document {
    Document::Object(members.into_iter().map(|(k, v)| (k.to_string(), v)).collect())
}

fn record(id: &str, json: &str) -> ScanEntry {
    ScanEntry::Record { id: id.to_string(), bytes: json.as_bytes().to_vec() }
}

fn alice() -> Document {
    object(vec![("age", text("30")), ("name", text("Alice"))])
}

fn bob() -> Document {
    object(vec![("age", text("25")), ("name", text("Bob"))])
}

fn two_records() -> Vec<ScanEntry> {
    vec![
        record("id-a", "{\"name\":\"Alice\",\"age\":\"30\"}"),
        record("id-b", "{\"name\":\"Bob\",\"age\":\"25\"}"),
    ]
}

fn is_canonical(id: &str) -> bool {
    let b = id.as_bytes();
    b.len() == 36
        && b.iter().enumerate().all(|(i, c)| match i {
            8 | 13 | 18 | 23 => *c == b'-',
            _ => c.is_ascii_digit() || (b'a'..=b'f').contains(c),
        })
        && b[14] == b'4'
        && matches!(b[19], b'8' | b'9' | b'a' | b'b')
}

#[test]
fn decode_reads_every_kind_of_value() {
    let doc = decode(b"{\"n\":null,\"t\":true,\"i\":-12,\"f\":1.5,\"s\":\"x\",\"a\":[1,\"2\",[]],\"o\":{}}")
        .unwrap();
    assert_eq!(
        doc,
        object(vec![
            ("a", Document::Array(vec![number("1"), text("2"), Document::Array(vec![])])),
            ("f", number("1.5")),
            ("i", number("-12")),
            ("n", Document::Null),
            ("o", object(vec![])),
            ("s", text("x")),
            ("t", Document::Bool(true)),
        ])
    );
}

#[test]
fn decode_scalars_at_top_level() {
    assert_eq!(decode(b"null"), Ok(Document::Null));
    assert_eq!(decode(b" 30 "), Ok(number("30")));
    assert_eq!(decode(b"30.0"), Ok(number("30.0")));
    assert_eq!(decode(b"\"a\\\"b\""), Ok(text("a\"b")));
    assert_eq!(decode(b"18446744073709551615"), Ok(number("18446744073709551615")));
}

#[test]
fn decode_keeps_the_last_of_equal_keys() {
    assert_eq!(decode(b"{\"a\":1,\"a\":2}"), Ok(object(vec![("a", number("2"))])));
}

#[test]
fn decode_rejects_what_is_not_json() {
    for bad in [&b""[..], b"{", b"{\"a\":}", b"nul", b"[1,]", b"{} x", b"\xff\xfe", b"'a'"] {
        assert!(decode(bad).is_err(), "{:?}", bad);
    }
}

#[test]
fn encode_writes_compact_json() {
    assert_eq!(encode(&alice()), Ok("{\"age\":\"30\",\"name\":\"Alice\"}".to_string()));
    assert_eq!(encode(&Document::Null), Ok("null".to_string()));
    assert_eq!(
        encode(&Document::Array(vec![number("1"), number("-2.5"), Document::Bool(false), text("a\"b")])),
        Ok("[1,-2.5,false,\"a\\\"b\"]".to_string())
    );
}

#[test]
fn encode_orders_members_by_key() {
    let doc = object(vec![("b", number("1")), ("a", number("2")), ("b", number("3"))]);
    assert_eq!(encode(&doc), Ok("{\"a\":2,\"b\":3}".to_string()));
}

#[test]
fn encode_refuses_text_that_is_no_number() {
    assert!(encode(&number("abc")).is_err());
    assert!(encode(&number("")).is_err());
    assert!(encode(&Document::Array(vec![number("1"), number("\"1\"")])).is_err());
    assert!(encode(&object(vec![("a", object(vec![("b", number("1 2"))]))])).is_err());
}

#[test]
fn encode_writes_numbers_in_serde_form() {
    assert_eq!(encode(&number(" 30 ")), Ok("30".to_string()));
    assert_eq!(encode(&number("1e2")), Ok("100.0".to_string()));
}

#[test]
fn put_refuses_document_without_json_text() {
    let error = put_with_id("x".to_string(), &number("abc")).unwrap_err();
    assert_eq!(error.kind(), ErrorKind::Store);
    assert_eq!(error.status_code(), 500);
    assert_eq!(add_document(&number("abc")).unwrap_err().kind(), ErrorKind::Store);
}

#[test]
fn encode_then_decode_gives_the_document_back() {
    let doc = object(vec![
        ("a", Document::Array(vec![number("1"), Document::Null, object(vec![("k", text("v"))])])),
        ("b", Document::Bool(false)),
        ("c", number("-7")),
        ("d", number("2.25")),
        ("e", text("line\nbreak \u{e9}")),
    ]);
    let written = encode(&doc).unwrap();
    assert_eq!(decode(written.as_bytes()), Ok(doc));
}

#[test]
fn decode_agrees_with_serde_json() {
    let input = "{\"x\":{\"y\":[1,2.5,\"z\"]},\"w\":null}";
    let value: serde_json::Value = serde_json::from_str(input).unwrap();
    let doc = decode(input.as_bytes()).unwrap();
    assert_eq!(encode(&doc).unwrap(), serde_json::to_string(&value).unwrap());
}

#[test]
fn added_document_gets_a_canonical_id() {
    let request = add_document(&alice()).unwrap();
    assert!(is_canonical(&request.id), "{}", request.id);
    assert_eq!(request.key, request.id.as_bytes().to_vec());
    assert_eq!(request.value, b"{\"age\":\"30\",\"name\":\"Alice\"}".to_vec());
}

#[test]
fn sequential_puts_yield_distinct_ids() {
    let mut ids = Vec::new();
    for _ in 0..200 {
        ids.push(add_document(&bob()).unwrap().id);
    }
    let mut unique = ids.clone();
    unique.sort();
    unique.dedup();
    assert_eq!(unique.len(), ids.len());
}

#[test]
fn put_with_id_keeps_the_id() {
    let request = put_with_id("my-id".to_string(), &number("5")).unwrap();
    assert_eq!(request.id, "my-id");
    assert_eq!(request.key, b"my-id".to_vec());
    assert_eq!(request.value, b"5".to_vec());
    assert_eq!(document_key("caf\u{e9}"), "caf\u{e9}".as_bytes().to_vec());
}

#[test]
fn get_after_put_returns_the_document() {
    let mut engine: BTreeMap<Vec<u8>, Vec<u8>> = BTreeMap::new();
    let doc = object(vec![("a", object(vec![("b", number("1"))])), ("name", text("Alice"))]);
    let request = add_document(&doc).unwrap();
    engine.insert(request.key.clone(), request.value.clone());
    let read = match engine.get(&document_key(&request.id)) {
        Some(bytes) => EngineRead::Found(bytes.clone()),
        None => EngineRead::Missing,
    };
    assert_eq!(get_document_by_id(read), Ok(doc));
}

#[test]
fn get_on_unused_id_is_not_found() {
    let engine: BTreeMap<Vec<u8>, Vec<u8>> = BTreeMap::new();
    let read = match engine.get(&document_key("never-issued")) {
        Some(bytes) => EngineRead::Found(bytes.clone()),
        None => EngineRead::Missing,
    };
    assert_eq!(get_document_by_id(read), Err(DocError::NotFound));
}

#[test]
fn get_on_corrupt_bytes_is_a_deserialization_error() {
    let outcome = get_document_by_id(EngineRead::Found(b"{\"name\":".to_vec()));
    assert_eq!(outcome.unwrap_err().kind(), ErrorKind::Deserialization);
    let outcome = get_document_by_id(EngineRead::Found(vec![0xff, 0x00]));
    assert_eq!(outcome.unwrap_err().kind(), ErrorKind::Deserialization);
}

#[test]
fn get_on_failed_read_is_a_store_error() {
    let outcome = get_document_by_id(EngineRead::Failed("disk gone".to_string()));
    assert_eq!(outcome, Err(DocError::Store("disk gone".to_string())));
}

#[test]
fn search_ordering_finds_alice() {
    let result = search_documents("age:>26", &two_records()).unwrap();
    assert_eq!(result.documents, vec![FoundDocument { id: "id-a".to_string(), body: alice() }]);
    assert_eq!(result.count, 1);
}

#[test]
fn search_for_unknown_name_finds_nothing() {
    let result = search_documents("name:\"Carol\"", &two_records()).unwrap();
    assert_eq!(result.documents, vec![]);
    assert_eq!(result.count, 0);
}

#[test]
fn search_with_empty_query_finds_everything() {
    let result = search_documents("", &two_records()).unwrap();
    assert_eq!(
        result.documents,
        vec![
            FoundDocument { id: "id-a".to_string(), body: alice() },
            FoundDocument { id: "id-b".to_string(), body: bob() },
        ]
    );
    assert_eq!(result.count, 2);
}

#[test]
fn search_keeps_iteration_order() {
    let entries = vec![
        record("z", "{\"n\":\"3\"}"),
        record("a", "{\"n\":\"1\"}"),
        record("m", "{\"n\":\"2\"}"),
        record("b", "{\"n\":\"0\"}"),
    ];
    let result = search_documents("n:>0", &entries).unwrap();
    let ids: Vec<&str> = result.documents.iter().map(|d| d.id.as_str()).collect();
    assert_eq!(ids, vec!["z", "a", "m"]);
    assert_eq!(result.count, 3);
}

#[test]
fn search_over_no_entries() {
    let result = search_documents("a:b", &[]).unwrap();
    assert_eq!(result.documents, vec![]);
    assert_eq!(result.count, 0);
}

#[test]
fn search_malformed_query_fails_before_the_scan() {
    let poisoned = vec![ScanEntry::Failure { detail: "unreadable".to_string() }, record("x", "not json")];
    assert_eq!(search_documents("name:", &poisoned), Err(DocError::Parse(ParseError::MissingToken)));
    assert_eq!(search_documents("name:", &two_records()), Err(DocError::Parse(ParseError::MissingToken)));
    assert_eq!(search_documents("name", &[]), Err(DocError::Parse(ParseError::MissingColon)));
    assert_eq!(search_documents("n:\"x", &[]), Err(DocError::Parse(ParseError::UnterminatedString)));
}

#[test]
fn search_aborts_on_corrupt_record() {
    let entries = vec![
        record("a", "{\"age\":\"30\"}"),
        record("bad", "{\"age\":"),
        record("c", "{\"age\":\"40\"}"),
    ];
    let error = search_documents("age:>26", &entries).unwrap_err();
    assert_eq!(error.kind(), ErrorKind::Deserialization);
    assert_eq!(error.status_code(), 500);
}

#[test]
fn search_aborts_on_corrupt_record_even_with_empty_query() {
    let entries = vec![record("a", "{}"), record("bad", "")];
    assert_eq!(search_documents("", &entries).unwrap_err().kind(), ErrorKind::Deserialization);
}

#[test]
fn search_aborts_on_evaluation_error() {
    let entries = vec![
        record("a", "{\"age\":\"30\"}"),
        record("b", "{\"age\":\"abc\"}"),
    ];
    assert_eq!(
        search_documents("age:>26", &entries),
        Err(DocError::Evaluation(EvaluationError::Value))
    );
    assert_eq!(
        search_documents("age:>x", &entries),
        Err(DocError::Evaluation(EvaluationError::Literal))
    );
}

#[test]
fn search_aborts_on_engine_failure() {
    let entries = vec![
        record("a", "{\"age\":\"30\"}"),
        ScanEntry::Failure { detail: "io".to_string() },
        record("bad", "{"),
    ];
    assert_eq!(search_documents("age:>26", &entries), Err(DocError::Store("io".to_string())));
}

#[test]
fn search_reports_the_first_failure_in_order() {
    let entries = vec![
        record("bad", "{"),
        ScanEntry::Failure { detail: "io".to_string() },
    ];
    assert_eq!(search_documents("", &entries).unwrap_err().kind(), ErrorKind::Deserialization);
}

#[test]
fn search_on_json_numbers() {
    let entries = vec![record("a", "{\"age\":31}"), record("b", "{\"age\":7}")];
    let result = search_documents("age:>30", &entries).unwrap();
    assert_eq!(result.count, 1);
    assert_eq!(result.documents[0].id, "a");
    let entries = vec![record("a", "{\"age\":31.0}")];
    assert_eq!(
        search_documents("age:>30", &entries),
        Err(DocError::Evaluation(EvaluationError::Value))
    );
}

#[test]
fn search_twice_gives_the_same_answer() {
    let entries = two_records();
    for q in ["age:>26", "", "name:Bob age:<26", "name:"] {
        assert_eq!(search_documents(q, &entries), search_documents(q, &entries));
    }
}

#[test]
fn scan_entry_by_entry() {
    let query = parse_query("age:>26").unwrap();
    let entries = two_records();
    assert_eq!(
        scan_entry(&query, &entries[0]),
        Ok(Some(FoundDocument { id: "id-a".to_string(), body: alice() }))
    );
    assert_eq!(scan_entry(&query, &entries[1]), Ok(None));
    let failure = ScanEntry::Failure { detail: "x".to_string() };
    assert_eq!(scan_entry(&query, &failure), Err(DocError::Store("x".to_string())));
    let result = scan_documents(&query, &entries).unwrap();
    assert_eq!(result.count, 1);
}

#[test]
fn error_status_codes() {
    assert_eq!(DocError::Parse(ParseError::MissingColon).status_code(), 400);
    assert_eq!(DocError::NotFound.status_code(), 404);
    assert_eq!(DocError::Store("x".to_string()).status_code(), 500);
    assert_eq!(DocError::Deserialization("x".to_string()).status_code(), 500);
    assert_eq!(DocError::Evaluation(EvaluationError::Value).status_code(), 500);
}

#[test]
fn error_messages() {
    assert_eq!(DocError::Parse(ParseError::MissingColon).message(), "Invalid query: Expected colon");
    assert_eq!(DocError::Store("io".to_string()).message(), "Database error: io");
    assert_eq!(
        DocError::Deserialization("eof".to_string()).message(),
        "Error deserializing document: eof"
    );
    assert_eq!(
        DocError::Evaluation(EvaluationError::Literal).message(),
        "Error evaluating query: Query value is not an integer"
    );
    assert_eq!(DocError::NotFound.message(), "Document not found");
}

#[test]
fn error_kinds() {
    assert_eq!(DocError::NotFound.kind(), ErrorKind::NotFound);
    assert_eq!(DocError::Store("a".to_string()).kind(), ErrorKind::Store);
    assert_eq!(
        DocError::Parse(ParseError::UnterminatedString).kind(),
        ErrorKind::Parse(ParseError::UnterminatedString)
    );
}

#[test]
fn every_document_put_can_be_got_again() {
    let mut engine: BTreeMap<Vec<u8>, Vec<u8>> = BTreeMap::new();
    let mut issued = Vec::new();
    for n in 0..50 {
        let doc = object(vec![("n", number(&n.to_string())), ("name", text("doc"))]);
        let request = add_document(&doc).unwrap();
        engine.insert(request.key, request.value);
        issued.push((request.id, doc));
    }
    assert_eq!(engine.len(), 50);
    for (id, doc) in issued {
        let read = match engine.get(&document_key(&id)) {
            Some(bytes) => EngineRead::Found(bytes.clone()),
            None => EngineRead::Missing,
        };
        assert_eq!(get_document_by_id(read), Ok(doc));
    }
}
