use notebook_api::{
    build_response, envelope_reply, notebook_from_record, paragraph_from_record, parse_object_id,
    render_object_id, web_index, Collection, Mutations, Query, Record, ResolveError, StoredValue,
};

const ID: &str = "5d1f0a2b3c4d5e6f708192a3";
const ID_BYTES: [u8; 12] = [0x5d, 0x1f, 0x0a, 0x2b, 0x3c, 0x4d, 0x5e, 0x6f, 0x70, 0x81, 0x92, 0xa3];

fn text(s: &str) -> StoredValue {
    StoredValue::Text(s.to_string())
}

fn notebook_record(key: [u8; 12], name: &str, paragraphs: &[&str]) -> Record {
    Record {
        fields: vec![
            ("_id".to_string(), StoredValue::ObjectId(key)),
            ("name".to_string(), text(name)),
            (
                "paragraphs".to_string(),
                StoredValue::List(paragraphs.iter().map(|p| text(p)).collect()),
            ),
        ],
    }
}

fn paragraph_record(key: [u8; 12], code: &str, result: &str) -> Record {
    Record {
        fields: vec![
            ("_id".to_string(), StoredValue::ObjectId(key)),
            ("code".to_string(), text(code)),
            ("result".to_string(), text(result)),
        ],
    }
}

#[test]
fn api_version_is_one_point_zero() {
    assert_eq!(Query::apiVersion(), "1.0");
    assert_eq!(Query::apiVersion(), Query::apiVersion());
}

#[test]
fn parse_reads_lower_and_upper_case() {
    assert_eq!(parse_object_id(ID), Some(ID_BYTES));
    assert_eq!(parse_object_id("5D1F0A2B3C4D5E6F708192A3"), Some(ID_BYTES));
}

#[test]
fn parse_refuses_bad_text() {
    assert_eq!(parse_object_id(""), None);
    assert_eq!(parse_object_id("abc123"), None);
    assert_eq!(parse_object_id("5d1f0a2b3c4d5e6f708192a"), None);
    assert_eq!(parse_object_id("5d1f0a2b3c4d5e6f708192a3a3"), None);
    assert_eq!(parse_object_id("5d1f0a2b3c4d5e6f708192ag"), None);
    assert_eq!(parse_object_id("5d1f0a2b3c4d5e6f708192é"), None);
}

#[test]
fn render_writes_lower_case_digits() {
    assert_eq!(render_object_id(&ID_BYTES), ID);
    assert_eq!(render_object_id(&[0u8; 12]), "000000000000000000000000");
    assert_eq!(render_object_id(&[0xffu8; 12]), "ffffffffffffffffffffffff");
}

#[test]
fn lookup_for_valid_id() {
    let l = Query::notebook_lookup(ID).unwrap();
    assert_eq!(l.key, ID_BYTES);
    assert!(matches!(l.collection, Collection::Notebooks));
    assert_eq!(l.collection.name(), "notebooks");
    let p = Query::paragraph_lookup(ID).unwrap();
    assert!(matches!(p.collection, Collection::Paragraphs));
    assert_eq!(p.collection.name(), "paragraphs");
}

#[test]
fn malformed_id_is_not_not_found() {
    assert!(matches!(Query::notebook_lookup("abc123"), Err(ResolveError::MalformedId)));
    assert!(matches!(Query::paragraph_lookup("not an id"), Err(ResolveError::MalformedId)));
}

#[test]
fn stored_notebook_keeps_its_id() {
    let l = Query::notebook_lookup(ID).unwrap();
    let n = Query::notebook(Ok(Some(notebook_record(l.key, "Demo", &["p1", "p2"])))).unwrap();
    assert_eq!(n.id, ID);
    assert_eq!(n.name, "Demo");
    assert_eq!(n.paragraphs, vec!["p1".to_string(), "p2".to_string()]);
}

#[test]
fn upper_case_id_comes_back_canonical() {
    let l = Query::notebook_lookup("5D1F0A2B3C4D5E6F708192A3").unwrap();
    let n = Query::notebook(Ok(Some(notebook_record(l.key, "Demo", &[])))).unwrap();
    assert_eq!(n.id, ID);
}

#[test]
fn absent_notebook_is_not_found() {
    assert!(Query::notebook_lookup(ID).is_ok());
    assert!(matches!(Query::notebook(Ok(None)), Err(ResolveError::NotFound)));
    assert!(matches!(Query::paragraph(Ok(None)), Err(ResolveError::NotFound)));
}

#[test]
fn store_failure_is_passed_on() {
    let r = Query::notebook(Err(ResolveError::Store("connection refused".to_string())));
    assert!(matches!(r, Err(ResolveError::Store(m)) if m == "connection refused"));
    let r = Query::notebooks(Err(ResolveError::Store("down".to_string())));
    assert!(matches!(r, Err(ResolveError::Store(m)) if m == "down"));
}

#[test]
fn same_answer_gives_same_notebook() {
    let a = Query::notebook(Ok(Some(notebook_record(ID_BYTES, "Demo", &["p1"])))).unwrap();
    let b = Query::notebook(Ok(Some(notebook_record(ID_BYTES, "Demo", &["p1"])))).unwrap();
    assert_eq!(a.id, b.id);
    assert_eq!(a.name, b.name);
    assert_eq!(a.paragraphs, b.paragraphs);
}

#[test]
fn notebooks_gives_one_per_document() {
    let mut k2 = ID_BYTES;
    k2[11] = 0xa4;
    let rows = vec![
        Ok(notebook_record(ID_BYTES, "One", &["p1"])),
        Ok(notebook_record(k2, "Two", &[])),
    ];
    let ns = Query::notebooks(Ok(rows)).unwrap();
    assert_eq!(ns.len(), 2);
    assert_eq!(ns[0].id, ID);
    assert_eq!(ns[1].id, "5d1f0a2b3c4d5e6f708192a4");
    assert_eq!(ns[1].name, "Two");
    assert!(Query::notebooks(Ok(vec![])).unwrap().is_empty());
}

#[test]
fn notebooks_first_bad_row_decides() {
    let rows = vec![
        Ok(notebook_record(ID_BYTES, "One", &[])),
        Ok(Record { fields: vec![("name".to_string(), text("no id"))] }),
        Err(ResolveError::Store("cursor".to_string())),
    ];
    assert!(matches!(Query::notebooks(Ok(rows)), Err(ResolveError::BadDocument)));
    let rows = vec![
        Err(ResolveError::Store("cursor".to_string())),
        Ok(Record { fields: vec![] }),
    ];
    assert!(matches!(Query::notebooks(Ok(rows)), Err(ResolveError::Store(m)) if m == "cursor"));
}

#[test]
fn document_shape_is_checked() {
    let missing_name = Record {
        fields: vec![
            ("_id".to_string(), StoredValue::ObjectId(ID_BYTES)),
            ("paragraphs".to_string(), StoredValue::List(vec![])),
        ],
    };
    assert!(matches!(notebook_from_record(&missing_name), Err(ResolveError::BadDocument)));
    let text_id = Record {
        fields: vec![
            ("_id".to_string(), text(ID)),
            ("name".to_string(), text("Demo")),
            ("paragraphs".to_string(), StoredValue::List(vec![])),
        ],
    };
    assert!(matches!(notebook_from_record(&text_id), Err(ResolveError::BadDocument)));
    let bad_list = notebook_record(ID_BYTES, "Demo", &[]);
    let mut bad_list = bad_list;
    bad_list.fields[2].1 = StoredValue::List(vec![text("p1"), StoredValue::Other]);
    assert!(matches!(notebook_from_record(&bad_list), Err(ResolveError::BadDocument)));
}

#[test]
fn first_field_of_a_name_counts() {
    let mut r = notebook_record(ID_BYTES, "First", &["p1"]);
    r.fields.push(("name".to_string(), text("Second")));
    assert_eq!(notebook_from_record(&r).unwrap().name, "First");
}

#[test]
fn paragraph_is_read() {
    let p = Query::paragraph(Ok(Some(paragraph_record(ID_BYTES, "1 + 1", "2")))).unwrap();
    assert_eq!(p.id, ID);
    assert_eq!(p.code, "1 + 1");
    assert_eq!(p.result, "2");
    let no_result = Record {
        fields: vec![
            ("_id".to_string(), StoredValue::ObjectId(ID_BYTES)),
            ("code".to_string(), text("x")),
        ],
    };
    assert!(matches!(paragraph_from_record(&no_result), Err(ResolveError::BadDocument)));
}

#[test]
fn create_notebook_is_not_provided() {
    assert!(matches!(Mutations::create_notebook(ID), Err(ResolveError::NotImplemented)));
}

#[test]
fn encoded_result_is_ok_json() {
    let body = br#"{"data":{"notebook":{"id":"abc123","name":"Demo"}}}"#.to_vec();
    let r = build_response(Ok(body.clone()));
    assert_eq!(r.status, 200);
    assert_eq!(r.content_type.as_deref(), Some("application/json; charset=utf-8"));
    assert_eq!(r.body, body);
}

#[test]
fn encoding_failure_is_server_error() {
    let err = serde_json::from_str::<serde_json::Value>("{").unwrap_err();
    let r = build_response(Err(err));
    assert_eq!(r.status, 500);
    assert!(r.content_type.is_none());
    assert!(r.body.is_empty());
}

#[test]
fn bad_envelope_is_bad_request() {
    for body in [&b"not json"[..], b"{}", b"{\"operationName\": \"x\"}", b"{\"query\": 3}"] {
        let r = envelope_reply(body).unwrap();
        assert_eq!(r.status, 400);
        assert!(r.content_type.is_none());
        assert!(r.body.is_empty());
    }
}

#[test]
fn good_envelope_goes_on() {
    assert!(envelope_reply(br#"{"query": "{ notebook(id: \"abc123\") { id name } }"}"#).is_none());
    assert!(envelope_reply(br#"{"query": "{ apiVersion }", "operationName": null, "variables": null}"#).is_none());
}

#[test]
fn index_page_points_at_query_route() {
    let r = web_index();
    assert_eq!(r.status, 200);
    assert_eq!(r.content_type.as_deref(), Some("text/html; charset=utf-8"));
    let page = String::from_utf8(r.body).unwrap();
    assert!(page.contains("/query"));
    assert!(page.contains("<html"));
}

#[test]
fn one_field_fails_and_the_other_resolves() {
    let body = br#"{"query": "{ notebook(id: \"5d1f0a2b3c4d5e6f708192a3\") { id name } paragraph(id: \"zz\") { id } }"}"#;
    assert!(envelope_reply(body).is_none());
    let l = Query::notebook_lookup(ID).unwrap();
    let n = Query::notebook(Ok(Some(notebook_record(l.key, "Demo", &["p1"])))).unwrap();
    assert_eq!(n.id, ID);
    assert!(matches!(Query::paragraph_lookup("zz"), Err(ResolveError::MalformedId)));
    let encoded = br#"{"data":{"notebook":{"id":"5d1f0a2b3c4d5e6f708192a3","name":"Demo"},"paragraph":null},"errors":[{"message":"malformed identifier","path":["paragraph"]}]}"#.to_vec();
    assert_eq!(build_response(Ok(encoded)).status, 200);
}

#[test]
fn stored_notebook_end_to_end() {
    let body = br#"{"query": "{ notebook(id: \"5d1f0a2b3c4d5e6f708192a3\") { id name } }"}"#;
    assert!(envelope_reply(body).is_none());
    let l = Query::notebook_lookup(ID).unwrap();
    assert_eq!(l.collection.name(), "notebooks");
    let n = Query::notebook(Ok(Some(notebook_record(l.key, "Demo", &["p1"])))).unwrap();
    assert_eq!((n.id.as_str(), n.name.as_str()), (ID, "Demo"));
    assert_eq!(n.paragraphs, vec!["p1".to_string()]);
    let r = build_response(Ok(br#"{"data":{"notebook":{"id":"5d1f0a2b3c4d5e6f708192a3","name":"Demo"}}}"#.to_vec()));
    assert_eq!(r.status, 200);
    assert_eq!(r.content_type.as_deref(), Some("application/json; charset=utf-8"));
}
