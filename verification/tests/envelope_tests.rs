use dblp_rs::Json;
use dblp_rs::SearchError;
use dblp_rs::authors_from_envelope;
use dblp_rs::publications_from_envelope;
use dblp_rs::venues_from_envelope;

fn text(s: &str) -> Json {
    Json::Text(s.to_owned())
}

fn obj(members: Vec<(&str, Json)>) -> Json {
    Json::Object(members.into_iter().map(|(k, v)| (k.to_owned(), v)).collect())
}

fn envelope(hits_members: Vec<(&str, Json)>) -> Json {
    obj(vec![("result", obj(vec![("hits", obj(hits_members))]))])
}

fn hit(info: Json) -> Json {
    obj(vec![("info", info)])
}

fn pub_info(title: &str) -> Json {
    obj(vec![
        ("authors", obj(vec![("author", obj(vec![("text", text("Leslie Lamport"))]))])),
        ("title", text(title)),
        ("venue", text("TOCS")),
        ("year", text("1998")),
        ("type", text("Journal Articles")),
        ("key", text("journals/tocs/Lamport98")),
        ("ee", text("https://example.org/ee")),
        ("url", text("https://example.org/rec")),
    ])
}

#[test]
fn zero_hits_is_an_empty_result_not_an_error() {
    let env = envelope(vec![("@total", text("0"))]);
    let records = publications_from_envelope(&env).unwrap();
    assert!(records.is_empty());
}

#[test]
fn publications_keep_extraction_order() {
    let env = envelope(vec![
        ("@total", text("2")),
        ("hit", Json::Array(vec![hit(pub_info("First")), hit(pub_info("Second"))])),
    ]);
    let records = publications_from_envelope(&env).unwrap();
    assert_eq!(records.len(), 2);
    assert_eq!(records[0].title, "First");
    assert_eq!(records[1].title, "Second");
}

#[test]
fn first_bad_fragment_reports_its_index() {
    let mut broken = pub_info("Second");
    if let Json::Object(members) = &mut broken {
        members.retain(|(k, _)| k != "title");
    }
    let env = envelope(vec![
        ("@total", text("2")),
        ("hit", Json::Array(vec![hit(pub_info("First")), hit(broken)])),
    ]);
    let err = publications_from_envelope(&env).unwrap_err();
    assert_eq!(err.index, Some(1));
    match err.error {
        SearchError::MissingRequiredField { field } => assert_eq!(field, "title"),
        other => panic!("unexpected error: {:?}", other),
    }
}

#[test]
fn malformed_envelope_reports_no_index() {
    let env = envelope(vec![
        ("@total", text("1")),
        ("hit", obj(vec![("info", obj(vec![]))])),
    ]);
    let err = publications_from_envelope(&env).unwrap_err();
    assert_eq!(err.index, None);
    match err.error {
        SearchError::MalformedEnvelope { path } => assert_eq!(path, "result.hits.hit"),
        other => panic!("unexpected error: {:?}", other),
    }
}

#[test]
fn authors_from_envelope_normalizes_each_hit() {
    let env = envelope(vec![
        ("@total", text("1")),
        (
            "hit",
            Json::Array(vec![hit(obj(vec![
                ("author", text("Leslie Lamport")),
                ("url", text("https://example.org/pid/l")),
                ("aliases", text("L. Lamport")),
            ]))]),
        ),
    ]);
    let records = authors_from_envelope(&env).unwrap();
    assert_eq!(records.len(), 1);
    assert_eq!(records[0].author, "Leslie Lamport");
    assert_eq!(records[0].aliases, vec!["L. Lamport".to_owned()]);
}

#[test]
fn venues_from_envelope_normalizes_each_hit() {
    let env = envelope(vec![
        ("@total", text("2")),
        (
            "hit",
            Json::Array(vec![
                hit(obj(vec![
                    ("venue", text("ACM Transactions on Computer Systems")),
                    ("acronym", text("TOCS")),
                    ("type", text("Journal")),
                    ("url", text("https://example.org/tocs")),
                ])),
                hit(obj(vec![
                    ("venue", text("Symposium on Theory of Computing")),
                    ("type", text("Conference")),
                    ("url", text("https://example.org/stoc")),
                ])),
            ]),
        ),
    ]);
    let records = venues_from_envelope(&env).unwrap();
    assert_eq!(records.len(), 2);
    assert_eq!(records[0].acronym, Some("TOCS".to_owned()));
    assert_eq!(records[1].acronym, None);
    assert_eq!(records[1].venue, "Symposium on Theory of Computing");
}
