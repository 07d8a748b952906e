use dblp_rs::Json;
use dblp_rs::SearchError;
use dblp_rs::extract_hits;

fn text(s: &str) -> Json {
    Json::Text(s.to_owned())
}

fn obj(members: Vec<(&str, Json)>) -> Json {
    Json::Object(members.into_iter().map(|(k, v)| (k.to_owned(), v)).collect())
}

fn envelope(hits_members: Vec<(&str, Json)>) -> Json {
    obj(vec![("result", obj(vec![("hits", obj(hits_members))]))])
}

fn hit(info: Json) -> Json {
    obj(vec![("info", info)])
}

#[test]
fn zero_total_yields_empty() {
    let env = envelope(vec![("@total", text("0"))]);
    let frags = extract_hits(&env).unwrap();
    assert!(frags.is_empty());
}

#[test]
fn zero_total_ignores_present_hit_array() {
    let env = envelope(vec![
        ("@total", text("0")),
        ("hit", Json::Array(vec![hit(obj(vec![("title", text("x"))]))])),
    ]);
    let frags = extract_hits(&env).unwrap();
    assert!(frags.is_empty());
}

#[test]
fn hits_extracted_in_array_order() {
    let info_a = obj(vec![("title", text("A"))]);
    let info_b = obj(vec![("title", text("B"))]);
    let info_c = obj(vec![("title", text("C"))]);
    let env = envelope(vec![
        ("@total", text("3")),
        (
            "hit",
            Json::Array(vec![
                hit(obj(vec![("title", text("A"))])),
                hit(obj(vec![("title", text("B"))])),
                hit(obj(vec![("title", text("C"))])),
            ]),
        ),
    ]);
    let frags = extract_hits(&env).unwrap();
    assert_eq!(frags.len(), 3);
    assert_eq!(frags[0], &info_a);
    assert_eq!(frags[1], &info_b);
    assert_eq!(frags[2], &info_c);
}

#[test]
fn object_hit_is_malformed() {
    let env = envelope(vec![
        ("@total", text("1")),
        ("hit", obj(vec![("info", obj(vec![]))])),
    ]);
    match extract_hits(&env) {
        Err(SearchError::MalformedEnvelope { path }) => assert_eq!(path, "result.hits.hit"),
        other => panic!("unexpected outcome: {:?}", other),
    }
}

#[test]
fn nonzero_total_without_hit_is_malformed() {
    let env = envelope(vec![("@total", text("4"))]);
    match extract_hits(&env) {
        Err(SearchError::MalformedEnvelope { path }) => assert_eq!(path, "result.hits.hit"),
        other => panic!("unexpected outcome: {:?}", other),
    }
}

#[test]
fn missing_total_is_malformed() {
    let env = envelope(vec![("hit", Json::Array(vec![]))]);
    match extract_hits(&env) {
        Err(SearchError::MalformedEnvelope { path }) => assert_eq!(path, "result.hits.@total"),
        other => panic!("unexpected outcome: {:?}", other),
    }
}

#[test]
fn numeric_total_is_malformed() {
    let env = envelope(vec![("@total", Json::Number("0".to_owned()))]);
    match extract_hits(&env) {
        Err(SearchError::MalformedEnvelope { path }) => assert_eq!(path, "result.hits.@total"),
        other => panic!("unexpected outcome: {:?}", other),
    }
}

#[test]
fn missing_result_is_malformed() {
    let env = obj(vec![("status", text("OK"))]);
    match extract_hits(&env) {
        Err(SearchError::MalformedEnvelope { path }) => assert_eq!(path, "result"),
        other => panic!("unexpected outcome: {:?}", other),
    }
}

#[test]
fn non_object_envelope_is_malformed() {
    let env = text("not an envelope");
    match extract_hits(&env) {
        Err(SearchError::MalformedEnvelope { path }) => assert_eq!(path, "result"),
        other => panic!("unexpected outcome: {:?}", other),
    }
}

#[test]
fn hit_without_info_is_malformed() {
    let env = envelope(vec![
        ("@total", text("1")),
        ("hit", Json::Array(vec![obj(vec![("score", text("9"))])])),
    ]);
    match extract_hits(&env) {
        Err(SearchError::MalformedEnvelope { path }) => assert_eq!(path, "result.hits.hit.info"),
        other => panic!("unexpected outcome: {:?}", other),
    }
}
