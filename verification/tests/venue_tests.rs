use dblp_rs::Json;
use dblp_rs::SearchError;
use dblp_rs::normalize_venue;

fn text(s: &str) -> Json {
    Json::Text(s.to_owned())
}

fn obj(members: Vec<(&str, Json)>) -> Json {
    Json::Object(members.into_iter().map(|(k, v)| (k.to_owned(), v)).collect())
}

fn base_fragment() -> Vec<(&'static str, Json)> {
    vec![
        ("venue", text("ACM Transactions on Computer Systems")),
        ("acronym", text("TOCS")),
        ("type", text("Journal")),
        ("url", text("https://example.org/db/journals/tocs")),
    ]
}

#[test]
fn venue_with_acronym() {
    let v = normalize_venue(&obj(base_fragment())).unwrap();
    assert_eq!(v.venue, "ACM Transactions on Computer Systems");
    assert_eq!(v.acronym, Some("TOCS".to_owned()));
    assert_eq!(v.type_, "Journal");
    assert_eq!(v.url, "https://example.org/db/journals/tocs");
}

#[test]
fn venue_without_acronym() {
    let mut members = base_fragment();
    members.retain(|(k, _)| *k != "acronym");
    let v = normalize_venue(&obj(members)).unwrap();
    assert_eq!(v.acronym, None);
}

#[test]
fn venue_null_acronym_is_absent() {
    let mut members = base_fragment();
    members.retain(|(k, _)| *k != "acronym");
    members.push(("acronym", Json::Null));
    let v = normalize_venue(&obj(members)).unwrap();
    assert_eq!(v.acronym, None);
}

#[test]
fn venue_missing_name_fails() {
    let mut members = base_fragment();
    members.retain(|(k, _)| *k != "venue");
    match normalize_venue(&obj(members)) {
        Err(SearchError::MissingRequiredField { field }) => assert_eq!(field, "venue"),
        other => panic!("unexpected outcome: {:?}", other),
    }
}

#[test]
fn venue_missing_url_fails() {
    let mut members = base_fragment();
    members.retain(|(k, _)| *k != "url");
    match normalize_venue(&obj(members)) {
        Err(SearchError::MissingRequiredField { field }) => assert_eq!(field, "url"),
        other => panic!("unexpected outcome: {:?}", other),
    }
}

#[test]
fn venue_non_string_type_fails() {
    let mut members = base_fragment();
    members.retain(|(k, _)| *k != "type");
    members.push(("type", Json::Boolean(true)));
    match normalize_venue(&obj(members)) {
        Err(SearchError::TypeMismatch { field }) => assert_eq!(field, "type"),
        other => panic!("unexpected outcome: {:?}", other),
    }
}
