use dblp_rs::Json;
use dblp_rs::SearchError;
use dblp_rs::normalize_publication;

fn text(s: &str) -> Json {
    Json::Text(s.to_owned())
}

fn obj(members: Vec<(&str, Json)>) -> Json {
    Json::Object(members.into_iter().map(|(k, v)| (k.to_owned(), v)).collect())
}

fn author_entry(name: &str) -> Json {
    obj(vec![("text", text(name))])
}

fn base_fragment() -> Vec<(&'static str, Json)> {
    vec![
        ("authors", obj(vec![("author", author_entry("Leslie Lamport"))])),
        ("title", text("The Part-Time Parliament")),
        ("venue", text("TOCS")),
        ("year", text("1998")),
        ("type", text("Journal Articles")),
        ("key", text("journals/tocs/Lamport98")),
        ("ee", text("https://example.org/ee")),
        ("url", text("https://example.org/rec")),
    ]
}

fn fragment_with(replacement: (&'static str, Json)) -> Json {
    let mut members = base_fragment();
    members.retain(|(k, _)| *k != replacement.0);
    members.push(replacement);
    obj(members)
}

#[test]
fn authors_multi() {
    let frag = fragment_with((
        "authors",
        obj(vec![(
            "author",
            Json::Array(vec![author_entry("Leslie Lamport"), author_entry("Dahlia Malkhi")]),
        )]),
    ));
    let p = normalize_publication(&frag).unwrap();
    assert_eq!(
        p.authors,
        vec!["Leslie Lamport".to_owned(), "Dahlia Malkhi".to_owned()]
    );
}

#[test]
fn authors_single() {
    let frag = fragment_with((
        "authors",
        obj(vec![("author", author_entry("Leslie Lamport"))]),
    ));
    let p = normalize_publication(&frag).unwrap();
    assert_eq!(p.authors, vec!["Leslie Lamport".to_owned()]);
}

#[test]
fn venue_single_string() {
    let frag = fragment_with(("venue", text("TOCS")));
    let p = normalize_publication(&frag).unwrap();
    assert_eq!(p.venue, vec!["TOCS".to_owned()]);
}

#[test]
fn venue_multi() {
    let frag = fragment_with(("venue", Json::Array(vec![text("STOC"), text("Part 1")])));
    let p = normalize_publication(&frag).unwrap();
    assert_eq!(p.venue, vec!["STOC".to_owned(), "Part 1".to_owned()]);
}

#[test]
fn singleton_array_and_bare_object_agree() {
    let single = fragment_with((
        "authors",
        obj(vec![("author", author_entry("Leslie Lamport"))]),
    ));
    let wrapped = fragment_with((
        "authors",
        obj(vec![("author", Json::Array(vec![author_entry("Leslie Lamport")]))]),
    ));
    let p1 = normalize_publication(&single).unwrap();
    let p2 = normalize_publication(&wrapped).unwrap();
    assert_eq!(p1, p2);

    let bare = fragment_with(("venue", text("TOCS")));
    let array = fragment_with(("venue", Json::Array(vec![text("TOCS")])));
    let p3 = normalize_publication(&bare).unwrap();
    let p4 = normalize_publication(&array).unwrap();
    assert_eq!(p3, p4);
}

#[test]
fn normalizing_twice_is_identical() {
    let frag = obj(base_fragment());
    let p1 = normalize_publication(&frag).unwrap();
    let p2 = normalize_publication(&frag).unwrap();
    assert_eq!(p1, p2);
}

#[test]
fn optional_fields_default_to_absent() {
    let frag = obj(base_fragment());
    let p = normalize_publication(&frag).unwrap();
    assert_eq!(p.access, None);
    assert_eq!(p.publisher, None);
    assert_eq!(p.doi, None);
    assert_eq!(p.pages, None);
    assert_eq!(p.volume, None);
    assert_eq!(p.number, None);
}

#[test]
fn optional_field_present() {
    let mut members = base_fragment();
    members.push(("doi", text("10.1145/279227.279229")));
    members.push(("pages", text("133-169")));
    let p = normalize_publication(&obj(members)).unwrap();
    assert_eq!(p.doi, Some("10.1145/279227.279229".to_owned()));
    assert_eq!(p.pages, Some("133-169".to_owned()));
    assert_eq!(p.title, "The Part-Time Parliament");
    assert_eq!(p.year, "1998");
    assert_eq!(p.type_, "Journal Articles");
    assert_eq!(p.key, "journals/tocs/Lamport98");
    assert_eq!(p.ee, "https://example.org/ee");
    assert_eq!(p.url, "https://example.org/rec");
}

#[test]
fn null_optional_field_is_absent() {
    let mut members = base_fragment();
    members.push(("doi", Json::Null));
    let p = normalize_publication(&obj(members)).unwrap();
    assert_eq!(p.doi, None);
}

#[test]
fn missing_title_fails() {
    let mut members = base_fragment();
    members.retain(|(k, _)| *k != "title");
    match normalize_publication(&obj(members)) {
        Err(SearchError::MissingRequiredField { field }) => assert_eq!(field, "title"),
        other => panic!("unexpected outcome: {:?}", other),
    }
}

#[test]
fn non_string_title_fails() {
    let frag = fragment_with(("title", Json::Number("7".to_owned())));
    match normalize_publication(&frag) {
        Err(SearchError::TypeMismatch { field }) => assert_eq!(field, "title"),
        other => panic!("unexpected outcome: {:?}", other),
    }
}

#[test]
fn author_entry_without_text_fails() {
    let frag = fragment_with((
        "authors",
        obj(vec![("author", obj(vec![("@pid", text("l/LeslieLamport"))]))]),
    ));
    match normalize_publication(&frag) {
        Err(SearchError::MissingAttribute { attribute }) => assert_eq!(attribute, "text"),
        other => panic!("unexpected outcome: {:?}", other),
    }
}

#[test]
fn bare_string_author_payload_fails() {
    let frag = fragment_with(("authors", obj(vec![("author", text("Leslie Lamport"))])));
    match normalize_publication(&frag) {
        Err(SearchError::UnexpectedFieldShape { field }) => assert_eq!(field, "authors"),
        other => panic!("unexpected outcome: {:?}", other),
    }
}

#[test]
fn object_venue_entry_fails() {
    let frag = fragment_with(("venue", Json::Array(vec![obj(vec![("name", text("STOC"))])])));
    match normalize_publication(&frag) {
        Err(SearchError::TypeMismatch { field }) => assert_eq!(field, "venue"),
        other => panic!("unexpected outcome: {:?}", other),
    }
}

#[test]
fn object_venue_value_fails() {
    let frag = fragment_with(("venue", obj(vec![("name", text("STOC"))])));
    match normalize_publication(&frag) {
        Err(SearchError::UnexpectedFieldShape { field }) => assert_eq!(field, "venue"),
        other => panic!("unexpected outcome: {:?}", other),
    }
}

#[test]
fn non_object_fragment_fails() {
    match normalize_publication(&text("not a fragment")) {
        Err(SearchError::TypeMismatch { field }) => assert_eq!(field, "info"),
        other => panic!("unexpected outcome: {:?}", other),
    }
}
