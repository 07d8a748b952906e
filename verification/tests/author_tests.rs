use dblp_rs::Json;
use dblp_rs::SearchError;
use dblp_rs::normalize_author;

fn text(s: &str) -> Json {
    Json::Text(s.to_owned())
}

fn obj(members: Vec<(&str, Json)>) -> Json {
    Json::Object(members.into_iter().map(|(k, v)| (k.to_owned(), v)).collect())
}

fn note_entry(note_type: &str, note_text: &str) -> Json {
    obj(vec![("@type", text(note_type)), ("text", text(note_text))])
}

fn base_fragment() -> Vec<(&'static str, Json)> {
    vec![
        ("author", text("Leslie Lamport")),
        ("url", text("https://example.org/pid/l")),
    ]
}

#[test]
fn author_without_notes_or_aliases() {
    let a = normalize_author(&obj(base_fragment())).unwrap();
    assert_eq!(a.author, "Leslie Lamport");
    assert_eq!(a.url, "https://example.org/pid/l");
    assert!(a.notes.is_empty());
    assert!(a.aliases.is_empty());
}

#[test]
fn notes_multi() {
    let mut members = base_fragment();
    members.push((
        "notes",
        obj(vec![(
            "note",
            Json::Array(vec![note_entry("award", "Turing Award"), note_entry("uname", "lamport")]),
        )]),
    ));
    let a = normalize_author(&obj(members)).unwrap();
    assert_eq!(
        a.notes,
        vec![
            ("award".to_owned(), "Turing Award".to_owned()),
            ("uname".to_owned(), "lamport".to_owned()),
        ]
    );
}

#[test]
fn notes_single_object() {
    let mut members = base_fragment();
    members.push(("notes", obj(vec![("note", note_entry("award", "Turing Award"))])));
    let a = normalize_author(&obj(members)).unwrap();
    assert_eq!(a.notes, vec![("award".to_owned(), "Turing Award".to_owned())]);
}

#[test]
fn note_without_type_fails() {
    let mut members = base_fragment();
    members.push(("notes", obj(vec![("note", obj(vec![("text", text("x"))]))])));
    match normalize_author(&obj(members)) {
        Err(SearchError::MissingAttribute { attribute }) => assert_eq!(attribute, "@type"),
        other => panic!("unexpected outcome: {:?}", other),
    }
}

#[test]
fn note_without_text_fails() {
    let mut members = base_fragment();
    members.push(("notes", obj(vec![("note", obj(vec![("@type", text("award"))]))])));
    match normalize_author(&obj(members)) {
        Err(SearchError::MissingAttribute { attribute }) => assert_eq!(attribute, "text"),
        other => panic!("unexpected outcome: {:?}", other),
    }
}

#[test]
fn aliases_bare_string() {
    let mut members = base_fragment();
    members.push(("aliases", text("L. Lamport")));
    let a = normalize_author(&obj(members)).unwrap();
    assert_eq!(a.aliases, vec!["L. Lamport".to_owned()]);
}

#[test]
fn aliases_wrapped_array() {
    let mut members = base_fragment();
    members.push((
        "aliases",
        obj(vec![("alias", Json::Array(vec![text("L. Lamport"), text("Leslie B. Lamport")]))]),
    ));
    let a = normalize_author(&obj(members)).unwrap();
    assert_eq!(
        a.aliases,
        vec!["L. Lamport".to_owned(), "Leslie B. Lamport".to_owned()]
    );
}

#[test]
fn aliases_wrapped_single_string() {
    let mut members = base_fragment();
    members.push(("aliases", obj(vec![("alias", text("L. Lamport"))])));
    let a = normalize_author(&obj(members)).unwrap();
    assert_eq!(a.aliases, vec!["L. Lamport".to_owned()]);
}

#[test]
fn alias_singleton_shapes_agree() {
    let mut bare = base_fragment();
    bare.push(("aliases", text("L. Lamport")));
    let mut wrapped = base_fragment();
    wrapped.push(("aliases", obj(vec![("alias", text("L. Lamport"))])));
    let mut wrapped_array = base_fragment();
    wrapped_array.push(("aliases", obj(vec![("alias", Json::Array(vec![text("L. Lamport")]))])));
    let a1 = normalize_author(&obj(bare)).unwrap();
    let a2 = normalize_author(&obj(wrapped)).unwrap();
    let a3 = normalize_author(&obj(wrapped_array)).unwrap();
    assert_eq!(a1, a2);
    assert_eq!(a2, a3);
}

#[test]
fn non_string_alias_entry_fails() {
    let mut members = base_fragment();
    members.push(("aliases", obj(vec![("alias", Json::Array(vec![Json::Null]))])));
    match normalize_author(&obj(members)) {
        Err(SearchError::TypeMismatch { field }) => assert_eq!(field, "alias"),
        other => panic!("unexpected outcome: {:?}", other),
    }
}

#[test]
fn missing_author_name_fails() {
    let frag = obj(vec![("url", text("https://example.org/pid/l"))]);
    match normalize_author(&frag) {
        Err(SearchError::MissingRequiredField { field }) => assert_eq!(field, "author"),
        other => panic!("unexpected outcome: {:?}", other),
    }
}

#[test]
fn missing_author_url_fails() {
    let frag = obj(vec![("author", text("Leslie Lamport"))]);
    match normalize_author(&frag) {
        Err(SearchError::MissingRequiredField { field }) => assert_eq!(field, "url"),
        other => panic!("unexpected outcome: {:?}", other),
    }
}
