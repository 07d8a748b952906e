//! Turning one raw fragment into a typed record.
//!
//! The service encodes cardinality in the JSON shape itself: one author is a
//! bare object while several are an array, one venue may be a bare string.
//! Every such single-or-many field is resolved here into a plain vector, in
//! document order, and every unexpected shape is a typed error. Resolution
//! never defaults a required field and never emits a partial record: the
//! first failing field aborts the fragment's normalization.
//!
//! Field order for fail-fast purposes is the record's own field order.

use vstd::prelude::*;

use crate::error::BatchError;
use crate::error::BatchErrorVal;
use crate::error::ErrorVal;
use crate::error::SearchError;
use crate::extract::extract_hits;
use crate::extract::frag_views;
use crate::extract::spec_extract_hits;
use crate::json::Json;
use crate::json::JsonVal;
use crate::json::get_member;
use crate::json::json_view;
use crate::json::obj_get;
use crate::json::obj_view;
use crate::record::Author;
use crate::record::AuthorVal;
use crate::record::Publication;
use crate::record::PublicationVal;
use crate::record::Venue;
use crate::record::VenueVal;
use crate::record::opt_view;
use crate::record::pairs_view;
use crate::record::texts_view;

verus! {

/// A required field that must hold a JSON string.
pub open spec fn spec_required_text(fs: Seq<(Seq<char>, JsonVal)>, field: Seq<char>) -> Result<
    Seq<char>,
    ErrorVal,
> {
    match obj_get(fs, field) {
        Some(JsonVal::Text(s)) => Ok(s),
        Some(_) => Err(ErrorVal::TypeMismatch { field }),
        None => Err(ErrorVal::MissingRequiredField { field }),
    }
}

/// An optional field: absent and JSON null both mean "absent"; any present
/// value must be a JSON string.
pub open spec fn spec_optional_text(fs: Seq<(Seq<char>, JsonVal)>, field: Seq<char>) -> Result<
    Option<Seq<char>>,
    ErrorVal,
> {
    match obj_get(fs, field) {
        None => Ok(None),
        Some(JsonVal::Null) => Ok(None),
        Some(JsonVal::Text(s)) => Ok(Some(s)),
        Some(_) => Err(ErrorVal::TypeMismatch { field }),
    }
}

/// Unwraps the one-member object the service puts around a single-or-many
/// payload (for example `{"author": ...}`): the first member's value.
pub open spec fn spec_wrapped(value: JsonVal, field: Seq<char>) -> Result<JsonVal, ErrorVal> {
    match value {
        JsonVal::Object(entries) => if entries.len() > 0 {
            Ok(entries[0].1)
        } else {
            Err(ErrorVal::UnexpectedFieldShape { field })
        },
        _ => Err(ErrorVal::UnexpectedFieldShape { field }),
    }
}

fn required_text(members: &Vec<(String, Json)>, field: &str) -> (r: Result<String, SearchError>)
    ensures
        match r {
            Ok(s) => spec_required_text(obj_view(members@), field@) == Ok::<Seq<char>, ErrorVal>(
                s@,
            ),
            Err(e) => spec_required_text(obj_view(members@), field@) == Err::<Seq<char>, ErrorVal>(
                e@,
            ),
        },
{
    match get_member(members, field) {
        Some(Json::Text(s)) => Ok(s.clone()),
        Some(_) => Err(SearchError::TypeMismatch { field: field.to_owned() }),
        None => Err(SearchError::MissingRequiredField { field: field.to_owned() }),
    }
}

fn optional_text(members: &Vec<(String, Json)>, field: &str) -> (r: Result<
    Option<String>,
    SearchError,
>)
    ensures
        match r {
            Ok(s) => spec_optional_text(obj_view(members@), field@) == Ok::<
                Option<Seq<char>>,
                ErrorVal,
            >(opt_view(s)),
            Err(e) => spec_optional_text(obj_view(members@), field@) == Err::<
                Option<Seq<char>>,
                ErrorVal,
            >(e@),
        },
{
    match get_member(members, field) {
        None => Ok(None),
        Some(Json::Null) => Ok(None),
        Some(Json::Text(s)) => Ok(Some(s.clone())),
        Some(_) => Err(SearchError::TypeMismatch { field: field.to_owned() }),
    }
}

fn wrapped<'a>(value: &'a Json, field: &str) -> (r: Result<&'a Json, SearchError>)
    ensures
        match r {
            Ok(j) => spec_wrapped(value@, field@) == Ok::<JsonVal, ErrorVal>(j@),
            Err(e) => spec_wrapped(value@, field@) == Err::<JsonVal, ErrorVal>(e@),
        },
{
    match value {
        Json::Object(entries) => {
            if entries.len() > 0 {
                Ok(&entries[0].1)
            } else {
                Err(SearchError::UnexpectedFieldShape { field: field.to_owned() })
            }
        },
        _ => Err(SearchError::UnexpectedFieldShape { field: field.to_owned() }),
    }
}

/// One author entry: an object whose `text` attribute is the author's name.
pub open spec fn spec_author_scalar(e: JsonVal) -> Result<Seq<char>, ErrorVal> {
    match e {
        JsonVal::Object(fs) => match obj_get(fs, "text"@) {
            Some(JsonVal::Text(s)) => Ok(s),
            Some(_) => Err(ErrorVal::TypeMismatch { field: "text"@ }),
            None => Err(ErrorVal::MissingAttribute { attribute: "text"@ }),
        },
        _ => Err(ErrorVal::UnexpectedFieldShape { field: "authors"@ }),
    }
}

/// The names of an author entry array, in array order, stopping at the
/// first malformed entry.
pub open spec fn spec_author_entries(elems: Seq<JsonVal>) -> Result<Seq<Seq<char>>, ErrorVal>
    decreases elems.len(),
{
    if elems.len() == 0 {
        Ok(Seq::empty())
    } else {
        match spec_author_scalar(elems[0]) {
            Ok(s) => match spec_author_entries(elems.drop_first()) {
                Ok(rest) => Ok(seq![s] + rest),
                Err(e) => Err(e),
            },
            Err(e) => Err(e),
        }
    }
}

/// The unwrapped `authors` payload: an array of entry objects for several
/// authors, a bare entry object for one. A bare string is not a legal
/// author encoding.
pub open spec fn spec_author_list(value: JsonVal) -> Result<Seq<Seq<char>>, ErrorVal> {
    match value {
        JsonVal::Array(elems) => spec_author_entries(elems),
        JsonVal::Object(_) => match spec_author_scalar(value) {
            Ok(s) => Ok(seq![s]),
            Err(e) => Err(e),
        },
        _ => Err(ErrorVal::UnexpectedFieldShape { field: "authors"@ }),
    }
}

/// The `authors` field of a publication fragment, which is required.
pub open spec fn spec_authors_field(fs: Seq<(Seq<char>, JsonVal)>) -> Result<
    Seq<Seq<char>>,
    ErrorVal,
> {
    match obj_get(fs, "authors"@) {
        None => Err(ErrorVal::MissingRequiredField { field: "authors"@ }),
        Some(value) => match spec_wrapped(value, "authors"@) {
            Ok(inner) => spec_author_list(inner),
            Err(e) => Err(e),
        },
    }
}

fn author_scalar(e: &Json) -> (r: Result<String, SearchError>)
    ensures
        match r {
            Ok(s) => spec_author_scalar(e@) == Ok::<Seq<char>, ErrorVal>(s@),
            Err(err) => spec_author_scalar(e@) == Err::<Seq<char>, ErrorVal>(err@),
        },
{
    match e {
        Json::Object(fs) => match get_member(fs, "text") {
            Some(Json::Text(s)) => Ok(s.clone()),
            Some(_) => Err(SearchError::TypeMismatch { field: "text".to_owned() }),
            None => Err(SearchError::MissingAttribute { attribute: "text".to_owned() }),
        },
        _ => Err(SearchError::UnexpectedFieldShape { field: "authors".to_owned() }),
    }
}

fn author_entries(elems: &Vec<Json>) -> (r: Result<Vec<String>, SearchError>)
    ensures
        match r {
            Ok(v) => spec_author_entries(crate::json::arr_view(elems@)) == Ok::<
                Seq<Seq<char>>,
                ErrorVal,
            >(texts_view(v@)),
            Err(e) => spec_author_entries(crate::json::arr_view(elems@)) == Err::<
                Seq<Seq<char>>,
                ErrorVal,
            >(e@),
        },
{
    let ghost model = crate::json::arr_view(elems@);
    let mut names: Vec<String> = Vec::new();
    proof {
        assert(model.skip(0) =~= model);
        if spec_author_entries(model) is Ok {
            assert(texts_view(names@) + spec_author_entries(model)->Ok_0 =~= spec_author_entries(
                model,
            )->Ok_0);
        }
    }
    let mut i: usize = 0;
    while i < elems.len()
        invariant
            0 <= i <= elems.len(),
            model == crate::json::arr_view(elems@),
            names@.len() == i,
            spec_author_entries(model) == (match spec_author_entries(model.skip(i as int)) {
                Ok(rest) => Ok::<Seq<Seq<char>>, ErrorVal>(texts_view(names@) + rest),
                Err(e) => Err::<Seq<Seq<char>>, ErrorVal>(e),
            }),
        decreases elems.len() - i,
    {
        proof {
            assert(model.skip(i as int).len() == model.len() - i);
            assert(model.skip(i as int)[0] == model[i as int]);
            assert(model.skip(i as int).drop_first() =~= model.skip(i + 1));
            assert(model[i as int] == json_view(elems@[i as int]));
        }
        let name = match author_scalar(&elems[i]) {
            Ok(s) => s,
            Err(e) => {
                return Err(e);
            },
        };
        let ghost names_before = names@;
        names.push(name);
        proof {
            assert(texts_view(names@) =~= texts_view(names_before) + seq![name@]);
            if spec_author_entries(model.skip(i + 1)) is Ok {
                let rest = spec_author_entries(model.skip(i + 1))->Ok_0;
                assert(texts_view(names_before) + (seq![name@] + rest) =~= texts_view(names@)
                    + rest);
            }
        }
        i = i + 1;
    }
    proof {
        assert(model.skip(i as int).len() == 0);
        assert(texts_view(names@) + Seq::<Seq<char>>::empty() =~= texts_view(names@));
    }
    Ok(names)
}

fn author_list(value: &Json) -> (r: Result<Vec<String>, SearchError>)
    ensures
        match r {
            Ok(v) => spec_author_list(value@) == Ok::<Seq<Seq<char>>, ErrorVal>(texts_view(v@)),
            Err(e) => spec_author_list(value@) == Err::<Seq<Seq<char>>, ErrorVal>(e@),
        },
{
    match value {
        Json::Array(elems) => author_entries(elems),
        Json::Object(_) => match author_scalar(value) {
            Ok(s) => {
                let mut names: Vec<String> = Vec::new();
                names.push(s);
                proof {
                    assert(texts_view(names@) =~= seq![s@]);
                }
                Ok(names)
            },
            Err(e) => Err(e),
        },
        _ => Err(SearchError::UnexpectedFieldShape { field: "authors".to_owned() }),
    }
}

fn authors_field(members: &Vec<(String, Json)>) -> (r: Result<Vec<String>, SearchError>)
    ensures
        match r {
            Ok(v) => spec_authors_field(obj_view(members@)) == Ok::<Seq<Seq<char>>, ErrorVal>(
                texts_view(v@),
            ),
            Err(e) => spec_authors_field(obj_view(members@)) == Err::<Seq<Seq<char>>, ErrorVal>(
                e@,
            ),
        },
{
    let value = match get_member(members, "authors") {
        Some(j) => j,
        None => {
            return Err(SearchError::MissingRequiredField { field: "authors".to_owned() });
        },
    };
    let inner = match wrapped(value, "authors") {
        Ok(j) => j,
        Err(e) => {
            return Err(e);
        },
    };
    author_list(inner)
}

/// One note entry: an object carrying a `@type` and a `text` attribute.
/// `@type` is checked first, so when both are absent the error names it.
pub open spec fn spec_note_scalar(e: JsonVal) -> Result<(Seq<char>, Seq<char>), ErrorVal> {
    match e {
        JsonVal::Object(fs) => match obj_get(fs, "@type"@) {
            Some(JsonVal::Text(t)) => match obj_get(fs, "text"@) {
                Some(JsonVal::Text(s)) => Ok((t, s)),
                Some(_) => Err(ErrorVal::TypeMismatch { field: "text"@ }),
                None => Err(ErrorVal::MissingAttribute { attribute: "text"@ }),
            },
            Some(_) => Err(ErrorVal::TypeMismatch { field: "@type"@ }),
            None => Err(ErrorVal::MissingAttribute { attribute: "@type"@ }),
        },
        _ => Err(ErrorVal::UnexpectedFieldShape { field: "notes"@ }),
    }
}

/// The `(note type, note text)` pairs of a note entry array, in array
/// order, stopping at the first malformed entry.
pub open spec fn spec_note_entries(elems: Seq<JsonVal>) -> Result<
    Seq<(Seq<char>, Seq<char>)>,
    ErrorVal,
>
    decreases elems.len(),
{
    if elems.len() == 0 {
        Ok(Seq::empty())
    } else {
        match spec_note_scalar(elems[0]) {
            Ok(p) => match spec_note_entries(elems.drop_first()) {
                Ok(rest) => Ok(seq![p] + rest),
                Err(e) => Err(e),
            },
            Err(e) => Err(e),
        }
    }
}

/// The unwrapped `notes` payload: an array of note objects, or one bare
/// note object. A bare string is not a legal note encoding.
pub open spec fn spec_note_list(value: JsonVal) -> Result<Seq<(Seq<char>, Seq<char>)>, ErrorVal> {
    match value {
        JsonVal::Array(elems) => spec_note_entries(elems),
        JsonVal::Object(_) => match spec_note_scalar(value) {
            Ok(p) => Ok(seq![p]),
            Err(e) => Err(e),
        },
        _ => Err(ErrorVal::UnexpectedFieldShape { field: "notes"@ }),
    }
}

/// The `notes` field of an author fragment; absent means no notes.
pub open spec fn spec_notes_field(fs: Seq<(Seq<char>, JsonVal)>) -> Result<
    Seq<(Seq<char>, Seq<char>)>,
    ErrorVal,
> {
    match obj_get(fs, "notes"@) {
        None => Ok(Seq::empty()),
        Some(value) => match spec_wrapped(value, "notes"@) {
            Ok(inner) => spec_note_list(inner),
            Err(e) => Err(e),
        },
    }
}

/// One alias entry inside an alias array, which must be a bare string.
pub open spec fn spec_alias_entries(elems: Seq<JsonVal>) -> Result<Seq<Seq<char>>, ErrorVal>
    decreases elems.len(),
{
    if elems.len() == 0 {
        Ok(Seq::empty())
    } else {
        match elems[0] {
            JsonVal::Text(s) => match spec_alias_entries(elems.drop_first()) {
                Ok(rest) => Ok(seq![s] + rest),
                Err(e) => Err(e),
            },
            _ => Err(ErrorVal::TypeMismatch { field: "alias"@ }),
        }
    }
}

/// The `aliases` payload: a bare string for one alias, or the usual
/// one-member wrapper object around a string array or a single string.
pub open spec fn spec_alias_list(value: JsonVal) -> Result<Seq<Seq<char>>, ErrorVal> {
    match value {
        JsonVal::Text(s) => Ok(seq![s]),
        JsonVal::Object(_) => match spec_wrapped(value, "aliases"@) {
            Ok(inner) => match inner {
                JsonVal::Array(elems) => spec_alias_entries(elems),
                JsonVal::Text(s) => Ok(seq![s]),
                _ => Err(ErrorVal::UnexpectedFieldShape { field: "aliases"@ }),
            },
            Err(e) => Err(e),
        },
        _ => Err(ErrorVal::UnexpectedFieldShape { field: "aliases"@ }),
    }
}

/// The `aliases` field of an author fragment; absent means no aliases.
pub open spec fn spec_aliases_field(fs: Seq<(Seq<char>, JsonVal)>) -> Result<
    Seq<Seq<char>>,
    ErrorVal,
> {
    match obj_get(fs, "aliases"@) {
        None => Ok(Seq::empty()),
        Some(value) => spec_alias_list(value),
    }
}

/// One venue entry inside a publication's venue array, which must be a bare
/// string; an object here is rejected rather than guessed at.
pub open spec fn spec_venue_entries(elems: Seq<JsonVal>) -> Result<Seq<Seq<char>>, ErrorVal>
    decreases elems.len(),
{
    if elems.len() == 0 {
        Ok(Seq::empty())
    } else {
        match elems[0] {
            JsonVal::Text(s) => match spec_venue_entries(elems.drop_first()) {
                Ok(rest) => Ok(seq![s] + rest),
                Err(e) => Err(e),
            },
            _ => Err(ErrorVal::TypeMismatch { field: "venue"@ }),
        }
    }
}

/// The `venue` payload of a publication: a bare string for one venue or an
/// array of strings for several. It is never object-wrapped.
pub open spec fn spec_venue_list(value: JsonVal) -> Result<Seq<Seq<char>>, ErrorVal> {
    match value {
        JsonVal::Text(s) => Ok(seq![s]),
        JsonVal::Array(elems) => spec_venue_entries(elems),
        _ => Err(ErrorVal::UnexpectedFieldShape { field: "venue"@ }),
    }
}

/// The `venue` field of a publication fragment, which is required.
pub open spec fn spec_venue_field(fs: Seq<(Seq<char>, JsonVal)>) -> Result<
    Seq<Seq<char>>,
    ErrorVal,
> {
    match obj_get(fs, "venue"@) {
        None => Err(ErrorVal::MissingRequiredField { field: "venue"@ }),
        Some(value) => spec_venue_list(value),
    }
}

fn note_scalar(e: &Json) -> (r: Result<(String, String), SearchError>)
    ensures
        match r {
            Ok(p) => spec_note_scalar(e@) == Ok::<(Seq<char>, Seq<char>), ErrorVal>((p.0@, p.1@)),
            Err(err) => spec_note_scalar(e@) == Err::<(Seq<char>, Seq<char>), ErrorVal>(err@),
        },
{
    match e {
        Json::Object(fs) => match get_member(fs, "@type") {
            Some(Json::Text(t)) => match get_member(fs, "text") {
                Some(Json::Text(s)) => Ok((t.clone(), s.clone())),
                Some(_) => Err(SearchError::TypeMismatch { field: "text".to_owned() }),
                None => Err(SearchError::MissingAttribute { attribute: "text".to_owned() }),
            },
            Some(_) => Err(SearchError::TypeMismatch { field: "@type".to_owned() }),
            None => Err(SearchError::MissingAttribute { attribute: "@type".to_owned() }),
        },
        _ => Err(SearchError::UnexpectedFieldShape { field: "notes".to_owned() }),
    }
}

fn note_entries(elems: &Vec<Json>) -> (r: Result<Vec<(String, String)>, SearchError>)
    ensures
        match r {
            Ok(v) => spec_note_entries(crate::json::arr_view(elems@)) == Ok::<
                Seq<(Seq<char>, Seq<char>)>,
                ErrorVal,
            >(pairs_view(v@)),
            Err(e) => spec_note_entries(crate::json::arr_view(elems@)) == Err::<
                Seq<(Seq<char>, Seq<char>)>,
                ErrorVal,
            >(e@),
        },
{
    let ghost model = crate::json::arr_view(elems@);
    let mut notes: Vec<(String, String)> = Vec::new();
    proof {
        assert(model.skip(0) =~= model);
        if spec_note_entries(model) is Ok {
            assert(pairs_view(notes@) + spec_note_entries(model)->Ok_0 =~= spec_note_entries(
                model,
            )->Ok_0);
        }
    }
    let mut i: usize = 0;
    while i < elems.len()
        invariant
            0 <= i <= elems.len(),
            model == crate::json::arr_view(elems@),
            notes@.len() == i,
            spec_note_entries(model) == (match spec_note_entries(model.skip(i as int)) {
                Ok(rest) => Ok::<Seq<(Seq<char>, Seq<char>)>, ErrorVal>(pairs_view(notes@) + rest),
                Err(e) => Err::<Seq<(Seq<char>, Seq<char>)>, ErrorVal>(e),
            }),
        decreases elems.len() - i,
    {
        proof {
            assert(model.skip(i as int).len() == model.len() - i);
            assert(model.skip(i as int)[0] == model[i as int]);
            assert(model.skip(i as int).drop_first() =~= model.skip(i + 1));
            assert(model[i as int] == json_view(elems@[i as int]));
        }
        let note = match note_scalar(&elems[i]) {
            Ok(p) => p,
            Err(e) => {
                return Err(e);
            },
        };
        let ghost notes_before = notes@;
        let ghost note_model = (note.0@, note.1@);
        notes.push(note);
        proof {
            assert(pairs_view(notes@) =~= pairs_view(notes_before) + seq![note_model]);
            if spec_note_entries(model.skip(i + 1)) is Ok {
                let rest = spec_note_entries(model.skip(i + 1))->Ok_0;
                assert(pairs_view(notes_before) + (seq![note_model] + rest) =~= pairs_view(notes@)
                    + rest);
            }
        }
        i = i + 1;
    }
    proof {
        assert(model.skip(i as int).len() == 0);
        assert(pairs_view(notes@) + Seq::<(Seq<char>, Seq<char>)>::empty() =~= pairs_view(notes@));
    }
    Ok(notes)
}

fn note_list(value: &Json) -> (r: Result<Vec<(String, String)>, SearchError>)
    ensures
        match r {
            Ok(v) => spec_note_list(value@) == Ok::<Seq<(Seq<char>, Seq<char>)>, ErrorVal>(
                pairs_view(v@),
            ),
            Err(e) => spec_note_list(value@) == Err::<Seq<(Seq<char>, Seq<char>)>, ErrorVal>(e@),
        },
{
    match value {
        Json::Array(elems) => note_entries(elems),
        Json::Object(_) => match note_scalar(value) {
            Ok(p) => {
                let ghost note_model = (p.0@, p.1@);
                let mut notes: Vec<(String, String)> = Vec::new();
                notes.push(p);
                proof {
                    assert(pairs_view(notes@) =~= seq![note_model]);
                }
                Ok(notes)
            },
            Err(e) => Err(e),
        },
        _ => Err(SearchError::UnexpectedFieldShape { field: "notes".to_owned() }),
    }
}

fn notes_field(members: &Vec<(String, Json)>) -> (r: Result<Vec<(String, String)>, SearchError>)
    ensures
        match r {
            Ok(v) => spec_notes_field(obj_view(members@)) == Ok::<
                Seq<(Seq<char>, Seq<char>)>,
                ErrorVal,
            >(pairs_view(v@)),
            Err(e) => spec_notes_field(obj_view(members@)) == Err::<
                Seq<(Seq<char>, Seq<char>)>,
                ErrorVal,
            >(e@),
        },
{
    let value = match get_member(members, "notes") {
        Some(j) => j,
        None => {
            let notes: Vec<(String, String)> = Vec::new();
            proof {
                assert(pairs_view(notes@) =~= Seq::<(Seq<char>, Seq<char>)>::empty());
            }
            return Ok(notes);
        },
    };
    let inner = match wrapped(value, "notes") {
        Ok(j) => j,
        Err(e) => {
            return Err(e);
        },
    };
    note_list(inner)
}

fn alias_entries(elems: &Vec<Json>) -> (r: Result<Vec<String>, SearchError>)
    ensures
        match r {
            Ok(v) => spec_alias_entries(crate::json::arr_view(elems@)) == Ok::<
                Seq<Seq<char>>,
                ErrorVal,
            >(texts_view(v@)),
            Err(e) => spec_alias_entries(crate::json::arr_view(elems@)) == Err::<
                Seq<Seq<char>>,
                ErrorVal,
            >(e@),
        },
{
    let ghost model = crate::json::arr_view(elems@);
    let mut aliases: Vec<String> = Vec::new();
    proof {
        assert(model.skip(0) =~= model);
        if spec_alias_entries(model) is Ok {
            assert(texts_view(aliases@) + spec_alias_entries(model)->Ok_0 =~= spec_alias_entries(
                model,
            )->Ok_0);
        }
    }
    let mut i: usize = 0;
    while i < elems.len()
        invariant
            0 <= i <= elems.len(),
            model == crate::json::arr_view(elems@),
            aliases@.len() == i,
            spec_alias_entries(model) == (match spec_alias_entries(model.skip(i as int)) {
                Ok(rest) => Ok::<Seq<Seq<char>>, ErrorVal>(texts_view(aliases@) + rest),
                Err(e) => Err::<Seq<Seq<char>>, ErrorVal>(e),
            }),
        decreases elems.len() - i,
    {
        proof {
            assert(model.skip(i as int).len() == model.len() - i);
            assert(model.skip(i as int)[0] == model[i as int]);
            assert(model.skip(i as int).drop_first() =~= model.skip(i + 1));
            assert(model[i as int] == json_view(elems@[i as int]));
        }
        let alias = match &elems[i] {
            Json::Text(s) => s.clone(),
            _ => {
                return Err(SearchError::TypeMismatch { field: "alias".to_owned() });
            },
        };
        let ghost aliases_before = aliases@;
        aliases.push(alias);
        proof {
            assert(texts_view(aliases@) =~= texts_view(aliases_before) + seq![alias@]);
            if spec_alias_entries(model.skip(i + 1)) is Ok {
                let rest = spec_alias_entries(model.skip(i + 1))->Ok_0;
                assert(texts_view(aliases_before) + (seq![alias@] + rest) =~= texts_view(aliases@)
                    + rest);
            }
        }
        i = i + 1;
    }
    proof {
        assert(model.skip(i as int).len() == 0);
        assert(texts_view(aliases@) + Seq::<Seq<char>>::empty() =~= texts_view(aliases@));
    }
    Ok(aliases)
}

fn singleton_text(s: String) -> (v: Vec<String>)
    ensures
        texts_view(v@) == seq![s@],
{
    let ghost text = s@;
    let mut out: Vec<String> = Vec::new();
    out.push(s);
    proof {
        assert(texts_view(out@) =~= seq![text]);
    }
    out
}

fn alias_list(value: &Json) -> (r: Result<Vec<String>, SearchError>)
    ensures
        match r {
            Ok(v) => spec_alias_list(value@) == Ok::<Seq<Seq<char>>, ErrorVal>(texts_view(v@)),
            Err(e) => spec_alias_list(value@) == Err::<Seq<Seq<char>>, ErrorVal>(e@),
        },
{
    match value {
        Json::Text(s) => Ok(singleton_text(s.clone())),
        Json::Object(_) => {
            let inner = match wrapped(value, "aliases") {
                Ok(j) => j,
                Err(e) => {
                    return Err(e);
                },
            };
            match inner {
                Json::Array(elems) => alias_entries(elems),
                Json::Text(s) => Ok(singleton_text(s.clone())),
                _ => Err(SearchError::UnexpectedFieldShape { field: "aliases".to_owned() }),
            }
        },
        _ => Err(SearchError::UnexpectedFieldShape { field: "aliases".to_owned() }),
    }
}

fn aliases_field(members: &Vec<(String, Json)>) -> (r: Result<Vec<String>, SearchError>)
    ensures
        match r {
            Ok(v) => spec_aliases_field(obj_view(members@)) == Ok::<Seq<Seq<char>>, ErrorVal>(
                texts_view(v@),
            ),
            Err(e) => spec_aliases_field(obj_view(members@)) == Err::<Seq<Seq<char>>, ErrorVal>(
                e@,
            ),
        },
{
    match get_member(members, "aliases") {
        Some(j) => alias_list(j),
        None => {
            let aliases: Vec<String> = Vec::new();
            proof {
                assert(texts_view(aliases@) =~= Seq::<Seq<char>>::empty());
            }
            Ok(aliases)
        },
    }
}

fn venue_entries(elems: &Vec<Json>) -> (r: Result<Vec<String>, SearchError>)
    ensures
        match r {
            Ok(v) => spec_venue_entries(crate::json::arr_view(elems@)) == Ok::<
                Seq<Seq<char>>,
                ErrorVal,
            >(texts_view(v@)),
            Err(e) => spec_venue_entries(crate::json::arr_view(elems@)) == Err::<
                Seq<Seq<char>>,
                ErrorVal,
            >(e@),
        },
{
    let ghost model = crate::json::arr_view(elems@);
    let mut venues: Vec<String> = Vec::new();
    proof {
        assert(model.skip(0) =~= model);
        if spec_venue_entries(model) is Ok {
            assert(texts_view(venues@) + spec_venue_entries(model)->Ok_0 =~= spec_venue_entries(
                model,
            )->Ok_0);
        }
    }
    let mut i: usize = 0;
    while i < elems.len()
        invariant
            0 <= i <= elems.len(),
            model == crate::json::arr_view(elems@),
            venues@.len() == i,
            spec_venue_entries(model) == (match spec_venue_entries(model.skip(i as int)) {
                Ok(rest) => Ok::<Seq<Seq<char>>, ErrorVal>(texts_view(venues@) + rest),
                Err(e) => Err::<Seq<Seq<char>>, ErrorVal>(e),
            }),
        decreases elems.len() - i,
    {
        proof {
            assert(model.skip(i as int).len() == model.len() - i);
            assert(model.skip(i as int)[0] == model[i as int]);
            assert(model.skip(i as int).drop_first() =~= model.skip(i + 1));
            assert(model[i as int] == json_view(elems@[i as int]));
        }
        let venue = match &elems[i] {
            Json::Text(s) => s.clone(),
            _ => {
                return Err(SearchError::TypeMismatch { field: "venue".to_owned() });
            },
        };
        let ghost venues_before = venues@;
        venues.push(venue);
        proof {
            assert(texts_view(venues@) =~= texts_view(venues_before) + seq![venue@]);
            if spec_venue_entries(model.skip(i + 1)) is Ok {
                let rest = spec_venue_entries(model.skip(i + 1))->Ok_0;
                assert(texts_view(venues_before) + (seq![venue@] + rest) =~= texts_view(venues@)
                    + rest);
            }
        }
        i = i + 1;
    }
    proof {
        assert(model.skip(i as int).len() == 0);
        assert(texts_view(venues@) + Seq::<Seq<char>>::empty() =~= texts_view(venues@));
    }
    Ok(venues)
}

fn venue_field(members: &Vec<(String, Json)>) -> (r: Result<Vec<String>, SearchError>)
    ensures
        match r {
            Ok(v) => spec_venue_field(obj_view(members@)) == Ok::<Seq<Seq<char>>, ErrorVal>(
                texts_view(v@),
            ),
            Err(e) => spec_venue_field(obj_view(members@)) == Err::<Seq<Seq<char>>, ErrorVal>(e@),
        },
{
    let value = match get_member(members, "venue") {
        Some(j) => j,
        None => {
            return Err(SearchError::MissingRequiredField { field: "venue".to_owned() });
        },
    };
    match value {
        Json::Text(s) => Ok(singleton_text(s.clone())),
        Json::Array(elems) => venue_entries(elems),
        _ => Err(SearchError::UnexpectedFieldShape { field: "venue".to_owned() }),
    }
}

/// What normalizing a fragment into a publication yields: the record model,
/// or the error of the first failing field in record field order.
pub open spec fn spec_normalize_publication(f: JsonVal) -> Result<PublicationVal, ErrorVal> {
    match f {
        JsonVal::Object(fs) => {
            let authors = spec_authors_field(fs);
            let title = spec_required_text(fs, "title"@);
            let venue = spec_venue_field(fs);
            let year = spec_required_text(fs, "year"@);
            let type_ = spec_required_text(fs, "type"@);
            let key = spec_required_text(fs, "key"@);
            let ee = spec_required_text(fs, "ee"@);
            let url = spec_required_text(fs, "url"@);
            let access = spec_optional_text(fs, "access"@);
            let publisher = spec_optional_text(fs, "publisher"@);
            let doi = spec_optional_text(fs, "doi"@);
            let pages = spec_optional_text(fs, "pages"@);
            let volume = spec_optional_text(fs, "volume"@);
            let number = spec_optional_text(fs, "number"@);
            if authors is Err {
                Err(authors->Err_0)
            } else if title is Err {
                Err(title->Err_0)
            } else if venue is Err {
                Err(venue->Err_0)
            } else if year is Err {
                Err(year->Err_0)
            } else if type_ is Err {
                Err(type_->Err_0)
            } else if key is Err {
                Err(key->Err_0)
            } else if ee is Err {
                Err(ee->Err_0)
            } else if url is Err {
                Err(url->Err_0)
            } else if access is Err {
                Err(access->Err_0)
            } else if publisher is Err {
                Err(publisher->Err_0)
            } else if doi is Err {
                Err(doi->Err_0)
            } else if pages is Err {
                Err(pages->Err_0)
            } else if volume is Err {
                Err(volume->Err_0)
            } else if number is Err {
                Err(number->Err_0)
            } else {
                Ok(
                    PublicationVal {
                        authors: authors->Ok_0,
                        title: title->Ok_0,
                        venue: venue->Ok_0,
                        year: year->Ok_0,
                        type_: type_->Ok_0,
                        key: key->Ok_0,
                        ee: ee->Ok_0,
                        url: url->Ok_0,
                        access: access->Ok_0,
                        publisher: publisher->Ok_0,
                        doi: doi->Ok_0,
                        pages: pages->Ok_0,
                        volume: volume->Ok_0,
                        number: number->Ok_0,
                    },
                )
            }
        },
        _ => Err(ErrorVal::TypeMismatch { field: "info"@ }),
    }
}

/// What normalizing a fragment into an author yields.
pub open spec fn spec_normalize_author(f: JsonVal) -> Result<AuthorVal, ErrorVal> {
    match f {
        JsonVal::Object(fs) => {
            let author = spec_required_text(fs, "author"@);
            let url = spec_required_text(fs, "url"@);
            let notes = spec_notes_field(fs);
            let aliases = spec_aliases_field(fs);
            if author is Err {
                Err(author->Err_0)
            } else if url is Err {
                Err(url->Err_0)
            } else if notes is Err {
                Err(notes->Err_0)
            } else if aliases is Err {
                Err(aliases->Err_0)
            } else {
                Ok(
                    AuthorVal {
                        author: author->Ok_0,
                        url: url->Ok_0,
                        notes: notes->Ok_0,
                        aliases: aliases->Ok_0,
                    },
                )
            }
        },
        _ => Err(ErrorVal::TypeMismatch { field: "info"@ }),
    }
}

/// What normalizing a fragment into a venue yields.
pub open spec fn spec_normalize_venue(f: JsonVal) -> Result<VenueVal, ErrorVal> {
    match f {
        JsonVal::Object(fs) => {
            let venue = spec_required_text(fs, "venue"@);
            let acronym = spec_optional_text(fs, "acronym"@);
            let type_ = spec_required_text(fs, "type"@);
            let url = spec_required_text(fs, "url"@);
            if venue is Err {
                Err(venue->Err_0)
            } else if acronym is Err {
                Err(acronym->Err_0)
            } else if type_ is Err {
                Err(type_->Err_0)
            } else if url is Err {
                Err(url->Err_0)
            } else {
                Ok(
                    VenueVal {
                        venue: venue->Ok_0,
                        acronym: acronym->Ok_0,
                        type_: type_->Ok_0,
                        url: url->Ok_0,
                    },
                )
            }
        },
        _ => Err(ErrorVal::TypeMismatch { field: "info"@ }),
    }
}

/// Normalizes one fragment into a `Publication`. The fragment must be a
/// JSON object; its `authors`, `title`, `venue`, `year`, `type`, `key`,
/// `ee` and `url` fields are required, the rest are optional.
pub fn normalize_publication(fragment: &Json) -> (res: Result<Publication, SearchError>)
    ensures
        match res {
            Ok(p) => spec_normalize_publication(fragment@) == Ok::<PublicationVal, ErrorVal>(p@),
            Err(e) => spec_normalize_publication(fragment@) == Err::<PublicationVal, ErrorVal>(e@),
        },
{
    let fs = match fragment {
        Json::Object(members) => members,
        _ => {
            return Err(SearchError::TypeMismatch { field: "info".to_owned() });
        },
    };
    let authors = match authors_field(fs) {
        Ok(v) => v,
        Err(e) => {
            return Err(e);
        },
    };
    let title = match required_text(fs, "title") {
        Ok(v) => v,
        Err(e) => {
            return Err(e);
        },
    };
    let venue = match venue_field(fs) {
        Ok(v) => v,
        Err(e) => {
            return Err(e);
        },
    };
    let year = match required_text(fs, "year") {
        Ok(v) => v,
        Err(e) => {
            return Err(e);
        },
    };
    let type_ = match required_text(fs, "type") {
        Ok(v) => v,
        Err(e) => {
            return Err(e);
        },
    };
    let key = match required_text(fs, "key") {
        Ok(v) => v,
        Err(e) => {
            return Err(e);
        },
    };
    let ee = match required_text(fs, "ee") {
        Ok(v) => v,
        Err(e) => {
            return Err(e);
        },
    };
    let url = match required_text(fs, "url") {
        Ok(v) => v,
        Err(e) => {
            return Err(e);
        },
    };
    let access = match optional_text(fs, "access") {
        Ok(v) => v,
        Err(e) => {
            return Err(e);
        },
    };
    let publisher = match optional_text(fs, "publisher") {
        Ok(v) => v,
        Err(e) => {
            return Err(e);
        },
    };
    let doi = match optional_text(fs, "doi") {
        Ok(v) => v,
        Err(e) => {
            return Err(e);
        },
    };
    let pages = match optional_text(fs, "pages") {
        Ok(v) => v,
        Err(e) => {
            return Err(e);
        },
    };
    let volume = match optional_text(fs, "volume") {
        Ok(v) => v,
        Err(e) => {
            return Err(e);
        },
    };
    let number = match optional_text(fs, "number") {
        Ok(v) => v,
        Err(e) => {
            return Err(e);
        },
    };
    Ok(
        Publication {
            authors,
            title,
            venue,
            year,
            type_,
            key,
            ee,
            url,
            access,
            publisher,
            doi,
            pages,
            volume,
            number,
        },
    )
}

/// Normalizes one fragment into an `Author`. `author` and `url` are
/// required; `notes` and `aliases` default to empty when absent.
pub fn normalize_author(fragment: &Json) -> (res: Result<Author, SearchError>)
    ensures
        match res {
            Ok(a) => spec_normalize_author(fragment@) == Ok::<AuthorVal, ErrorVal>(a@),
            Err(e) => spec_normalize_author(fragment@) == Err::<AuthorVal, ErrorVal>(e@),
        },
{
    let fs = match fragment {
        Json::Object(members) => members,
        _ => {
            return Err(SearchError::TypeMismatch { field: "info".to_owned() });
        },
    };
    let author = match required_text(fs, "author") {
        Ok(v) => v,
        Err(e) => {
            return Err(e);
        },
    };
    let url = match required_text(fs, "url") {
        Ok(v) => v,
        Err(e) => {
            return Err(e);
        },
    };
    let notes = match notes_field(fs) {
        Ok(v) => v,
        Err(e) => {
            return Err(e);
        },
    };
    let aliases = match aliases_field(fs) {
        Ok(v) => v,
        Err(e) => {
            return Err(e);
        },
    };
    Ok(Author { author, url, notes, aliases })
}

/// Normalizes one fragment into a `Venue`. `venue`, `type` and `url` are
/// required; `acronym` is optional.
pub fn normalize_venue(fragment: &Json) -> (res: Result<Venue, SearchError>)
    ensures
        match res {
            Ok(v) => spec_normalize_venue(fragment@) == Ok::<VenueVal, ErrorVal>(v@),
            Err(e) => spec_normalize_venue(fragment@) == Err::<VenueVal, ErrorVal>(e@),
        },
{
    let fs = match fragment {
        Json::Object(members) => members,
        _ => {
            return Err(SearchError::TypeMismatch { field: "info".to_owned() });
        },
    };
    let venue = match required_text(fs, "venue") {
        Ok(v) => v,
        Err(e) => {
            return Err(e);
        },
    };
    let acronym = match optional_text(fs, "acronym") {
        Ok(v) => v,
        Err(e) => {
            return Err(e);
        },
    };
    let type_ = match required_text(fs, "type") {
        Ok(v) => v,
        Err(e) => {
            return Err(e);
        },
    };
    let url = match required_text(fs, "url") {
        Ok(v) => v,
        Err(e) => {
            return Err(e);
        },
    };
    Ok(Venue { venue, acronym, type_, url })
}

/// Models of a vector of publications.
pub open spec fn publications_view(v: Seq<Publication>) -> Seq<PublicationVal> {
    Seq::new(v.len(), |i: int| v[i]@)
}

/// Models of a vector of authors.
pub open spec fn authors_view(v: Seq<Author>) -> Seq<AuthorVal> {
    Seq::new(v.len(), |i: int| v[i]@)
}

/// Models of a vector of venues.
pub open spec fn venues_view(v: Seq<Venue>) -> Seq<VenueVal> {
    Seq::new(v.len(), |i: int| v[i]@)
}

/// Fail-fast normalization of a fragment sequence into publications: the
/// records in fragment order, or the index of the first failing fragment
/// with its error.
pub open spec fn spec_normalize_publications(frags: Seq<JsonVal>) -> Result<
    Seq<PublicationVal>,
    (int, ErrorVal),
>
    decreases frags.len(),
{
    if frags.len() == 0 {
        Ok(Seq::empty())
    } else {
        match spec_normalize_publication(frags[0]) {
            Ok(p) => match spec_normalize_publications(frags.drop_first()) {
                Ok(rest) => Ok(seq![p] + rest),
                Err(ke) => Err((1 + ke.0, ke.1)),
            },
            Err(e) => Err((0, e)),
        }
    }
}

/// Fail-fast normalization of a fragment sequence into authors.
pub open spec fn spec_normalize_authors(frags: Seq<JsonVal>) -> Result<
    Seq<AuthorVal>,
    (int, ErrorVal),
>
    decreases frags.len(),
{
    if frags.len() == 0 {
        Ok(Seq::empty())
    } else {
        match spec_normalize_author(frags[0]) {
            Ok(a) => match spec_normalize_authors(frags.drop_first()) {
                Ok(rest) => Ok(seq![a] + rest),
                Err(ke) => Err((1 + ke.0, ke.1)),
            },
            Err(e) => Err((0, e)),
        }
    }
}

/// Fail-fast normalization of a fragment sequence into venues.
pub open spec fn spec_normalize_venues(frags: Seq<JsonVal>) -> Result<
    Seq<VenueVal>,
    (int, ErrorVal),
>
    decreases frags.len(),
{
    if frags.len() == 0 {
        Ok(Seq::empty())
    } else {
        match spec_normalize_venue(frags[0]) {
            Ok(v) => match spec_normalize_venues(frags.drop_first()) {
                Ok(rest) => Ok(seq![v] + rest),
                Err(ke) => Err((1 + ke.0, ke.1)),
            },
            Err(e) => Err((0, e)),
        }
    }
}

/// What a whole publication query yields from an envelope model.
pub open spec fn spec_publications_from_envelope(env: JsonVal) -> Result<
    Seq<PublicationVal>,
    BatchErrorVal,
> {
    match spec_extract_hits(env) {
        Ok(frags) => match spec_normalize_publications(frags) {
            Ok(records) => Ok(records),
            Err(ke) => Err(BatchErrorVal { index: Some(ke.0), error: ke.1 }),
        },
        Err(e) => Err(BatchErrorVal { index: None, error: e }),
    }
}

/// What a whole author query yields from an envelope model.
pub open spec fn spec_authors_from_envelope(env: JsonVal) -> Result<Seq<AuthorVal>, BatchErrorVal> {
    match spec_extract_hits(env) {
        Ok(frags) => match spec_normalize_authors(frags) {
            Ok(records) => Ok(records),
            Err(ke) => Err(BatchErrorVal { index: Some(ke.0), error: ke.1 }),
        },
        Err(e) => Err(BatchErrorVal { index: None, error: e }),
    }
}

/// What a whole venue query yields from an envelope model.
pub open spec fn spec_venues_from_envelope(env: JsonVal) -> Result<Seq<VenueVal>, BatchErrorVal> {
    match spec_extract_hits(env) {
        Ok(frags) => match spec_normalize_venues(frags) {
            Ok(records) => Ok(records),
            Err(ke) => Err(BatchErrorVal { index: Some(ke.0), error: ke.1 }),
        },
        Err(e) => Err(BatchErrorVal { index: None, error: e }),
    }
}

/// Extracts every hit of a publication envelope and normalizes each, in
/// order, stopping at the first failure; the error then carries the index
/// of the fragment that failed. A zero-hit envelope yields an empty vector.
pub fn publications_from_envelope(envelope: &Json) -> (res: Result<Vec<Publication>, BatchError>)
    ensures
        match res {
            Ok(v) => spec_publications_from_envelope(envelope@) == Ok::<
                Seq<PublicationVal>,
                BatchErrorVal,
            >(publications_view(v@)),
            Err(b) => spec_publications_from_envelope(envelope@) == Err::<
                Seq<PublicationVal>,
                BatchErrorVal,
            >(b@),
        },
{
    let frags = match extract_hits(envelope) {
        Ok(v) => v,
        Err(e) => {
            return Err(BatchError { index: None, error: e });
        },
    };
    let ghost fmodel = frag_views(frags@);
    let mut records: Vec<Publication> = Vec::new();
    proof {
        assert(fmodel.skip(0) =~= fmodel);
        if spec_normalize_publications(fmodel) is Ok {
            assert(publications_view(records@) + spec_normalize_publications(fmodel)->Ok_0
                =~= spec_normalize_publications(fmodel)->Ok_0);
        }
    }
    let mut i: usize = 0;
    while i < frags.len()
        invariant
            0 <= i <= frags.len(),
            fmodel == frag_views(frags@),
            spec_extract_hits(envelope@) == Ok::<Seq<JsonVal>, ErrorVal>(fmodel),
            records@.len() == i,
            spec_normalize_publications(fmodel) == (match spec_normalize_publications(
                fmodel.skip(i as int),
            ) {
                Ok(rest) => Ok::<Seq<PublicationVal>, (int, ErrorVal)>(
                    publications_view(records@) + rest,
                ),
                Err(ke) => Err::<Seq<PublicationVal>, (int, ErrorVal)>((i + ke.0, ke.1)),
            }),
        decreases frags.len() - i,
    {
        proof {
            assert(fmodel.skip(i as int).len() == fmodel.len() - i);
            assert(fmodel.skip(i as int)[0] == fmodel[i as int]);
            assert(fmodel.skip(i as int).drop_first() =~= fmodel.skip(i + 1));
            assert(fmodel[i as int] == json_view(*frags@[i as int]));
        }
        let record = match normalize_publication(frags[i]) {
            Ok(p) => p,
            Err(e) => {
                return Err(BatchError { index: Some(i), error: e });
            },
        };
        let ghost records_before = records@;
        let ghost record_model = record@;
        records.push(record);
        proof {
            assert(publications_view(records@) =~= publications_view(records_before)
                + seq![record_model]);
            if spec_normalize_publications(fmodel.skip(i + 1)) is Ok {
                let rest = spec_normalize_publications(fmodel.skip(i + 1))->Ok_0;
                assert(publications_view(records_before) + (seq![record_model] + rest)
                    =~= publications_view(records@) + rest);
            }
        }
        i = i + 1;
    }
    proof {
        assert(fmodel.skip(i as int).len() == 0);
        assert(publications_view(records@) + Seq::<PublicationVal>::empty() =~= publications_view(
            records@,
        ));
    }
    Ok(records)
}

/// Extracts every hit of an author envelope and normalizes each, in order,
/// stopping at the first failure, as `publications_from_envelope` does.
pub fn authors_from_envelope(envelope: &Json) -> (res: Result<Vec<Author>, BatchError>)
    ensures
        match res {
            Ok(v) => spec_authors_from_envelope(envelope@) == Ok::<Seq<AuthorVal>, BatchErrorVal>(
                authors_view(v@),
            ),
            Err(b) => spec_authors_from_envelope(envelope@) == Err::<
                Seq<AuthorVal>,
                BatchErrorVal,
            >(b@),
        },
{
    let frags = match extract_hits(envelope) {
        Ok(v) => v,
        Err(e) => {
            return Err(BatchError { index: None, error: e });
        },
    };
    let ghost fmodel = frag_views(frags@);
    let mut records: Vec<Author> = Vec::new();
    proof {
        assert(fmodel.skip(0) =~= fmodel);
        if spec_normalize_authors(fmodel) is Ok {
            assert(authors_view(records@) + spec_normalize_authors(fmodel)->Ok_0
                =~= spec_normalize_authors(fmodel)->Ok_0);
        }
    }
    let mut i: usize = 0;
    while i < frags.len()
        invariant
            0 <= i <= frags.len(),
            fmodel == frag_views(frags@),
            spec_extract_hits(envelope@) == Ok::<Seq<JsonVal>, ErrorVal>(fmodel),
            records@.len() == i,
            spec_normalize_authors(fmodel) == (match spec_normalize_authors(
                fmodel.skip(i as int),
            ) {
                Ok(rest) => Ok::<Seq<AuthorVal>, (int, ErrorVal)>(authors_view(records@) + rest),
                Err(ke) => Err::<Seq<AuthorVal>, (int, ErrorVal)>((i + ke.0, ke.1)),
            }),
        decreases frags.len() - i,
    {
        proof {
            assert(fmodel.skip(i as int).len() == fmodel.len() - i);
            assert(fmodel.skip(i as int)[0] == fmodel[i as int]);
            assert(fmodel.skip(i as int).drop_first() =~= fmodel.skip(i + 1));
            assert(fmodel[i as int] == json_view(*frags@[i as int]));
        }
        let record = match normalize_author(frags[i]) {
            Ok(a) => a,
            Err(e) => {
                return Err(BatchError { index: Some(i), error: e });
            },
        };
        let ghost records_before = records@;
        let ghost record_model = record@;
        records.push(record);
        proof {
            assert(authors_view(records@) =~= authors_view(records_before) + seq![record_model]);
            if spec_normalize_authors(fmodel.skip(i + 1)) is Ok {
                let rest = spec_normalize_authors(fmodel.skip(i + 1))->Ok_0;
                assert(authors_view(records_before) + (seq![record_model] + rest) =~= authors_view(
                    records@,
                ) + rest);
            }
        }
        i = i + 1;
    }
    proof {
        assert(fmodel.skip(i as int).len() == 0);
        assert(authors_view(records@) + Seq::<AuthorVal>::empty() =~= authors_view(records@));
    }
    Ok(records)
}

/// Extracts every hit of a venue envelope and normalizes each, in order,
/// stopping at the first failure, as `publications_from_envelope` does.
pub fn venues_from_envelope(envelope: &Json) -> (res: Result<Vec<Venue>, BatchError>)
    ensures
        match res {
            Ok(v) => spec_venues_from_envelope(envelope@) == Ok::<Seq<VenueVal>, BatchErrorVal>(
                venues_view(v@),
            ),
            Err(b) => spec_venues_from_envelope(envelope@) == Err::<Seq<VenueVal>, BatchErrorVal>(
                b@,
            ),
        },
{
    let frags = match extract_hits(envelope) {
        Ok(v) => v,
        Err(e) => {
            return Err(BatchError { index: None, error: e });
        },
    };
    let ghost fmodel = frag_views(frags@);
    let mut records: Vec<Venue> = Vec::new();
    proof {
        assert(fmodel.skip(0) =~= fmodel);
        if spec_normalize_venues(fmodel) is Ok {
            assert(venues_view(records@) + spec_normalize_venues(fmodel)->Ok_0
                =~= spec_normalize_venues(fmodel)->Ok_0);
        }
    }
    let mut i: usize = 0;
    while i < frags.len()
        invariant
            0 <= i <= frags.len(),
            fmodel == frag_views(frags@),
            spec_extract_hits(envelope@) == Ok::<Seq<JsonVal>, ErrorVal>(fmodel),
            records@.len() == i,
            spec_normalize_venues(fmodel) == (match spec_normalize_venues(fmodel.skip(i as int)) {
                Ok(rest) => Ok::<Seq<VenueVal>, (int, ErrorVal)>(venues_view(records@) + rest),
                Err(ke) => Err::<Seq<VenueVal>, (int, ErrorVal)>((i + ke.0, ke.1)),
            }),
        decreases frags.len() - i,
    {
        proof {
            assert(fmodel.skip(i as int).len() == fmodel.len() - i);
            assert(fmodel.skip(i as int)[0] == fmodel[i as int]);
            assert(fmodel.skip(i as int).drop_first() =~= fmodel.skip(i + 1));
            assert(fmodel[i as int] == json_view(*frags@[i as int]));
        }
        let record = match normalize_venue(frags[i]) {
            Ok(v) => v,
            Err(e) => {
                return Err(BatchError { index: Some(i), error: e });
            },
        };
        let ghost records_before = records@;
        let ghost record_model = record@;
        records.push(record);
        proof {
            assert(venues_view(records@) =~= venues_view(records_before) + seq![record_model]);
            if spec_normalize_venues(fmodel.skip(i + 1)) is Ok {
                let rest = spec_normalize_venues(fmodel.skip(i + 1))->Ok_0;
                assert(venues_view(records_before) + (seq![record_model] + rest) =~= venues_view(
                    records@,
                ) + rest);
            }
        }
        i = i + 1;
    }
    proof {
        assert(fmodel.skip(i as int).len() == 0);
        assert(venues_view(records@) + Seq::<VenueVal>::empty() =~= venues_view(records@));
    }
    Ok(records)
}

} // verus!
