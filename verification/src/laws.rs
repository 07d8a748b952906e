//! The crate-level laws: shape-invariance of single-or-many fields,
//! determinism of normalization, behaviour of the extractor on zero and
//! non-zero totals, and the treatment of absent fields.

use vstd::prelude::*;

use crate::error::ErrorVal;
use crate::error::SearchError;
use crate::extract::spec_extract_hits;
use crate::extract::spec_fragment_of;
use crate::extract::spec_fragments;
use crate::json::JsonVal;
use crate::json::obj_get;
use crate::normalize::spec_alias_list;
use crate::normalize::spec_author_list;
use crate::normalize::spec_author_scalar;
use crate::normalize::spec_author_entries;
use crate::normalize::spec_authors_field;
use crate::normalize::spec_normalize_author;
use crate::normalize::spec_normalize_publication;
use crate::normalize::spec_normalize_publications;
use crate::normalize::spec_normalize_venue;
use crate::normalize::spec_note_list;
use crate::normalize::spec_note_scalar;
use crate::normalize::spec_note_entries;
use crate::normalize::spec_alias_entries;
use crate::normalize::spec_venue_entries;
use crate::normalize::spec_venue_list;
use crate::record::Author;
use crate::record::AuthorVal;
use crate::record::Publication;
use crate::record::PublicationVal;
use crate::record::Venue;
use crate::record::VenueVal;

verus! {

/// The `@total` text of an envelope, when the envelope reaches it.
pub open spec fn envelope_total(env: JsonVal) -> Option<Seq<char>> {
    match env {
        JsonVal::Object(top) => match obj_get(top, "result"@) {
            Some(JsonVal::Object(result_members)) => match obj_get(result_members, "hits"@) {
                Some(JsonVal::Object(hits)) => match obj_get(hits, "@total"@) {
                    Some(JsonVal::Text(total)) => Some(total),
                    _ => None,
                },
                _ => None,
            },
            _ => None,
        },
        _ => None,
    }
}

/// The elements of an envelope's `hit` array, when the envelope reaches it.
pub open spec fn envelope_hit_array(env: JsonVal) -> Option<Seq<JsonVal>> {
    match env {
        JsonVal::Object(top) => match obj_get(top, "result"@) {
            Some(JsonVal::Object(result_members)) => match obj_get(result_members, "hits"@) {
                Some(JsonVal::Object(hits)) => match obj_get(hits, "hit"@) {
                    Some(JsonVal::Array(elems)) => Some(elems),
                    _ => None,
                },
                _ => None,
            },
            _ => None,
        },
        _ => None,
    }
}

/// The model of an executable publication-normalization outcome.
pub open spec fn publication_result_view(r: Result<Publication, SearchError>) -> Result<
    PublicationVal,
    ErrorVal,
> {
    match r {
        Ok(p) => Ok(p@),
        Err(e) => Err(e@),
    }
}

/// The model of an executable author-normalization outcome.
pub open spec fn author_result_view(r: Result<Author, SearchError>) -> Result<
    AuthorVal,
    ErrorVal,
> {
    match r {
        Ok(a) => Ok(a@),
        Err(e) => Err(e@),
    }
}

/// The model of an executable venue-normalization outcome.
pub open spec fn venue_result_view(r: Result<Venue, SearchError>) -> Result<VenueVal, ErrorVal> {
    match r {
        Ok(v) => Ok(v@),
        Err(e) => Err(e@),
    }
}

/// An envelope whose `@total` is the string `"0"` extracts to the empty
/// fragment sequence, whether or not a `hit` array is present.
pub proof fn lemma_zero_total_yields_empty(env: JsonVal)
    requires
        envelope_total(env) == Some("0"@),
    ensures
        spec_extract_hits(env) == Ok::<Seq<JsonVal>, ErrorVal>(Seq::<JsonVal>::empty()),
{
}

/// A hit array whose every element carries an `info` member extracts to
/// exactly one fragment per element, in array order.
pub proof fn lemma_fragments_all_ok(elems: Seq<JsonVal>)
    requires
        forall|i: int| 0 <= i < elems.len() ==> #[trigger] spec_fragment_of(elems[i]) is Ok,
    ensures
        spec_fragments(elems) is Ok,
        spec_fragments(elems)->Ok_0.len() == elems.len(),
        forall|i: int|
            0 <= i < elems.len() ==> #[trigger] spec_fragments(elems)->Ok_0[i] == spec_fragment_of(
                elems[i],
            )->Ok_0,
    decreases elems.len(),
{
    if elems.len() > 0 {
        let rest = elems.drop_first();
        assert(forall|i: int| 0 <= i < rest.len() ==> rest[i] == elems[i + 1]);
        lemma_fragments_all_ok(rest);
    }
}

/// An envelope with a non-`"0"` total and a well-formed hit array of length
/// N extracts to exactly N fragments, in array order.
pub proof fn lemma_nonzero_total_lists_hits(env: JsonVal, total: Seq<char>, elems: Seq<JsonVal>)
    requires
        envelope_total(env) == Some(total),
        total != "0"@,
        envelope_hit_array(env) == Some(elems),
        forall|i: int| 0 <= i < elems.len() ==> #[trigger] spec_fragment_of(elems[i]) is Ok,
    ensures
        spec_extract_hits(env) is Ok,
        spec_extract_hits(env)->Ok_0.len() == elems.len(),
        forall|i: int|
            0 <= i < elems.len() ==> spec_extract_hits(env)->Ok_0[i] == spec_fragment_of(
                elems[i],
            )->Ok_0,
{
    lemma_fragments_all_ok(elems);
}

/// Shape-invariance of the cardinality-1 encoding for authors: one entry
/// object wrapped in a one-element array resolves exactly as the bare entry
/// object does.
pub proof fn lemma_author_singleton_shapes(entry: JsonVal)
    requires
        entry is Object,
    ensures
        spec_author_list(JsonVal::Array(seq![entry])) == spec_author_list(entry),
{
    reveal_with_fuel(spec_author_entries, 3);
    let elems = seq![entry];
    assert(elems.drop_first() =~= Seq::<JsonVal>::empty());
    if spec_author_scalar(entry) is Ok {
        let s = spec_author_scalar(entry)->Ok_0;
        assert(seq![s] + Seq::<Seq<char>>::empty() =~= seq![s]);
    }
}

/// Shape-invariance of the cardinality-1 encoding for notes.
pub proof fn lemma_note_singleton_shapes(entry: JsonVal)
    requires
        entry is Object,
    ensures
        spec_note_list(JsonVal::Array(seq![entry])) == spec_note_list(entry),
{
    reveal_with_fuel(spec_note_entries, 3);
    let elems = seq![entry];
    assert(elems.drop_first() =~= Seq::<JsonVal>::empty());
    if spec_note_scalar(entry) is Ok {
        let p = spec_note_scalar(entry)->Ok_0;
        assert(seq![p] + Seq::<(Seq<char>, Seq<char>)>::empty() =~= seq![p]);
    }
}

/// Shape-invariance of the cardinality-1 encoding for aliases: a bare
/// string, a wrapped string, and a wrapped one-element string array all
/// resolve to the same one-element sequence.
pub proof fn lemma_alias_singleton_shapes(key: Seq<char>, s: Seq<char>)
    ensures
        spec_alias_list(JsonVal::Text(s)) == Ok::<Seq<Seq<char>>, ErrorVal>(seq![s]),
        spec_alias_list(JsonVal::Object(seq![(key, JsonVal::Text(s))])) == Ok::<
            Seq<Seq<char>>,
            ErrorVal,
        >(seq![s]),
        spec_alias_list(JsonVal::Object(seq![(key, JsonVal::Array(seq![JsonVal::Text(s)]))]))
            == Ok::<Seq<Seq<char>>, ErrorVal>(seq![s]),
{
    reveal_with_fuel(spec_alias_entries, 3);
    let elems = seq![JsonVal::Text(s)];
    assert(elems.drop_first() =~= Seq::<JsonVal>::empty());
    assert(seq![s] + Seq::<Seq<char>>::empty() =~= seq![s]);
}

/// Shape-invariance of the cardinality-1 encoding for venues: a bare
/// string and a one-element string array resolve to the same one-element
/// sequence.
pub proof fn lemma_venue_singleton_shapes(s: Seq<char>)
    ensures
        spec_venue_list(JsonVal::Text(s)) == Ok::<Seq<Seq<char>>, ErrorVal>(seq![s]),
        spec_venue_list(JsonVal::Array(seq![JsonVal::Text(s)])) == Ok::<Seq<Seq<char>>, ErrorVal>(
            seq![s],
        ),
{
    reveal_with_fuel(spec_venue_entries, 3);
    let elems = seq![JsonVal::Text(s)];
    assert(elems.drop_first() =~= Seq::<JsonVal>::empty());
    assert(seq![s] + Seq::<Seq<char>>::empty() =~= seq![s]);
}

/// Normalization is a pure function of the fragment model: any two
/// publication outcomes that meet `normalize_publication`'s contract for
/// the same fragment are model-for-model identical.
pub proof fn lemma_normalize_publication_deterministic(
    f: JsonVal,
    r1: Result<Publication, SearchError>,
    r2: Result<Publication, SearchError>,
)
    requires
        publication_result_view(r1) == spec_normalize_publication(f),
        publication_result_view(r2) == spec_normalize_publication(f),
    ensures
        publication_result_view(r1) == publication_result_view(r2),
{
}

/// As `lemma_normalize_publication_deterministic`, for authors.
pub proof fn lemma_normalize_author_deterministic(
    f: JsonVal,
    r1: Result<Author, SearchError>,
    r2: Result<Author, SearchError>,
)
    requires
        author_result_view(r1) == spec_normalize_author(f),
        author_result_view(r2) == spec_normalize_author(f),
    ensures
        author_result_view(r1) == author_result_view(r2),
{
}

/// As `lemma_normalize_publication_deterministic`, for venues.
pub proof fn lemma_normalize_venue_deterministic(
    f: JsonVal,
    r1: Result<Venue, SearchError>,
    r2: Result<Venue, SearchError>,
)
    requires
        venue_result_view(r1) == spec_normalize_venue(f),
        venue_result_view(r2) == spec_normalize_venue(f),
    ensures
        venue_result_view(r1) == venue_result_view(r2),
{
}

/// A fragment sequence whose every member normalizes is normalized
/// member-for-member, in fragment order: extraction order is preserved
/// through to the record sequence.
pub proof fn lemma_publications_in_order(frags: Seq<JsonVal>)
    requires
        forall|i: int|
            0 <= i < frags.len() ==> #[trigger] spec_normalize_publication(frags[i]) is Ok,
    ensures
        spec_normalize_publications(frags) is Ok,
        spec_normalize_publications(frags)->Ok_0.len() == frags.len(),
        forall|i: int|
            0 <= i < frags.len() ==> #[trigger] spec_normalize_publications(frags)->Ok_0[i]
                == spec_normalize_publication(frags[i])->Ok_0,
    decreases frags.len(),
{
    if frags.len() > 0 {
        let rest = frags.drop_first();
        assert(forall|i: int| 0 <= i < rest.len() ==> rest[i] == frags[i + 1]);
        lemma_publications_in_order(rest);
    }
}

/// A fragment that lacks the required `title` field never normalizes into
/// a publication; when its `authors` field is well formed, the error is
/// exactly `MissingRequiredField` naming `title`.
pub proof fn lemma_missing_title_fails(fs: Seq<(Seq<char>, JsonVal)>)
    requires
        obj_get(fs, "title"@) is None,
    ensures
        spec_normalize_publication(JsonVal::Object(fs)) is Err,
        spec_authors_field(fs) is Ok ==> spec_normalize_publication(JsonVal::Object(fs)) == Err::<
            PublicationVal,
            ErrorVal,
        >(ErrorVal::MissingRequiredField { field: "title"@ }),
{
}

/// A fragment that lacks the optional `doi` field still normalizes, with
/// the record's `doi` in the absent state; absence of an optional field is
/// never an error on its own.
pub proof fn lemma_missing_doi_is_absent(fs: Seq<(Seq<char>, JsonVal)>)
    requires
        obj_get(fs, "doi"@) is None,
    ensures
        spec_normalize_publication(JsonVal::Object(fs)) matches Ok(p) ==> p.doi is None,
{
}

} // verus!

