//! The statically shaped records that normalization produces.
//!
//! Every single-or-many field of the source JSON is materialized as a
//! vector, whatever cardinality encoding the service chose; optional fields
//! are `Option`. Records are immutable values with no identity beyond their
//! fields.

use vstd::prelude::*;

verus! {

/// One publication hit. `venue` and `authors` are always vectors, even when
/// the source encoded a single value as a bare object or string. `type_`
/// carries the service's `type` attribute.
#[derive(Debug, PartialEq, Eq)]
pub struct Publication {
    pub authors: Vec<String>,
    pub title: String,
    pub venue: Vec<String>,
    pub year: String,
    pub type_: String,
    pub key: String,
    pub ee: String,
    pub url: String,
    pub access: Option<String>,
    pub publisher: Option<String>,
    pub doi: Option<String>,
    pub pages: Option<String>,
    pub volume: Option<String>,
    pub number: Option<String>,
}

/// One author hit. `notes` holds `(note type, note text)` pairs; `notes`
/// and `aliases` default to empty when the fragment omits them.
#[derive(Debug, PartialEq, Eq)]
pub struct Author {
    pub author: String,
    pub url: String,
    pub notes: Vec<(String, String)>,
    pub aliases: Vec<String>,
}

/// One venue hit. No field of it is polymorphic. `type_` carries the
/// service's `type` attribute.
#[derive(Debug, PartialEq, Eq)]
pub struct Venue {
    pub venue: String,
    pub acronym: Option<String>,
    pub type_: String,
    pub url: String,
}

/// Model of a vector of strings.
pub open spec fn texts_view(v: Seq<String>) -> Seq<Seq<char>> {
    Seq::new(v.len(), |i: int| v[i]@)
}

/// Model of a vector of string pairs.
pub open spec fn pairs_view(v: Seq<(String, String)>) -> Seq<(Seq<char>, Seq<char>)> {
    Seq::new(v.len(), |i: int| (v[i].0@, v[i].1@))
}

/// Model of an optional string.
pub open spec fn opt_view(v: Option<String>) -> Option<Seq<char>> {
    match v {
        Some(s) => Some(s@),
        None => None,
    }
}

/// The mathematical model of a `Publication`.
pub struct PublicationVal {
    pub authors: Seq<Seq<char>>,
    pub title: Seq<char>,
    pub venue: Seq<Seq<char>>,
    pub year: Seq<char>,
    pub type_: Seq<char>,
    pub key: Seq<char>,
    pub ee: Seq<char>,
    pub url: Seq<char>,
    pub access: Option<Seq<char>>,
    pub publisher: Option<Seq<char>>,
    pub doi: Option<Seq<char>>,
    pub pages: Option<Seq<char>>,
    pub volume: Option<Seq<char>>,
    pub number: Option<Seq<char>>,
}

impl View for Publication {
    type V = PublicationVal;

    open spec fn view(&self) -> PublicationVal {
        PublicationVal {
            authors: texts_view(self.authors@),
            title: self.title@,
            venue: texts_view(self.venue@),
            year: self.year@,
            type_: self.type_@,
            key: self.key@,
            ee: self.ee@,
            url: self.url@,
            access: opt_view(self.access),
            publisher: opt_view(self.publisher),
            doi: opt_view(self.doi),
            pages: opt_view(self.pages),
            volume: opt_view(self.volume),
            number: opt_view(self.number),
        }
    }
}

/// The mathematical model of an `Author`.
pub struct AuthorVal {
    pub author: Seq<char>,
    pub url: Seq<char>,
    pub notes: Seq<(Seq<char>, Seq<char>)>,
    pub aliases: Seq<Seq<char>>,
}

impl View for Author {
    type V = AuthorVal;

    open spec fn view(&self) -> AuthorVal {
        AuthorVal {
            author: self.author@,
            url: self.url@,
            notes: pairs_view(self.notes@),
            aliases: texts_view(self.aliases@),
        }
    }
}

/// The mathematical model of a `Venue`.
pub struct VenueVal {
    pub venue: Seq<char>,
    pub acronym: Option<Seq<char>>,
    pub type_: Seq<char>,
    pub url: Seq<char>,
}

impl View for Venue {
    type V = VenueVal;

    open spec fn view(&self) -> VenueVal {
        VenueVal {
            venue: self.venue@,
            acronym: opt_view(self.acronym),
            type_: self.type_@,
            url: self.url@,
        }
    }
}

} // verus!
