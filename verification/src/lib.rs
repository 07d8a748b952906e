//! Client-side normalization core for a bibliographic search service.
//!
//! The service answers each query with a JSON envelope whose shape varies
//! with cardinality: a single author is an object while several authors are
//! an array, a lone venue is a bare string, zero hits omit the hit array.
//! This crate parses those heterogeneous envelopes into statically shaped
//! records (`Publication`, `Author`, `Venue`), deterministically and with an
//! explicit error for every malformed shape.
//!
//! The crate performs no I/O: a caller fetches the response body, turns it
//! into a [`json::Json`] value, and hands it to the extraction and
//! normalization functions.

pub mod error;
pub mod extract;
pub mod json;
pub mod laws;
pub mod normalize;
pub mod record;

pub use error::BatchError;
pub use error::SearchError;
pub use extract::extract_hits;
pub use json::Json;
pub use normalize::authors_from_envelope;
pub use normalize::normalize_author;
pub use normalize::normalize_publication;
pub use normalize::normalize_venue;
pub use normalize::publications_from_envelope;
pub use normalize::venues_from_envelope;
pub use record::Author;
pub use record::Publication;
pub use record::Venue;
