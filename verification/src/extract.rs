//! Locating the hit list inside a search-result envelope.
//!
//! An envelope has the shape
//! `{ result: { hits: { "@total": string, hit?: [ { info: object }, ... ] } } }`.
//! When `"@total"` is the string `"0"` there are no matches and extraction
//! yields the empty sequence; otherwise `hit` must be an array, and each of
//! its elements contributes its `info` member, in array order. Every other
//! shape is rejected with `MalformedEnvelope` naming the offending path;
//! nothing is coerced or defaulted.

use vstd::prelude::*;

use crate::error::ErrorVal;
use crate::error::SearchError;
use crate::json::Json;
use crate::json::JsonVal;
use crate::json::get_member;
use crate::json::json_view;
use crate::json::obj_get;
use crate::json::obj_view;
use crate::json::str_eq;

verus! {

/// The fragment one hit element contributes: its `info` member. Any element
/// that is not an object with an `info` member is malformed.
pub open spec fn spec_fragment_of(elem: JsonVal) -> Result<JsonVal, ErrorVal> {
    match elem {
        JsonVal::Object(members) => match obj_get(members, "info"@) {
            Some(info) => Ok(info),
            None => Err(ErrorVal::MalformedEnvelope { path: "result.hits.hit.info"@ }),
        },
        _ => Err(ErrorVal::MalformedEnvelope { path: "result.hits.hit.info"@ }),
    }
}

/// The fragments of a hit array, in array order, stopping at the first
/// malformed element.
pub open spec fn spec_fragments(elems: Seq<JsonVal>) -> Result<Seq<JsonVal>, ErrorVal>
    decreases elems.len(),
{
    if elems.len() == 0 {
        Ok(Seq::empty())
    } else {
        match spec_fragment_of(elems[0]) {
            Ok(frag) => match spec_fragments(elems.drop_first()) {
                Ok(rest) => Ok(seq![frag] + rest),
                Err(e) => Err(e),
            },
            Err(e) => Err(e),
        }
    }
}

/// What extraction yields on an envelope model: the fragment sequence, or
/// the first `MalformedEnvelope` error met while reading the expected path.
/// A `"@total"` of `"0"` yields the empty sequence whether or not `hit` is
/// present; a non-`"0"` total with no `hit` array is malformed.
pub open spec fn spec_extract_hits(env: JsonVal) -> Result<Seq<JsonVal>, ErrorVal> {
    match env {
        JsonVal::Object(top) => match obj_get(top, "result"@) {
            Some(JsonVal::Object(result_members)) => match obj_get(result_members, "hits"@) {
                Some(JsonVal::Object(hits)) => match obj_get(hits, "@total"@) {
                    Some(JsonVal::Text(total)) => if total == "0"@ {
                        Ok(Seq::empty())
                    } else {
                        match obj_get(hits, "hit"@) {
                            Some(JsonVal::Array(elems)) => spec_fragments(elems),
                            _ => Err(ErrorVal::MalformedEnvelope { path: "result.hits.hit"@ }),
                        }
                    },
                    _ => Err(ErrorVal::MalformedEnvelope { path: "result.hits.@total"@ }),
                },
                _ => Err(ErrorVal::MalformedEnvelope { path: "result.hits"@ }),
            },
            _ => Err(ErrorVal::MalformedEnvelope { path: "result"@ }),
        },
        _ => Err(ErrorVal::MalformedEnvelope { path: "result"@ }),
    }
}

/// Models of a sequence of borrowed fragments.
pub open spec fn frag_views(frags: Seq<&Json>) -> Seq<JsonVal> {
    Seq::new(frags.len(), |i: int| json_view(*frags[i]))
}

/// Reads the envelope's `result.hits` structure and returns the `info`
/// object of each hit, in array order. A total of `"0"` is a normal empty
/// outcome, not an error.
pub fn extract_hits<'a>(envelope: &'a Json) -> (res: Result<Vec<&'a Json>, SearchError>)
    ensures
        match res {
            Ok(frags) => spec_extract_hits(envelope@) == Ok::<Seq<JsonVal>, ErrorVal>(
                frag_views(frags@),
            ),
            Err(e) => spec_extract_hits(envelope@) == Err::<Seq<JsonVal>, ErrorVal>(e@),
        },
{
    let top = match envelope {
        Json::Object(members) => members,
        _ => {
            return Err(SearchError::MalformedEnvelope { path: "result".to_owned() });
        },
    };
    let result_members = match get_member(top, "result") {
        Some(Json::Object(members)) => members,
        _ => {
            return Err(SearchError::MalformedEnvelope { path: "result".to_owned() });
        },
    };
    let hits = match get_member(result_members, "hits") {
        Some(Json::Object(members)) => members,
        _ => {
            return Err(SearchError::MalformedEnvelope { path: "result.hits".to_owned() });
        },
    };
    let total = match get_member(hits, "@total") {
        Some(Json::Text(text)) => text,
        _ => {
            return Err(SearchError::MalformedEnvelope { path: "result.hits.@total".to_owned() });
        },
    };
    if str_eq(total.as_str(), "0") {
        let empty: Vec<&'a Json> = Vec::new();
        proof {
            assert(frag_views(empty@) =~= Seq::<JsonVal>::empty());
        }
        return Ok(empty);
    }
    let elems = match get_member(hits, "hit") {
        Some(Json::Array(elems)) => elems,
        _ => {
            return Err(SearchError::MalformedEnvelope { path: "result.hits.hit".to_owned() });
        },
    };
    let ghost model = crate::json::arr_view(elems@);
    let mut frags: Vec<&'a Json> = Vec::new();
    proof {
        assert(model.skip(0) =~= model);
        if spec_fragments(model) is Ok {
            assert(frag_views(frags@) + spec_fragments(model)->Ok_0 =~= spec_fragments(
                model,
            )->Ok_0);
        }
    }
    proof {
        assert(spec_extract_hits(envelope@) == spec_fragments(model));
    }
    let mut i: usize = 0;
    while i < elems.len()
        invariant
            0 <= i <= elems.len(),
            model == crate::json::arr_view(elems@),
            spec_extract_hits(envelope@) == spec_fragments(model),
            frags@.len() == i,
            spec_fragments(model) == (match spec_fragments(model.skip(i as int)) {
                Ok(rest) => Ok::<Seq<JsonVal>, ErrorVal>(frag_views(frags@) + rest),
                Err(e) => Err::<Seq<JsonVal>, ErrorVal>(e),
            }),
        decreases elems.len() - i,
    {
        proof {
            assert(model.skip(i as int).len() == model.len() - i);
            assert(model.skip(i as int)[0] == model[i as int]);
            assert(model.skip(i as int).drop_first() =~= model.skip(i + 1));
            assert(model[i as int] == json_view(elems@[i as int]));
        }
        let elem_members = match &elems[i] {
            Json::Object(members) => members,
            _ => {
                return Err(SearchError::MalformedEnvelope {
                    path: "result.hits.hit.info".to_owned(),
                });
            },
        };
        let info = match get_member(elem_members, "info") {
            Some(info) => info,
            None => {
                return Err(SearchError::MalformedEnvelope {
                    path: "result.hits.hit.info".to_owned(),
                });
            },
        };
        let ghost frags_before = frags@;
        frags.push(info);
        proof {
            assert(frag_views(frags@) =~= frag_views(frags_before) + seq![info@]);
            if spec_fragments(model.skip(i + 1)) is Ok {
                let rest = spec_fragments(model.skip(i + 1))->Ok_0;
                assert(frag_views(frags_before) + (seq![info@] + rest) =~= frag_views(frags@)
                    + rest);
            }
        }
        i = i + 1;
    }
    proof {
        assert(model.skip(i as int).len() == 0);
        assert(frag_views(frags@) + Seq::<JsonVal>::empty() =~= frag_views(frags@));
    }
    Ok(frags)
}

} // verus!
