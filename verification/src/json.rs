//! In-memory JSON values and their mathematical model.
//!
//! `Json` is the executable representation of a parsed JSON document; an
//! object keeps its members in document order as a vector of pairs.
//! `JsonVal` is the specification-level mirror, with `Seq<char>` for text and
//! `Seq` for arrays and objects; `json_view` relates the two and is the view
//! of `Json`.

use vstd::prelude::*;

verus! {

/// A parsed JSON value. Numbers keep their decimal source text, which is all
/// the search service's envelopes need; object members keep document order.
#[derive(Debug, PartialEq, Eq)]
pub enum Json {
    Null,
    Boolean(bool),
    Number(String),
    Text(String),
    Array(Vec<Json>),
    Object(Vec<(String, Json)>),
}

/// The mathematical model of a JSON value.
pub enum JsonVal {
    Null,
    Boolean(bool),
    Number(Seq<char>),
    Text(Seq<char>),
    Array(Seq<JsonVal>),
    Object(Seq<(Seq<char>, JsonVal)>),
}

/// Model of one object member list: each member keyed by its text.
pub open spec fn obj_view(members: Seq<(String, Json)>) -> Seq<(Seq<char>, JsonVal)>
    decreases members,
{
    Seq::new(
        members.len(),
        |i: int|
            if 0 <= i < members.len() {
                (members[i].0@, json_view(members[i].1))
            } else {
                ("".view(), JsonVal::Null)
            },
    )
}

/// Model of an array element list.
pub open spec fn arr_view(elems: Seq<Json>) -> Seq<JsonVal>
    decreases elems,
{
    Seq::new(
        elems.len(),
        |i: int|
            if 0 <= i < elems.len() {
                json_view(elems[i])
            } else {
                JsonVal::Null
            },
    )
}

/// The model of a `Json` value.
pub open spec fn json_view(j: Json) -> JsonVal
    decreases j,
{
    match j {
        Json::Null => JsonVal::Null,
        Json::Boolean(b) => JsonVal::Boolean(b),
        Json::Number(s) => JsonVal::Number(s@),
        Json::Text(s) => JsonVal::Text(s@),
        Json::Array(v) => JsonVal::Array(arr_view(v@)),
        Json::Object(v) => JsonVal::Object(obj_view(v@)),
    }
}

impl View for Json {
    type V = JsonVal;

    open spec fn view(&self) -> JsonVal {
        json_view(*self)
    }
}

/// First member of `members` whose key is `key`, if any.
pub open spec fn obj_get(members: Seq<(Seq<char>, JsonVal)>, key: Seq<char>) -> Option<JsonVal>
    decreases members.len(),
{
    if members.len() == 0 {
        None
    } else if members[0].0 == key {
        Some(members[0].1)
    } else {
        obj_get(members.drop_first(), key)
    }
}

/// Whether two string slices hold the same characters.
pub fn str_eq(a: &str, b: &str) -> (r: bool)
    ensures
        r == (a@ == b@),
{
    let owned_a = a.to_owned();
    let owned_b = b.to_owned();
    owned_a == owned_b
}

/// Looks `key` up in an object member list; returns the first match, as
/// `obj_get` does on the model.
pub fn get_member<'a>(members: &'a Vec<(String, Json)>, key: &str) -> (r: Option<&'a Json>)
    ensures
        match r {
            Some(j) => obj_get(obj_view(members@), key@) == Some(j@),
            None => obj_get(obj_view(members@), key@) is None,
        },
{
    let ghost model = obj_view(members@);
    proof {
        assert(model.skip(0) =~= model);
    }
    let mut i: usize = 0;
    while i < members.len()
        invariant
            0 <= i <= members.len(),
            model == obj_view(members@),
            obj_get(model, key@) == obj_get(model.skip(i as int), key@),
        decreases members.len() - i,
    {
        proof {
            assert(model.skip(i as int).len() == members@.len() - i);
            assert(model.skip(i as int)[0] == model[i as int]);
        }
        if str_eq(members[i].0.as_str(), key) {
            assert(obj_get(model.skip(i as int), key@) == Some(model[i as int].1));
            return Some(&members[i].1);
        }
        proof {
            assert(model.skip(i as int).drop_first() =~= model.skip(i + 1));
        }
        i = i + 1;
    }
    proof {
        assert(model.skip(i as int).len() == 0);
    }
    None
}

} // verus!
