//! The JSON tree that the codec reads and writes.
//!
//! The codec works on an already-parsed JSON document: a transport layer
//! is expected to turn raw bytes into this tree and back.  Numbers are
//! restricted to integers, which is all the proto3 JSON mapping ever
//! produces for message fields; an `i128` covers the full `u64` and
//! `i64` ranges.  An object is an ordered list of key/value pairs, so
//! that key order is preserved and duplicate keys can be detected by the
//! decoder rather than silently collapsed.

use vstd::prelude::*;

verus! {

broadcast use vstd::seq::group_seq_axioms, vstd::std_specs::vec::group_vec_axioms;

/// Mathematical model of a JSON tree, used by all contracts.
pub enum JsonV {
    Null,
    Bool(bool),
    Num(int),
    Str(Seq<char>),
    Arr(Seq<JsonV>),
    Obj(Seq<(Seq<char>, JsonV)>),
}

/// An in-memory JSON document.
#[derive(Debug, PartialEq, Eq)]
pub enum Json {
    Null,
    Bool(bool),
    Num(i128),
    Str(String),
    Arr(Vec<Json>),
    Obj(Vec<(String, Json)>),
}

pub open spec fn json_view(j: Json) -> JsonV
    decreases j,
    via json_view_dec
{
    match j {
        Json::Null => JsonV::Null,
        Json::Bool(b) => JsonV::Bool(b),
        Json::Num(n) => JsonV::Num(n as int),
        Json::Str(s) => JsonV::Str(s@),
        Json::Arr(elems) => JsonV::Arr(jsons_view(elems@)),
        Json::Obj(entries) => JsonV::Obj(entries_view(entries@)),
    }
}

#[via_fn]
proof fn json_view_dec(j: Json) {
    match j {
        Json::Arr(elems) => {
            assert(decreases_to!(j => elems));
            assert(decreases_to!(elems => elems@));
        }
        Json::Obj(entries) => {
            assert(decreases_to!(j => entries));
            assert(decreases_to!(entries => entries@));
        }
        _ => {}
    }
}

pub open spec fn jsons_view(s: Seq<Json>) -> Seq<JsonV>
    decreases s,
{
    if s.len() == 0 {
        Seq::empty()
    } else {
        seq![json_view(s[0])] + jsons_view(s.subrange(1, s.len() as int))
    }
}

pub open spec fn entries_view(s: Seq<(String, Json)>) -> Seq<(Seq<char>, JsonV)>
    decreases s,
{
    if s.len() == 0 {
        Seq::empty()
    } else {
        seq![(s[0].0@, json_view(s[0].1))] + entries_view(s.subrange(1, s.len() as int))
    }
}

pub broadcast proof fn lemma_jsons_view(s: Seq<Json>)
    ensures
        (#[trigger] jsons_view(s)).len() == s.len(),
        forall|i: int| 0 <= i < s.len() ==> jsons_view(s)[i] == json_view(s[i]),
    decreases s.len(),
{
    if s.len() > 0 {
        lemma_jsons_view(s.subrange(1, s.len() as int));
    }
}

pub broadcast proof fn lemma_entries_view(s: Seq<(String, Json)>)
    ensures
        (#[trigger] entries_view(s)).len() == s.len(),
        forall|i: int| 0 <= i < s.len() ==> entries_view(s)[i] == (s[i].0@, json_view(s[i].1)),
    decreases s.len(),
{
    if s.len() > 0 {
        lemma_entries_view(s.subrange(1, s.len() as int));
    }
}

impl View for Json {
    type V = JsonV;

    open spec fn view(&self) -> JsonV {
        json_view(*self)
    }
}

} // verus!
