//! The encoder: canonical JSON rendering of an instance.
//!
//! Per field in declaration order, a field is skipped when it is unset,
//! or when it is a plain singular field holding its zero value or an
//! empty collection; an optional field explicitly set and a set oneof
//! member are always emitted.  Values render as proto3 JSON demands:
//! 32-bit integers and booleans natively, 64-bit integers as decimal
//! strings, bytes as padded base64, enums as their symbolic names
//! (failing on a number the table does not know), nested messages as
//! objects, repeated fields as arrays and maps as objects with
//! stringified keys.

use vstd::prelude::*;

use crate::b64::{b64_enc, b64_encode};
use crate::errors::{path_join, path_join_exec, EncodeError};
use crate::json::{entries_view, json_view, jsons_view, lemma_entries_view, lemma_jsons_view, Json, JsonV};
use crate::num::{dec_of_i64, dec_of_u64, i64_to_dec, u64_to_dec};
use crate::schema::{enum_number_from, field_view, lemma_fields_view, EnumDescriptor, FieldDescV, FieldKind, FieldKindV, MapValKind, MapValKindV, MessageDescriptor, MessageDescV, Presence};
use crate::value::{is_zero_value, lemma_map_entries_view, lemma_slots_view, lemma_slots_wf, lemma_values_view, lemma_values_wf, map_entries_view, mapkey_view, mapval_value_wf, value_view, value_wf, values_view, values_wf, Instance, InstanceV, MapKey, MapKeyV, Value, ValueV};

verus! {

broadcast use vstd::seq::group_seq_axioms, vstd::std_specs::vec::group_vec_axioms;

/// The rendering of a map key as a JSON object key: integers in
/// decimal, booleans as `"true"`/`"false"`, strings as themselves.
pub open spec fn mapkey_string(k: MapKeyV) -> Seq<char> {
    match k {
        MapKeyV::I32(x) => dec_of_i64(x as i64),
        MapKeyV::I64(x) => dec_of_i64(x),
        MapKeyV::U32(x) => dec_of_u64(x as u64),
        MapKeyV::U64(x) => dec_of_u64(x),
        MapKeyV::Bool(b) => if b {
            seq!['t', 'r', 'u', 'e']
        } else {
            seq!['f', 'a', 'l', 's', 'e']
        },
        MapKeyV::Str(s) => s,
    }
}

/// Whether a set field is emitted: an optional field always, a
/// repeated field when nonempty, a plain singular field when not at
/// its zero value, a oneof member always.
pub open spec fn field_emitted(f: FieldDescV, v: ValueV) -> bool {
    match f.presence {
        Presence::Optional => true,
        Presence::Repeated => v matches ValueV::List(elems) && elems.len() > 0,
        Presence::Singular => f.oneof_group is Some || !is_zero_value(v),
    }
}

/// The JSON rendering of one single (non-list) value.  An error is the
/// dotted path below the current field (empty: the field itself).
pub open spec fn enc_value(k: FieldKindV, v: ValueV) -> Result<JsonV, Seq<char>>
    decreases v, 2int, 0int,
{
    match k {
        FieldKindV::Int32 => Ok(JsonV::Num(v->I32_0 as int)),
        FieldKindV::Int64 => Ok(JsonV::Str(dec_of_i64(v->I64_0))),
        FieldKindV::UInt32 => Ok(JsonV::Num(v->U32_0 as int)),
        FieldKindV::UInt64 => Ok(JsonV::Str(dec_of_u64(v->U64_0))),
        FieldKindV::Bool => Ok(JsonV::Bool(v->Bool_0)),
        FieldKindV::Str => Ok(JsonV::Str(v->Str_0)),
        FieldKindV::Bytes => Ok(JsonV::Str(b64_enc(v->Bytes_0))),
        FieldKindV::Enum(e) => match enum_number_from(e.entries, v->EnumNum_0, 0) {
            Some(i) => Ok(JsonV::Str(e.entries[i].name)),
            None => Err(Seq::empty()),
        },
        FieldKindV::Message(d) => match v {
            ValueV::Msg(inst) => enc_obj(inst, d),
            _ => Ok(JsonV::Null),
        },
        FieldKindV::Mapping(_, vk) => match v {
            ValueV::MapEntries(entries) => match enc_map_entries_from(vk, entries, 0) {
                Ok(ens) => Ok(JsonV::Obj(ens)),
                Err(p) => Err(p),
            },
            _ => Ok(JsonV::Null),
        },
    }
}

/// The JSON rendering of one map value.
pub open spec fn enc_mapval(vk: MapValKindV, v: ValueV) -> Result<JsonV, Seq<char>>
    decreases v, 2int, 0int,
{
    match vk {
        MapValKindV::Int32 => Ok(JsonV::Num(v->I32_0 as int)),
        MapValKindV::Int64 => Ok(JsonV::Str(dec_of_i64(v->I64_0))),
        MapValKindV::UInt32 => Ok(JsonV::Num(v->U32_0 as int)),
        MapValKindV::UInt64 => Ok(JsonV::Str(dec_of_u64(v->U64_0))),
        MapValKindV::Bool => Ok(JsonV::Bool(v->Bool_0)),
        MapValKindV::Str => Ok(JsonV::Str(v->Str_0)),
        MapValKindV::Bytes => Ok(JsonV::Str(b64_enc(v->Bytes_0))),
        MapValKindV::Enum(e) => match enum_number_from(e.entries, v->EnumNum_0, 0) {
            Some(i) => Ok(JsonV::Str(e.entries[i].name)),
            None => Err(Seq::empty()),
        },
        MapValKindV::Message(d) => match v {
            ValueV::Msg(inst) => enc_obj(inst, d),
            _ => Ok(JsonV::Null),
        },
    }
}

/// The renderings of the elements of a repeated field from index `i`
/// on.
pub open spec fn enc_list_from(k: FieldKindV, elems: Seq<ValueV>, i: int) -> Result<
    Seq<JsonV>,
    Seq<char>,
>
    decreases elems, 0int, elems.len() - i,
{
    if i < 0 || i >= elems.len() {
        Ok(Seq::empty())
    } else {
        match enc_value(k, elems[i]) {
            Err(p) => Err(p),
            Ok(j) => match enc_list_from(k, elems, i + 1) {
                Ok(rest) => Ok(seq![j] + rest),
                Err(p) => Err(p),
            },
        }
    }
}

/// The renderings of the entries of a map field from index `i` on.
pub open spec fn enc_map_entries_from(
    vk: MapValKindV,
    entries: Seq<(MapKeyV, ValueV)>,
    i: int,
) -> Result<Seq<(Seq<char>, JsonV)>, Seq<char>>
    decreases entries, 0int, entries.len() - i,
    via enc_map_entries_from_dec
{
    if i < 0 || i >= entries.len() {
        Ok(Seq::empty())
    } else {
        match enc_mapval(vk, entries[i].1) {
            Err(p) => Err(p),
            Ok(j) => match enc_map_entries_from(vk, entries, i + 1) {
                Ok(rest) => Ok(seq![(mapkey_string(entries[i].0), j)] + rest),
                Err(p) => Err(p),
            },
        }
    }
}

#[via_fn]
proof fn enc_map_entries_from_dec(vk: MapValKindV, entries: Seq<(MapKeyV, ValueV)>, i: int) {
    if 0 <= i < entries.len() {
        assert(decreases_to!(entries => entries[i]));
        assert(decreases_to!(entries[i] => entries[i].1));
    }
}

/// The emitted key/value pairs of the fields from index `m` on, in
/// declaration order.
pub open spec fn enc_fields(inst: InstanceV, d: MessageDescV, m: int) -> Result<
    Seq<(Seq<char>, JsonV)>,
    Seq<char>,
>
    decreases inst, 0int, d.fields.len() - m,
    via enc_fields_dec
{
    if m < 0 || m >= d.fields.len() || inst.slots.len() != d.fields.len() {
        Ok(Seq::empty())
    } else {
        let f = d.fields[m];
        match inst.slots[m] {
            None => enc_fields(inst, d, m + 1),
            Some(v) => if field_emitted(f, v) {
                let fj = if f.presence == Presence::Repeated {
                    match v {
                        ValueV::List(elems) => match enc_list_from(f.kind, elems, 0) {
                            Ok(js) => Ok(JsonV::Arr(js)),
                            Err(p) => Err(p),
                        },
                        _ => Ok(JsonV::Null),
                    }
                } else {
                    enc_value(f.kind, v)
                };
                match fj {
                    Err(p) => Err(path_join(f.json_name, p)),
                    Ok(j) => match enc_fields(inst, d, m + 1) {
                        Ok(rest) => Ok(seq![(f.json_name, j)] + rest),
                        Err(p) => Err(p),
                    },
                }
            } else {
                enc_fields(inst, d, m + 1)
            },
        }
    }
}

#[via_fn]
proof fn enc_fields_dec(inst: InstanceV, d: MessageDescV, m: int) {
    if 0 <= m < d.fields.len() && inst.slots.len() == d.fields.len() {
        assert(decreases_to!(inst => inst.slots));
        assert(decreases_to!(inst.slots => inst.slots[m]));
        match inst.slots[m] {
            Some(v) => {
                assert(decreases_to!(inst.slots[m] => v));
                assert(decreases_to!(inst => v));
                match v {
                    ValueV::List(elems) => {
                        assert(decreases_to!(v => elems));
                        assert(decreases_to!(inst => elems));
                    }
                    _ => {}
                }
            }
            None => {}
        }
    }
}

/// The JSON object of a whole instance.
pub open spec fn enc_obj(inst: InstanceV, d: MessageDescV) -> Result<JsonV, Seq<char>>
    decreases inst, 1int, 0int,
{
    match enc_fields(inst, d, 0) {
        Ok(ens) => Ok(JsonV::Obj(ens)),
        Err(p) => Err(p),
    }
}

/// What `encode` returns: the canonical JSON object of the instance,
/// or the dotted path of a set enum field whose numeric value its
/// table does not name.
pub open spec fn enc_instance(inst: InstanceV, d: MessageDescV) -> Result<JsonV, Seq<char>> {
    enc_obj(inst, d)
}


// ---------------------------------------------------------------------
// Executable encoder
// ---------------------------------------------------------------------

/// Whether a value is the zero value of its kind.
fn is_zero_exec(v: &Value) -> (r: bool)
    ensures
        r == is_zero_value(v@),
{
    match v {
        Value::I32(x) => *x == 0,
        Value::I64(x) => *x == 0,
        Value::U32(x) => *x == 0,
        Value::U64(x) => *x == 0,
        Value::Bool(x) => *x == false,
        Value::Str(s) => s.as_str().unicode_len() == 0,
        Value::Bytes(b) => b.len() == 0,
        Value::EnumNum(n) => *n == 0,
        Value::Msg(_) => false,
        Value::List(elems) => {
            proof {
                lemma_values_view(elems@);
            }
            elems.len() == 0
        }
        Value::MapEntries(entries) => {
            proof {
                lemma_map_entries_view(entries@);
            }
            entries.len() == 0
        }
    }
}

/// The symbolic name of a numeric enum value, cloned out of the table.
fn enum_name_of(e: &EnumDescriptor, num: i32) -> (r: Option<String>)
    ensures
        match r {
            Some(s) => enum_number_from(e@.entries, num, 0) matches Some(i) && s@
                == e@.entries[i].name,
            None => enum_number_from(e@.entries, num, 0) is None,
        },
{
    let n: usize = e.entries.len();
    let mut i: usize = 0;
    while i < n
        invariant
            i <= n,
            n == e.entries@.len(),
            n == e@.entries.len(),
            enum_number_from(e@.entries, num, 0) == enum_number_from(e@.entries, num, i as int),
        decreases n - i,
    {
        if e.entries[i].numeric_value == num {
            return Some(e.entries[i].symbolic_name.clone());
        }
        i = i + 1;
    }
    None
}

/// The JSON object key of a map key.
fn mapkey_to_string(k: &MapKey) -> (s: String)
    ensures
        s@ == mapkey_string(k@),
{
    match k {
        MapKey::I32(x) => i64_to_dec(*x as i64),
        MapKey::I64(x) => i64_to_dec(*x),
        MapKey::U32(x) => u64_to_dec(*x as u64),
        MapKey::U64(x) => u64_to_dec(*x),
        MapKey::Bool(b) => {
            proof {
                reveal_strlit("true");
                reveal_strlit("false");
                assert("true"@ =~= seq!['t', 'r', 'u', 'e']);
                assert("false"@ =~= seq!['f', 'a', 'l', 's', 'e']);
            }
            if *b {
                "true".to_owned()
            } else {
                "false".to_owned()
            }
        }
        MapKey::Str(s) => s.clone(),
    }
}

/// Renders one single (non-list) value.  An error carries the dotted
/// path below the current field.
fn encode_value_x(k: &FieldKind, v: &Value) -> (r: Result<Json, String>)
    requires
        value_wf(v@, k@),
    ensures
        match r {
            Ok(j) => enc_value(k@, v@) == Ok::<JsonV, Seq<char>>(j@),
            Err(p) => enc_value(k@, v@) == Err::<JsonV, Seq<char>>(p@),
        },
    decreases v, 2int, 0int,
{
    match k {
        FieldKind::Int32 => match v {
            Value::I32(x) => Ok(Json::Num(*x as i128)),
            _ => vstd::pervasive::unreached(),
        },
        FieldKind::Int64 => match v {
            Value::I64(x) => Ok(Json::Str(i64_to_dec(*x))),
            _ => vstd::pervasive::unreached(),
        },
        FieldKind::UInt32 => match v {
            Value::U32(x) => Ok(Json::Num(*x as i128)),
            _ => vstd::pervasive::unreached(),
        },
        FieldKind::UInt64 => match v {
            Value::U64(x) => Ok(Json::Str(u64_to_dec(*x))),
            _ => vstd::pervasive::unreached(),
        },
        FieldKind::Bool => match v {
            Value::Bool(x) => Ok(Json::Bool(*x)),
            _ => vstd::pervasive::unreached(),
        },
        FieldKind::Str => match v {
            Value::Str(s) => Ok(Json::Str(s.clone())),
            _ => vstd::pervasive::unreached(),
        },
        FieldKind::Bytes => match v {
            Value::Bytes(b) => Ok(Json::Str(b64_encode(b))),
            _ => vstd::pervasive::unreached(),
        },
        FieldKind::Enum(e) => match v {
            Value::EnumNum(n) => match enum_name_of(e, *n) {
                Some(s) => Ok(Json::Str(s)),
                None => Err(String::new()),
            },
            _ => vstd::pervasive::unreached(),
        },
        FieldKind::Message(d) => match v {
            Value::Msg(inst) => {
                proof {
                    assert(decreases_to!(v => inst));
                }
                encode_obj_x(inst, d)
            }
            _ => vstd::pervasive::unreached(),
        },
        FieldKind::Mapping(_, vk) => match v {
            Value::MapEntries(entries) => {
                proof {
                    assert(decreases_to!(v => entries));
                    match k@ {
                        FieldKindV::Mapping(kkv, vkv) => {
                            crate::value::lemma_map_entries_wf(
                                map_entries_view(entries@),
                                kkv,
                                vkv,
                            );
                        }
                        _ => {}
                    }
                }
                match encode_map_entries_x(vk, entries) {
                    Ok(ens) => Ok(Json::Obj(ens)),
                    Err(p) => Err(p),
                }
            }
            _ => vstd::pervasive::unreached(),
        },
    }
}

/// Renders one map value.
fn encode_mapval_x(vk: &MapValKind, v: &Value) -> (r: Result<Json, String>)
    requires
        mapval_value_wf(v@, vk@),
    ensures
        match r {
            Ok(j) => enc_mapval(vk@, v@) == Ok::<JsonV, Seq<char>>(j@),
            Err(p) => enc_mapval(vk@, v@) == Err::<JsonV, Seq<char>>(p@),
        },
    decreases v, 2int, 0int,
{
    match vk {
        MapValKind::Int32 => match v {
            Value::I32(x) => Ok(Json::Num(*x as i128)),
            _ => vstd::pervasive::unreached(),
        },
        MapValKind::Int64 => match v {
            Value::I64(x) => Ok(Json::Str(i64_to_dec(*x))),
            _ => vstd::pervasive::unreached(),
        },
        MapValKind::UInt32 => match v {
            Value::U32(x) => Ok(Json::Num(*x as i128)),
            _ => vstd::pervasive::unreached(),
        },
        MapValKind::UInt64 => match v {
            Value::U64(x) => Ok(Json::Str(u64_to_dec(*x))),
            _ => vstd::pervasive::unreached(),
        },
        MapValKind::Bool => match v {
            Value::Bool(x) => Ok(Json::Bool(*x)),
            _ => vstd::pervasive::unreached(),
        },
        MapValKind::Str => match v {
            Value::Str(s) => Ok(Json::Str(s.clone())),
            _ => vstd::pervasive::unreached(),
        },
        MapValKind::Bytes => match v {
            Value::Bytes(b) => Ok(Json::Str(b64_encode(b))),
            _ => vstd::pervasive::unreached(),
        },
        MapValKind::Enum(e) => match v {
            Value::EnumNum(n) => match enum_name_of(e, *n) {
                Some(s) => Ok(Json::Str(s)),
                None => Err(String::new()),
            },
            _ => vstd::pervasive::unreached(),
        },
        MapValKind::Message(d) => match v {
            Value::Msg(inst) => {
                proof {
                    assert(decreases_to!(v => inst));
                }
                encode_obj_x(inst, d)
            }
            _ => vstd::pervasive::unreached(),
        },
    }
}

/// Renders the elements of a repeated field.
fn encode_list_x(k: &FieldKind, elems: &Vec<Value>) -> (r: Result<Vec<Json>, String>)
    requires
        values_wf(values_view(elems@), k@),
    ensures
        match r {
            Ok(js) => enc_list_from(k@, values_view(elems@), 0) == Ok::<_, Seq<char>>(
                jsons_view(js@),
            ),
            Err(p) => enc_list_from(k@, values_view(elems@), 0) == Err::<Seq<JsonV>, _>(p@),
        },
    decreases elems, 1int, 0int,
{
    let ghost vals = values_view(elems@);
    proof {
        lemma_values_view(elems@);
        lemma_values_wf(vals, k@);
    }
    let n: usize = elems.len();
    let mut out: Vec<Json> = Vec::new();
    let mut i: usize = 0;
    proof {
        match enc_list_from(k@, vals, 0) {
            Ok(rest) => {
                assert(jsons_view(out@) + rest =~= rest);
            }
            Err(_) => {}
        }
    }
    while i < n
        invariant
            i <= n,
            n == elems@.len(),
            vals == values_view(elems@),
            vals.len() == n,
            forall|t: int| 0 <= t < n ==> vals[t] == value_view(elems@[t]),
            forall|t: int| 0 <= t < n ==> value_wf(#[trigger] vals[t], k@),
            ({
                match enc_list_from(k@, vals, i as int) {
                    Ok(rest) => enc_list_from(k@, vals, 0) == Ok::<_, Seq<char>>(
                        jsons_view(out@) + rest,
                    ),
                    Err(p) => enc_list_from(k@, vals, 0) == Err::<Seq<JsonV>, _>(p),
                }
            }),
        decreases n - i,
    {
        proof {
            assert(decreases_to!(elems => elems@));
            assert(decreases_to!(elems@ => elems@[i as int]));
        }
        let j = match encode_value_x(k, &elems[i]) {
            Ok(j) => j,
            Err(p) => {
                return Err(p);
            }
        };
        let ghost out_old = out@;
        out.push(j);
        proof {
            lemma_jsons_view(out_old);
            lemma_jsons_view(out@);
            assert(jsons_view(out@) =~= jsons_view(out_old) + seq![json_view(j)]);
            match enc_list_from(k@, vals, i + 1) {
                Ok(rest) => {
                    assert((jsons_view(out_old) + (seq![json_view(j)] + rest)) =~= (jsons_view(
                        out@,
                    ) + rest));
                }
                Err(_) => {}
            }
        }
        i = i + 1;
    }
    proof {
        match enc_list_from(k@, vals, n as int) {
            Ok(rest) => {
                assert(jsons_view(out@) + rest =~= jsons_view(out@));
            }
            Err(_) => {}
        }
    }
    Ok(out)
}

/// Renders the entries of a map field.
fn encode_map_entries_x(vk: &MapValKind, entries: &Vec<(MapKey, Value)>) -> (r: Result<
    Vec<(String, Json)>,
    String,
>)
    requires
        map_entries_values_wf(map_entries_view(entries@), vk@),
    ensures
        match r {
            Ok(ens) => enc_map_entries_from(vk@, map_entries_view(entries@), 0) == Ok::<
                _,
                Seq<char>,
            >(entries_view(ens@)),
            Err(p) => enc_map_entries_from(vk@, map_entries_view(entries@), 0) == Err::<
                Seq<(Seq<char>, JsonV)>,
                _,
            >(p@),
        },
    decreases entries, 1int, 0int,
{
    let ghost ens = map_entries_view(entries@);
    proof {
        lemma_map_entries_view(entries@);
    }
    let n: usize = entries.len();
    let mut out: Vec<(String, Json)> = Vec::new();
    let mut i: usize = 0;
    proof {
        match enc_map_entries_from(vk@, ens, 0) {
            Ok(rest) => {
                assert(entries_view(out@) + rest =~= rest);
            }
            Err(_) => {}
        }
    }
    while i < n
        invariant
            i <= n,
            n == entries@.len(),
            ens == map_entries_view(entries@),
            ens.len() == n,
            forall|t: int|
                0 <= t < n ==> ens[t] == (mapkey_view(entries@[t].0), value_view(entries@[t].1)),
            forall|t: int| 0 <= t < n ==> mapval_value_wf(#[trigger] ens[t].1, vk@),
            ({
                match enc_map_entries_from(vk@, ens, i as int) {
                    Ok(rest) => enc_map_entries_from(vk@, ens, 0) == Ok::<_, Seq<char>>(
                        entries_view(out@) + rest,
                    ),
                    Err(p) => enc_map_entries_from(vk@, ens, 0) == Err::<
                        Seq<(Seq<char>, JsonV)>,
                        _,
                    >(p),
                }
            }),
        decreases n - i,
    {
        proof {
            assert(decreases_to!(entries => entries@));
            assert(decreases_to!(entries@ => entries@[i as int]));
            assert(decreases_to!(entries@[i as int] => entries@[i as int].1));
        }
        let key = mapkey_to_string(&entries[i].0);
        let j = match encode_mapval_x(vk, &entries[i].1) {
            Ok(j) => j,
            Err(p) => {
                return Err(p);
            }
        };
        let ghost out_old = out@;
        out.push((key, j));
        proof {
            lemma_entries_view(out_old);
            lemma_entries_view(out@);
            assert(entries_view(out@) =~= entries_view(out_old) + seq![
                (mapkey_string(ens[i as int].0), json_view(j)),
            ]);
            match enc_map_entries_from(vk@, ens, i + 1) {
                Ok(rest) => {
                    assert((entries_view(out_old) + (seq![
                        (mapkey_string(ens[i as int].0), json_view(j)),
                    ] + rest)) =~= (entries_view(out@) + rest));
                }
                Err(_) => {}
            }
        }
        i = i + 1;
    }
    proof {
        match enc_map_entries_from(vk@, ens, n as int) {
            Ok(rest) => {
                assert(entries_view(out@) + rest =~= entries_view(out@));
            }
            Err(_) => {}
        }
    }
    Ok(out)
}

/// Renders the emitted fields of an instance, in declaration order.
fn encode_fields_x(inst: &Instance, d: &MessageDescriptor) -> (r: Result<
    Vec<(String, Json)>,
    String,
>)
    requires
        crate::value::instance_wf(inst@, d@),
    ensures
        match r {
            Ok(ens) => enc_fields(inst@, d@, 0) == Ok::<_, Seq<char>>(entries_view(ens@)),
            Err(p) => enc_fields(inst@, d@, 0) == Err::<Seq<(Seq<char>, JsonV)>, _>(p@),
        },
    decreases inst, 0int, 0int,
{
    proof {
        lemma_slots_view(inst.slots@);
        lemma_fields_view(d.fields@);
        lemma_slots_wf(inst@.slots, d@.fields);
    }
    let n: usize = d.fields.len();
    let mut out: Vec<(String, Json)> = Vec::new();
    let mut m: usize = 0;
    proof {
        match enc_fields(inst@, d@, 0) {
            Ok(rest) => {
                assert(entries_view(out@) + rest =~= rest);
            }
            Err(_) => {}
        }
    }
    while m < n
        invariant
            m <= n,
            n == d.fields@.len(),
            n == d@.fields.len(),
            n == inst.slots@.len(),
            n == inst@.slots.len(),
            crate::value::instance_wf(inst@, d@),
            forall|t: int| 0 <= t < n ==> d@.fields[t] == field_view(d.fields@[t]),
            forall|t: int|
                0 <= t < n ==> inst@.slots[t] == (match inst.slots@[t] {
                    Some(v) => Some(value_view(v)),
                    None => None,
                }),
            forall|t: int|
                0 <= t < n ==> crate::value::slot_wf(#[trigger] inst@.slots[t], d@.fields[t]),
            ({
                match enc_fields(inst@, d@, m as int) {
                    Ok(rest) => enc_fields(inst@, d@, 0) == Ok::<_, Seq<char>>(
                        entries_view(out@) + rest,
                    ),
                    Err(p) => enc_fields(inst@, d@, 0) == Err::<Seq<(Seq<char>, JsonV)>, _>(p),
                }
            }),
        decreases n - m,
    {
        let f = &d.fields[m];
        let ghost fv = d@.fields[m as int];
        match &inst.slots[m] {
            None => {}
            Some(v) => {
                proof {
                    assert(decreases_to!(inst => inst.slots));
                    assert(decreases_to!(inst.slots => inst.slots@));
                    assert(decreases_to!(inst.slots@ => inst.slots@[m as int]));
                    assert(inst.slots@[m as int] matches Some(vv) && vv == *v);
                    assert(decreases_to!(inst.slots@[m as int] => v));
                }
                let emitted: bool = match f.presence {
                    Presence::Optional => true,
                    Presence::Repeated => match v {
                        Value::List(elems) => {
                            proof {
                                lemma_values_view(elems@);
                            }
                            elems.len() > 0
                        }
                        _ => vstd::pervasive::unreached(),
                    },
                    Presence::Singular => f.oneof_group.is_some() || !is_zero_exec(v),
                };
                if emitted {
                    let fj: Result<Json, String> = match f.presence {
                        Presence::Repeated => match v {
                            Value::List(elems) => {
                                proof {
                                    assert(decreases_to!(v => elems));
                                }
                                match encode_list_x(&f.kind, elems) {
                                    Ok(js) => Ok(Json::Arr(js)),
                                    Err(p) => Err(p),
                                }
                            }
                            _ => vstd::pervasive::unreached(),
                        },
                        _ => encode_value_x(&f.kind, v),
                    };
                    match fj {
                        Err(p) => {
                            return Err(path_join_exec(&f.json_name, &p));
                        }
                        Ok(j) => {
                            let ghost out_old = out@;
                            out.push((f.json_name.clone(), j));
                            proof {
                                lemma_entries_view(out_old);
                                lemma_entries_view(out@);
                                assert(entries_view(out@) =~= entries_view(out_old) + seq![
                                    (fv.json_name, json_view(j)),
                                ]);
                                match enc_fields(inst@, d@, m + 1) {
                                    Ok(rest) => {
                                        assert((entries_view(out_old) + (seq![
                                            (fv.json_name, json_view(j)),
                                        ] + rest)) =~= (entries_view(out@) + rest));
                                    }
                                    Err(_) => {}
                                }
                            }
                        }
                    }
                }
            }
        }
        m = m + 1;
    }
    proof {
        match enc_fields(inst@, d@, n as int) {
            Ok(rest) => {
                assert(entries_view(out@) + rest =~= entries_view(out@));
            }
            Err(_) => {}
        }
    }
    Ok(out)
}

/// Renders a whole instance as a JSON object.
fn encode_obj_x(inst: &Instance, d: &MessageDescriptor) -> (r: Result<Json, String>)
    requires
        crate::value::instance_wf(inst@, d@),
    ensures
        match r {
            Ok(j) => enc_obj(inst@, d@) == Ok::<JsonV, Seq<char>>(j@),
            Err(p) => enc_obj(inst@, d@) == Err::<JsonV, Seq<char>>(p@),
        },
    decreases inst, 1int, 0int,
{
    match encode_fields_x(inst, d) {
        Ok(ens) => Ok(Json::Obj(ens)),
        Err(p) => Err(p),
    }
}

/// Encodes an instance of the described message as canonical JSON.
///
/// Encoding cannot fail on a well-formed instance except on a set enum
/// field whose numeric value its table does not name; the error then
/// carries the dotted path of that field.
pub fn encode(inst: &Instance, desc: &MessageDescriptor) -> (r: Result<Json, EncodeError>)
    requires
        crate::value::instance_wf(inst@, desc@),
    ensures
        match r {
            Ok(j) => enc_instance(inst@, desc@) == Ok::<JsonV, Seq<char>>(j@),
            Err(e) => e matches EncodeError::UnknownEnumValue(p) && enc_instance(inst@, desc@)
                == Err::<JsonV, Seq<char>>(p@),
        },
{
    match encode_obj_x(inst, desc) {
        Ok(j) => Ok(j),
        Err(p) => Err(EncodeError::UnknownEnumValue(p)),
    }
}

/// Whether every map value in a sequence of entries fits the value
/// kind.
pub open spec fn map_entries_values_wf(s: Seq<(MapKeyV, ValueV)>, vk: MapValKindV) -> bool {
    forall|i: int| 0 <= i < s.len() ==> mapval_value_wf(#[trigger] s[i].1, vk)
}

} // verus!
