//! The decoder: schema-validated parsing of a JSON tree back into an
//! instance.
//!
//! A single pass over the object's key/value pairs: each key is
//! resolved through the dual-casing field name lookup; an unresolved
//! key is ignored (lenient mode) or rejected (strict mode); a key whose
//! field, or whose oneof group, was already fed in the same object is a
//! duplicate; a resolved value is parsed by the field's kind, accepting
//! a JSON number or a decimal string for integer fields, base64 for
//! bytes, a symbolic name or a known numeric value for enums, and
//! recursing for nested messages, arrays and maps.  The first error
//! aborts the decode; fields absent from the input stay unset.  A JSON
//! `null` is not a valid rendering of any field kind and is rejected as
//! a type mismatch.

use vstd::prelude::*;

use crate::b64::{b64_dec, b64_decode};
use crate::errors::{path_join, path_join_exec, DecErrKind, DecErrV, DecodeError};
use crate::json::{entries_view, json_view, jsons_view, lemma_entries_view, lemma_jsons_view, Json, JsonV};
use crate::num::{parse_dec_sint, parse_dec_uint, parse_sint, parse_uint};
use crate::schema::{enum_name_from, enum_number_from, field_view, lemma_fields_view, resolve_key, EnumDescriptor, EnumDescV, FieldDescriptor, FieldDescV, FieldKind, FieldKindV, MapKeyKind, MapValKind, MapValKindV, MessageDescriptor, MessageDescV, Presence};
use crate::strutil::str_chars;
use crate::value::{lemma_map_entries_view, lemma_slots_view, lemma_values_view, map_entries_view, mapkey_view, slots_view, value_view, values_view, Instance, InstanceV, MapKey, MapKeyV, Value, ValueV};

verus! {

broadcast use vstd::seq::group_seq_axioms, vstd::std_specs::vec::group_vec_axioms;

/// All slots unset.
pub open spec fn none_slots(n: int) -> Seq<Option<ValueV>> {
    Seq::new(n as nat, |i: int| None::<ValueV>)
}

/// What a JSON value means for an unsigned integer field.
pub open spec fn dec_uint_json(j: JsonV, max: int) -> Result<int, DecErrKind> {
    match j {
        JsonV::Num(n) => if 0 <= n <= max {
            Ok(n)
        } else {
            Err(DecErrKind::InvalidNumber)
        },
        JsonV::Str(s) => match parse_uint(s, max) {
            Some(v) => Ok(v),
            None => Err(DecErrKind::InvalidNumber),
        },
        _ => Err(DecErrKind::TypeMismatch),
    }
}

/// What a JSON value means for a signed integer field.
pub open spec fn dec_sint_json(j: JsonV, min: int, max: int) -> Result<int, DecErrKind> {
    match j {
        JsonV::Num(n) => if min <= n <= max {
            Ok(n)
        } else {
            Err(DecErrKind::InvalidNumber)
        },
        JsonV::Str(s) => match parse_sint(s, min, max) {
            Some(v) => Ok(v),
            None => Err(DecErrKind::InvalidNumber),
        },
        _ => Err(DecErrKind::TypeMismatch),
    }
}

/// What a JSON value means for an enum field: a known symbolic name,
/// or a known numeric value.
pub open spec fn dec_enum_json(e: EnumDescV, j: JsonV) -> Result<i32, DecErrKind> {
    match j {
        JsonV::Str(s) => match enum_name_from(e.entries, s, 0) {
            Some(i) => Ok(e.entries[i].number),
            None => Err(DecErrKind::UnknownEnumValue),
        },
        JsonV::Num(n) => if i32::MIN <= n <= i32::MAX && enum_number_from(e.entries, n as i32, 0)
            is Some {
            Ok(n as i32)
        } else {
            Err(DecErrKind::UnknownEnumValue)
        },
        _ => Err(DecErrKind::TypeMismatch),
    }
}

/// What a JSON object key means as a map key.
pub open spec fn parse_mapkey(kk: MapKeyKind, s: Seq<char>) -> Option<MapKeyV> {
    match kk {
        MapKeyKind::Int32 => match parse_sint(s, i32::MIN as int, i32::MAX as int) {
            Some(v) => Some(MapKeyV::I32(v as i32)),
            None => None,
        },
        MapKeyKind::Int64 => match parse_sint(s, i64::MIN as int, i64::MAX as int) {
            Some(v) => Some(MapKeyV::I64(v as i64)),
            None => None,
        },
        MapKeyKind::UInt32 => match parse_uint(s, u32::MAX as int) {
            Some(v) => Some(MapKeyV::U32(v as u32)),
            None => None,
        },
        MapKeyKind::UInt64 => match parse_uint(s, u64::MAX as int) {
            Some(v) => Some(MapKeyV::U64(v as u64)),
            None => None,
        },
        MapKeyKind::Bool => if s == seq!['t', 'r', 'u', 'e'] {
            Some(MapKeyV::Bool(true))
        } else if s == seq!['f', 'a', 'l', 's', 'e'] {
            Some(MapKeyV::Bool(false))
        } else {
            None
        },
        MapKeyKind::Str => Some(MapKeyV::Str(s)),
    }
}

/// The error kind of a malformed map key.
pub open spec fn mapkey_err_kind(kk: MapKeyKind) -> DecErrKind {
    match kk {
        MapKeyKind::Bool => DecErrKind::TypeMismatch,
        _ => DecErrKind::InvalidNumber,
    }
}

/// Whether some other member of `fi`'s oneof group is already set.
pub open spec fn group_conflict(
    slots: Seq<Option<ValueV>>,
    fields: Seq<FieldDescV>,
    fi: int,
) -> bool {
    exists|j: int|
        0 <= j < fields.len() && j != fi && fields[fi].oneof_group is Some
            && fields[j].oneof_group == fields[fi].oneof_group && slots[j] is Some
}

/// What a JSON value means for one single (non-list) field value.  An
/// error's path is relative to the field.
pub open spec fn dec_value(k: FieldKindV, j: JsonV, strict: bool) -> Result<ValueV, DecErrV>
    decreases j, 1int, 0int,
{
    match k {
        FieldKindV::Int32 => match dec_sint_json(j, i32::MIN as int, i32::MAX as int) {
            Ok(v) => Ok(ValueV::I32(v as i32)),
            Err(kind) => Err(DecErrV { kind, path: Seq::empty() }),
        },
        FieldKindV::Int64 => match dec_sint_json(j, i64::MIN as int, i64::MAX as int) {
            Ok(v) => Ok(ValueV::I64(v as i64)),
            Err(kind) => Err(DecErrV { kind, path: Seq::empty() }),
        },
        FieldKindV::UInt32 => match dec_uint_json(j, u32::MAX as int) {
            Ok(v) => Ok(ValueV::U32(v as u32)),
            Err(kind) => Err(DecErrV { kind, path: Seq::empty() }),
        },
        FieldKindV::UInt64 => match dec_uint_json(j, u64::MAX as int) {
            Ok(v) => Ok(ValueV::U64(v as u64)),
            Err(kind) => Err(DecErrV { kind, path: Seq::empty() }),
        },
        FieldKindV::Bool => match j {
            JsonV::Bool(b) => Ok(ValueV::Bool(b)),
            _ => Err(DecErrV { kind: DecErrKind::TypeMismatch, path: Seq::empty() }),
        },
        FieldKindV::Str => match j {
            JsonV::Str(s) => Ok(ValueV::Str(s)),
            _ => Err(DecErrV { kind: DecErrKind::TypeMismatch, path: Seq::empty() }),
        },
        FieldKindV::Bytes => match j {
            JsonV::Str(s) => match b64_dec(s) {
                Some(b) => Ok(ValueV::Bytes(b)),
                None => Err(DecErrV { kind: DecErrKind::InvalidBytes, path: Seq::empty() }),
            },
            _ => Err(DecErrV { kind: DecErrKind::TypeMismatch, path: Seq::empty() }),
        },
        FieldKindV::Enum(e) => match dec_enum_json(e, j) {
            Ok(n) => Ok(ValueV::EnumNum(n)),
            Err(kind) => Err(DecErrV { kind, path: Seq::empty() }),
        },
        FieldKindV::Message(d) => match j {
            JsonV::Obj(entries) => match dec_entries(
                entries,
                none_slots(d.fields.len() as int),
                d,
                strict,
            ) {
                Ok(slots) => Ok(ValueV::Msg(InstanceV { slots })),
                Err(e) => Err(e),
            },
            _ => Err(DecErrV { kind: DecErrKind::TypeMismatch, path: Seq::empty() }),
        },
        FieldKindV::Mapping(kk, vk) => match j {
            JsonV::Obj(entries) => match dec_map_entries_from(kk, vk, entries, 0, strict) {
                Ok(es) => Ok(ValueV::MapEntries(es)),
                Err(e) => Err(e),
            },
            _ => Err(DecErrV { kind: DecErrKind::TypeMismatch, path: Seq::empty() }),
        },
    }
}

/// What a JSON value means for one map value.
pub open spec fn dec_mapval(vk: MapValKindV, j: JsonV, strict: bool) -> Result<ValueV, DecErrV>
    decreases j, 1int, 0int,
{
    match vk {
        MapValKindV::Int32 => match dec_sint_json(j, i32::MIN as int, i32::MAX as int) {
            Ok(v) => Ok(ValueV::I32(v as i32)),
            Err(kind) => Err(DecErrV { kind, path: Seq::empty() }),
        },
        MapValKindV::Int64 => match dec_sint_json(j, i64::MIN as int, i64::MAX as int) {
            Ok(v) => Ok(ValueV::I64(v as i64)),
            Err(kind) => Err(DecErrV { kind, path: Seq::empty() }),
        },
        MapValKindV::UInt32 => match dec_uint_json(j, u32::MAX as int) {
            Ok(v) => Ok(ValueV::U32(v as u32)),
            Err(kind) => Err(DecErrV { kind, path: Seq::empty() }),
        },
        MapValKindV::UInt64 => match dec_uint_json(j, u64::MAX as int) {
            Ok(v) => Ok(ValueV::U64(v as u64)),
            Err(kind) => Err(DecErrV { kind, path: Seq::empty() }),
        },
        MapValKindV::Bool => match j {
            JsonV::Bool(b) => Ok(ValueV::Bool(b)),
            _ => Err(DecErrV { kind: DecErrKind::TypeMismatch, path: Seq::empty() }),
        },
        MapValKindV::Str => match j {
            JsonV::Str(s) => Ok(ValueV::Str(s)),
            _ => Err(DecErrV { kind: DecErrKind::TypeMismatch, path: Seq::empty() }),
        },
        MapValKindV::Bytes => match j {
            JsonV::Str(s) => match b64_dec(s) {
                Some(b) => Ok(ValueV::Bytes(b)),
                None => Err(DecErrV { kind: DecErrKind::InvalidBytes, path: Seq::empty() }),
            },
            _ => Err(DecErrV { kind: DecErrKind::TypeMismatch, path: Seq::empty() }),
        },
        MapValKindV::Enum(e) => match dec_enum_json(e, j) {
            Ok(n) => Ok(ValueV::EnumNum(n)),
            Err(kind) => Err(DecErrV { kind, path: Seq::empty() }),
        },
        MapValKindV::Message(d) => match j {
            JsonV::Obj(entries) => match dec_entries(
                entries,
                none_slots(d.fields.len() as int),
                d,
                strict,
            ) {
                Ok(slots) => Ok(ValueV::Msg(InstanceV { slots })),
                Err(e) => Err(e),
            },
            _ => Err(DecErrV { kind: DecErrKind::TypeMismatch, path: Seq::empty() }),
        },
    }
}

/// The elements of a repeated field from index `i` on.
pub open spec fn dec_elems_from(
    k: FieldKindV,
    jsons: Seq<JsonV>,
    i: int,
    strict: bool,
) -> Result<Seq<ValueV>, DecErrV>
    decreases jsons, 0int, jsons.len() - i,
{
    if i < 0 || i >= jsons.len() {
        Ok(Seq::empty())
    } else {
        match dec_value(k, jsons[i], strict) {
            Err(e) => Err(e),
            Ok(v) => match dec_elems_from(k, jsons, i + 1, strict) {
                Ok(rest) => Ok(seq![v] + rest),
                Err(e) => Err(e),
            },
        }
    }
}

/// The entries of a map field from index `i` on.
pub open spec fn dec_map_entries_from(
    kk: MapKeyKind,
    vk: MapValKindV,
    entries: Seq<(Seq<char>, JsonV)>,
    i: int,
    strict: bool,
) -> Result<Seq<(MapKeyV, ValueV)>, DecErrV>
    decreases entries, 0int, entries.len() - i,
    via dec_map_entries_from_dec
{
    if i < 0 || i >= entries.len() {
        Ok(Seq::empty())
    } else {
        match parse_mapkey(kk, entries[i].0) {
            None => Err(DecErrV { kind: mapkey_err_kind(kk), path: Seq::empty() }),
            Some(key) => match dec_mapval(vk, entries[i].1, strict) {
                Err(e) => Err(e),
                Ok(v) => match dec_map_entries_from(kk, vk, entries, i + 1, strict) {
                    Ok(rest) => Ok(seq![(key, v)] + rest),
                    Err(e) => Err(e),
                },
            },
        }
    }
}

#[via_fn]
proof fn dec_map_entries_from_dec(
    kk: MapKeyKind,
    vk: MapValKindV,
    entries: Seq<(Seq<char>, JsonV)>,
    i: int,
    strict: bool,
) {
    if 0 <= i < entries.len() {
        assert(decreases_to!(entries => entries[i]));
        assert(decreases_to!(entries[i] => entries[i].1));
    }
}

/// What a JSON value means for one field slot: an array of elements
/// for a repeated field, a single value otherwise.
pub open spec fn dec_field_value(f: FieldDescV, j: JsonV, strict: bool) -> Result<ValueV, DecErrV>
    decreases j, 2int, 0int,
{
    if f.presence == Presence::Repeated {
        match j {
            JsonV::Arr(jsons) => match dec_elems_from(f.kind, jsons, 0, strict) {
                Ok(vs) => Ok(ValueV::List(vs)),
                Err(e) => Err(e),
            },
            _ => Err(DecErrV { kind: DecErrKind::TypeMismatch, path: Seq::empty() }),
        }
    } else {
        dec_value(f.kind, j, strict)
    }
}

/// One pass over an object's key/value pairs, filling slots.  Errors
/// carry the field's canonical JSON name (for an unknown field, the
/// supplied key).
pub open spec fn dec_entries(
    entries: Seq<(Seq<char>, JsonV)>,
    slots: Seq<Option<ValueV>>,
    d: MessageDescV,
    strict: bool,
) -> Result<Seq<Option<ValueV>>, DecErrV>
    decreases entries, 3int, 0int,
    via dec_entries_dec
{
    if entries.len() == 0 {
        Ok(slots)
    } else {
        let key = entries[0].0;
        let jv = entries[0].1;
        let rest = entries.subrange(1, entries.len() as int);
        match resolve_key(d, key) {
            None => if strict {
                Err(DecErrV { kind: DecErrKind::UnknownField, path: key })
            } else {
                dec_entries(rest, slots, d, strict)
            },
            Some(fi) => {
                let f = d.fields[fi];
                if slots[fi] is Some {
                    Err(DecErrV { kind: DecErrKind::DuplicateField, path: f.json_name })
                } else if group_conflict(slots, d.fields, fi) {
                    Err(DecErrV { kind: DecErrKind::DuplicateField, path: f.json_name })
                } else {
                    match dec_field_value(f, jv, strict) {
                        Err(e) => Err(
                            DecErrV { kind: e.kind, path: path_join(f.json_name, e.path) },
                        ),
                        Ok(v) => dec_entries(rest, slots.update(fi, Some(v)), d, strict),
                    }
                }
            },
        }
    }
}

#[via_fn]
proof fn dec_entries_dec(
    entries: Seq<(Seq<char>, JsonV)>,
    slots: Seq<Option<ValueV>>,
    d: MessageDescV,
    strict: bool,
) {
    if entries.len() > 0 {
        assert(decreases_to!(entries => entries[0]));
        assert(decreases_to!(entries[0] => entries[0].1));
        assert(decreases_to!(entries => entries.subrange(1, entries.len() as int)));
    }
}

/// What `decode` returns: the instance described by a JSON object, or
/// the first error of the pass.
pub open spec fn dec_instance(j: JsonV, d: MessageDescV, strict: bool) -> Result<
    InstanceV,
    DecErrV,
> {
    match j {
        JsonV::Obj(entries) => match dec_entries(
            entries,
            none_slots(d.fields.len() as int),
            d,
            strict,
        ) {
            Ok(slots) => Ok(InstanceV { slots }),
            Err(e) => Err(e),
        },
        _ => Err(DecErrV { kind: DecErrKind::TypeMismatch, path: Seq::empty() }),
    }
}


// ---------------------------------------------------------------------
// Executable decoder
// ---------------------------------------------------------------------

/// Rewraps an error whose path is relative to a field under that
/// field's name.
fn with_field_path(e: DecodeError, name: &String) -> (r: DecodeError)
    ensures
        r@ == (DecErrV { kind: e@.kind, path: path_join(name@, e@.path) }),
{
    match e {
        DecodeError::UnknownField(p) => DecodeError::UnknownField(path_join_exec(name, &p)),
        DecodeError::DuplicateField(p) => DecodeError::DuplicateField(path_join_exec(name, &p)),
        DecodeError::InvalidNumber(p) => DecodeError::InvalidNumber(path_join_exec(name, &p)),
        DecodeError::InvalidBytes(p) => DecodeError::InvalidBytes(path_join_exec(name, &p)),
        DecodeError::UnknownEnumValue(p) => DecodeError::UnknownEnumValue(
            path_join_exec(name, &p),
        ),
        DecodeError::TypeMismatch(p) => DecodeError::TypeMismatch(path_join_exec(name, &p)),
    }
}

/// Builds a decode error of the given kind with the given path.
fn err_of_kind(kind: DecErrKind, path: String) -> (r: DecodeError)
    ensures
        r@ == (DecErrV { kind, path: path@ }),
{
    match kind {
        DecErrKind::UnknownField => DecodeError::UnknownField(path),
        DecErrKind::DuplicateField => DecodeError::DuplicateField(path),
        DecErrKind::InvalidNumber => DecodeError::InvalidNumber(path),
        DecErrKind::InvalidBytes => DecodeError::InvalidBytes(path),
        DecErrKind::UnknownEnumValue => DecodeError::UnknownEnumValue(path),
        DecErrKind::TypeMismatch => DecodeError::TypeMismatch(path),
    }
}

/// The index of the first enum row with this symbolic name.
fn enum_index_of_name_x(e: &EnumDescriptor, s: &String) -> (r: Option<usize>)
    ensures
        match r {
            Some(i) => enum_name_from(e@.entries, s@, 0) == Some(i as int) && i
                < e.entries@.len(),
            None => enum_name_from(e@.entries, s@, 0) is None,
        },
{
    let n: usize = e.entries.len();
    let mut i: usize = 0;
    while i < n
        invariant
            i <= n,
            n == e.entries@.len(),
            n == e@.entries.len(),
            enum_name_from(e@.entries, s@, 0) == enum_name_from(e@.entries, s@, i as int),
        decreases n - i,
    {
        if e.entries[i].symbolic_name == *s {
            return Some(i);
        }
        i = i + 1;
    }
    None
}

/// Whether the table names this numeric value.
fn enum_has_number_x(e: &EnumDescriptor, num: i32) -> (r: bool)
    ensures
        r == (enum_number_from(e@.entries, num, 0) is Some),
{
    let n: usize = e.entries.len();
    let mut i: usize = 0;
    while i < n
        invariant
            i <= n,
            n == e.entries@.len(),
            n == e@.entries.len(),
            enum_number_from(e@.entries, num, 0) == enum_number_from(e@.entries, num, i as int),
        decreases n - i,
    {
        if e.entries[i].numeric_value == num {
            return true;
        }
        i = i + 1;
    }
    false
}

/// Parses a JSON value as an unsigned integer of at most `max`.
fn decode_uint_x(j: &Json, max: u64) -> (r: Result<u64, DecErrKind>)
    ensures
        match r {
            Ok(v) => dec_uint_json(j@, max as int) == Ok::<int, DecErrKind>(v as int),
            Err(kind) => dec_uint_json(j@, max as int) == Err::<int, DecErrKind>(kind),
        },
{
    match j {
        Json::Num(n) => {
            if 0 <= *n && *n <= max as i128 {
                Ok(*n as u64)
            } else {
                Err(DecErrKind::InvalidNumber)
            }
        }
        Json::Str(s) => {
            let chars = str_chars(s.as_str());
            match crate::num::parse_dec_uint(&chars, max) {
                Some(v) => Ok(v),
                None => Err(DecErrKind::InvalidNumber),
            }
        }
        _ => Err(DecErrKind::TypeMismatch),
    }
}

/// Parses a JSON value as a signed integer within `min ..= max`.
fn decode_sint_x(j: &Json, min: i64, max: i64) -> (r: Result<i64, DecErrKind>)
    requires
        min <= 0 <= max,
    ensures
        match r {
            Ok(v) => dec_sint_json(j@, min as int, max as int) == Ok::<int, DecErrKind>(v as int),
            Err(kind) => dec_sint_json(j@, min as int, max as int) == Err::<int, DecErrKind>(
                kind,
            ),
        },
{
    match j {
        Json::Num(n) => {
            if min as i128 <= *n && *n <= max as i128 {
                Ok(*n as i64)
            } else {
                Err(DecErrKind::InvalidNumber)
            }
        }
        Json::Str(s) => {
            let chars = str_chars(s.as_str());
            match parse_dec_sint(&chars, min, max) {
                Some(v) => Ok(v),
                None => Err(DecErrKind::InvalidNumber),
            }
        }
        _ => Err(DecErrKind::TypeMismatch),
    }
}

/// Parses a JSON value as an enum number, by symbolic name or by a
/// known numeric value.
fn decode_enum_x(e: &EnumDescriptor, j: &Json) -> (r: Result<i32, DecErrKind>)
    ensures
        match r {
            Ok(v) => dec_enum_json(e@, j@) == Ok::<i32, DecErrKind>(v),
            Err(kind) => dec_enum_json(e@, j@) == Err::<i32, DecErrKind>(kind),
        },
{
    match j {
        Json::Str(s) => match enum_index_of_name_x(e, s) {
            Some(i) => Ok(e.entries[i].numeric_value),
            None => Err(DecErrKind::UnknownEnumValue),
        },
        Json::Num(n) => {
            if i32::MIN as i128 <= *n && *n <= i32::MAX as i128 && enum_has_number_x(
                e,
                *n as i32,
            ) {
                Ok(*n as i32)
            } else {
                Err(DecErrKind::UnknownEnumValue)
            }
        }
        _ => Err(DecErrKind::TypeMismatch),
    }
}

/// Parses a JSON object key as a map key.
fn parse_mapkey_x(kk: &MapKeyKind, s: &String) -> (r: Option<MapKey>)
    ensures
        match r {
            Some(k) => parse_mapkey(*kk, s@) == Some(k@),
            None => parse_mapkey(*kk, s@) is None,
        },
{
    match kk {
        MapKeyKind::Int32 => {
            let chars = str_chars(s.as_str());
            match parse_dec_sint(&chars, i32::MIN as i64, i32::MAX as i64) {
                Some(v) => Some(MapKey::I32(v as i32)),
                None => None,
            }
        }
        MapKeyKind::Int64 => {
            let chars = str_chars(s.as_str());
            match parse_dec_sint(&chars, i64::MIN, i64::MAX) {
                Some(v) => Some(MapKey::I64(v)),
                None => None,
            }
        }
        MapKeyKind::UInt32 => {
            let chars = str_chars(s.as_str());
            match crate::num::parse_dec_uint(&chars, u32::MAX as u64) {
                Some(v) => Some(MapKey::U32(v as u32)),
                None => None,
            }
        }
        MapKeyKind::UInt64 => {
            let chars = str_chars(s.as_str());
            match crate::num::parse_dec_uint(&chars, u64::MAX) {
                Some(v) => Some(MapKey::U64(v)),
                None => None,
            }
        }
        MapKeyKind::Bool => {
            proof {
                reveal_strlit("true");
                reveal_strlit("false");
                assert("true"@ =~= seq!['t', 'r', 'u', 'e']);
                assert("false"@ =~= seq!['f', 'a', 'l', 's', 'e']);
            }
            let t: String = "true".to_owned();
            let f: String = "false".to_owned();
            if *s == t {
                Some(MapKey::Bool(true))
            } else if *s == f {
                Some(MapKey::Bool(false))
            } else {
                None
            }
        }
        MapKeyKind::Str => Some(MapKey::Str(s.clone())),
    }
}

/// Parses one single (non-list) field value.
fn decode_value_x(k: &FieldKind, j: &Json, strict: bool) -> (r: Result<Value, DecodeError>)
    ensures
        match r {
            Ok(v) => dec_value(k@, j@, strict) == Ok::<ValueV, DecErrV>(v@),
            Err(e) => dec_value(k@, j@, strict) == Err::<ValueV, DecErrV>(e@),
        },
    decreases j, 1int, 0int,
{
    match k {
        FieldKind::Int32 => match decode_sint_x(j, i32::MIN as i64, i32::MAX as i64) {
            Ok(v) => Ok(Value::I32(v as i32)),
            Err(kind) => Err(err_of_kind(kind, String::new())),
        },
        FieldKind::Int64 => match decode_sint_x(j, i64::MIN, i64::MAX) {
            Ok(v) => Ok(Value::I64(v)),
            Err(kind) => Err(err_of_kind(kind, String::new())),
        },
        FieldKind::UInt32 => match decode_uint_x(j, u32::MAX as u64) {
            Ok(v) => Ok(Value::U32(v as u32)),
            Err(kind) => Err(err_of_kind(kind, String::new())),
        },
        FieldKind::UInt64 => match decode_uint_x(j, u64::MAX) {
            Ok(v) => Ok(Value::U64(v)),
            Err(kind) => Err(err_of_kind(kind, String::new())),
        },
        FieldKind::Bool => match j {
            Json::Bool(b) => Ok(Value::Bool(*b)),
            _ => Err(err_of_kind(DecErrKind::TypeMismatch, String::new())),
        },
        FieldKind::Str => match j {
            Json::Str(s) => Ok(Value::Str(s.clone())),
            _ => Err(err_of_kind(DecErrKind::TypeMismatch, String::new())),
        },
        FieldKind::Bytes => match j {
            Json::Str(s) => {
                let chars = str_chars(s.as_str());
                match b64_decode(&chars) {
                    Some(b) => Ok(Value::Bytes(b)),
                    None => Err(err_of_kind(DecErrKind::InvalidBytes, String::new())),
                }
            }
            _ => Err(err_of_kind(DecErrKind::TypeMismatch, String::new())),
        },
        FieldKind::Enum(e) => match decode_enum_x(e, j) {
            Ok(n) => Ok(Value::EnumNum(n)),
            Err(kind) => Err(err_of_kind(kind, String::new())),
        },
        FieldKind::Message(d) => match j {
            Json::Obj(entries) => {
                proof {
                    assert(decreases_to!(j => entries));
                }
                match decode_obj_x(entries, d, strict) {
                    Ok(slots) => Ok(Value::Msg(Instance { slots })),
                    Err(e) => Err(e),
                }
            }
            _ => Err(err_of_kind(DecErrKind::TypeMismatch, String::new())),
        },
        FieldKind::Mapping(kk, vk) => match j {
            Json::Obj(entries) => {
                proof {
                    assert(decreases_to!(j => entries));
                }
                match decode_map_entries_x(kk, vk, entries, strict) {
                    Ok(es) => Ok(Value::MapEntries(es)),
                    Err(e) => Err(e),
                }
            }
            _ => Err(err_of_kind(DecErrKind::TypeMismatch, String::new())),
        },
    }
}

/// Parses one map value.
fn decode_mapval_x(vk: &MapValKind, j: &Json, strict: bool) -> (r: Result<Value, DecodeError>)
    ensures
        match r {
            Ok(v) => dec_mapval(vk@, j@, strict) == Ok::<ValueV, DecErrV>(v@),
            Err(e) => dec_mapval(vk@, j@, strict) == Err::<ValueV, DecErrV>(e@),
        },
    decreases j, 1int, 0int,
{
    match vk {
        MapValKind::Int32 => match decode_sint_x(j, i32::MIN as i64, i32::MAX as i64) {
            Ok(v) => Ok(Value::I32(v as i32)),
            Err(kind) => Err(err_of_kind(kind, String::new())),
        },
        MapValKind::Int64 => match decode_sint_x(j, i64::MIN, i64::MAX) {
            Ok(v) => Ok(Value::I64(v)),
            Err(kind) => Err(err_of_kind(kind, String::new())),
        },
        MapValKind::UInt32 => match decode_uint_x(j, u32::MAX as u64) {
            Ok(v) => Ok(Value::U32(v as u32)),
            Err(kind) => Err(err_of_kind(kind, String::new())),
        },
        MapValKind::UInt64 => match decode_uint_x(j, u64::MAX) {
            Ok(v) => Ok(Value::U64(v)),
            Err(kind) => Err(err_of_kind(kind, String::new())),
        },
        MapValKind::Bool => match j {
            Json::Bool(b) => Ok(Value::Bool(*b)),
            _ => Err(err_of_kind(DecErrKind::TypeMismatch, String::new())),
        },
        MapValKind::Str => match j {
            Json::Str(s) => Ok(Value::Str(s.clone())),
            _ => Err(err_of_kind(DecErrKind::TypeMismatch, String::new())),
        },
        MapValKind::Bytes => match j {
            Json::Str(s) => {
                let chars = str_chars(s.as_str());
                match b64_decode(&chars) {
                    Some(b) => Ok(Value::Bytes(b)),
                    None => Err(err_of_kind(DecErrKind::InvalidBytes, String::new())),
                }
            }
            _ => Err(err_of_kind(DecErrKind::TypeMismatch, String::new())),
        },
        MapValKind::Enum(e) => match decode_enum_x(e, j) {
            Ok(n) => Ok(Value::EnumNum(n)),
            Err(kind) => Err(err_of_kind(kind, String::new())),
        },
        MapValKind::Message(d) => match j {
            Json::Obj(entries) => {
                proof {
                    assert(decreases_to!(j => entries));
                }
                match decode_obj_x(entries, d, strict) {
                    Ok(slots) => Ok(Value::Msg(Instance { slots })),
                    Err(e) => Err(e),
                }
            }
            _ => Err(err_of_kind(DecErrKind::TypeMismatch, String::new())),
        },
    }
}

/// Parses the elements of a repeated field.
fn decode_elems_x(k: &FieldKind, jsons: &Vec<Json>, strict: bool) -> (r: Result<
    Vec<Value>,
    DecodeError,
>)
    ensures
        match r {
            Ok(vs) => dec_elems_from(k@, jsons_view(jsons@), 0, strict) == Ok::<_, DecErrV>(
                values_view(vs@),
            ),
            Err(e) => dec_elems_from(k@, jsons_view(jsons@), 0, strict) == Err::<Seq<ValueV>, _>(
                e@,
            ),
        },
    decreases jsons, 0int, 0int,
{
    let ghost js = jsons_view(jsons@);
    proof {
        lemma_jsons_view(jsons@);
    }
    let n: usize = jsons.len();
    let mut out: Vec<Value> = Vec::new();
    let mut i: usize = 0;
    proof {
        match dec_elems_from(k@, js, 0, strict) {
            Ok(rest) => {
                assert(values_view(out@) + rest =~= rest);
            }
            Err(_) => {}
        }
    }
    while i < n
        invariant
            i <= n,
            n == jsons@.len(),
            js == jsons_view(jsons@),
            js.len() == n,
            forall|t: int| 0 <= t < n ==> js[t] == json_view(jsons@[t]),
            ({
                match dec_elems_from(k@, js, i as int, strict) {
                    Ok(rest) => dec_elems_from(k@, js, 0, strict) == Ok::<_, DecErrV>(
                        values_view(out@) + rest,
                    ),
                    Err(e) => dec_elems_from(k@, js, 0, strict) == Err::<Seq<ValueV>, _>(e),
                }
            }),
        decreases n - i,
    {
        proof {
            assert(decreases_to!(jsons => jsons@));
            assert(decreases_to!(jsons@ => jsons@[i as int]));
        }
        let v = match decode_value_x(k, &jsons[i], strict) {
            Ok(v) => v,
            Err(e) => {
                return Err(e);
            }
        };
        let ghost out_old = out@;
        out.push(v);
        proof {
            lemma_values_view(out_old);
            lemma_values_view(out@);
            assert(values_view(out@) =~= values_view(out_old) + seq![value_view(v)]);
            match dec_elems_from(k@, js, i + 1, strict) {
                Ok(rest) => {
                    assert((values_view(out_old) + (seq![value_view(v)] + rest)) =~= (values_view(
                        out@,
                    ) + rest));
                }
                Err(_) => {}
            }
        }
        i = i + 1;
    }
    proof {
        match dec_elems_from(k@, js, n as int, strict) {
            Ok(rest) => {
                assert(values_view(out@) + rest =~= values_view(out@));
            }
            Err(_) => {}
        }
    }
    Ok(out)
}

/// Parses the entries of a map field.
fn decode_map_entries_x(
    kk: &MapKeyKind,
    vk: &MapValKind,
    entries: &Vec<(String, Json)>,
    strict: bool,
) -> (r: Result<Vec<(MapKey, Value)>, DecodeError>)
    ensures
        match r {
            Ok(es) => dec_map_entries_from(*kk, vk@, entries_view(entries@), 0, strict) == Ok::<
                _,
                DecErrV,
            >(map_entries_view(es@)),
            Err(e) => dec_map_entries_from(*kk, vk@, entries_view(entries@), 0, strict) == Err::<
                Seq<(MapKeyV, ValueV)>,
                _,
            >(e@),
        },
    decreases entries, 0int, 0int,
{
    let ghost ens = entries_view(entries@);
    proof {
        lemma_entries_view(entries@);
    }
    let n: usize = entries.len();
    let mut out: Vec<(MapKey, Value)> = Vec::new();
    let mut i: usize = 0;
    proof {
        match dec_map_entries_from(*kk, vk@, ens, 0, strict) {
            Ok(rest) => {
                assert(map_entries_view(out@) + rest =~= rest);
            }
            Err(_) => {}
        }
    }
    while i < n
        invariant
            i <= n,
            n == entries@.len(),
            ens == entries_view(entries@),
            ens.len() == n,
            forall|t: int|
                0 <= t < n ==> ens[t] == (entries@[t].0@, json_view(entries@[t].1)),
            ({
                match dec_map_entries_from(*kk, vk@, ens, i as int, strict) {
                    Ok(rest) => dec_map_entries_from(*kk, vk@, ens, 0, strict) == Ok::<
                        _,
                        DecErrV,
                    >(map_entries_view(out@) + rest),
                    Err(e) => dec_map_entries_from(*kk, vk@, ens, 0, strict) == Err::<
                        Seq<(MapKeyV, ValueV)>,
                        _,
                    >(e),
                }
            }),
        decreases n - i,
    {
        proof {
            assert(decreases_to!(entries => entries@));
            assert(decreases_to!(entries@ => entries@[i as int]));
            assert(decreases_to!(entries@[i as int] => entries@[i as int].1));
        }
        let key = match parse_mapkey_x(kk, &entries[i].0) {
            Some(k2) => k2,
            None => {
                return Err(err_of_kind(mapkey_err_kind_x(kk), String::new()));
            }
        };
        let v = match decode_mapval_x(vk, &entries[i].1, strict) {
            Ok(v) => v,
            Err(e) => {
                return Err(e);
            }
        };
        let ghost out_old = out@;
        out.push((key, v));
        proof {
            lemma_map_entries_view(out_old);
            lemma_map_entries_view(out@);
            assert(map_entries_view(out@) =~= map_entries_view(out_old) + seq![
                (mapkey_view(key), value_view(v)),
            ]);
            match dec_map_entries_from(*kk, vk@, ens, i + 1, strict) {
                Ok(rest) => {
                    assert((map_entries_view(out_old) + (seq![(mapkey_view(key), value_view(v))]
                        + rest)) =~= (map_entries_view(out@) + rest));
                }
                Err(_) => {}
            }
        }
        i = i + 1;
    }
    proof {
        match dec_map_entries_from(*kk, vk@, ens, n as int, strict) {
            Ok(rest) => {
                assert(map_entries_view(out@) + rest =~= map_entries_view(out@));
            }
            Err(_) => {}
        }
    }
    Ok(out)
}

/// The error kind of a malformed map key.
fn mapkey_err_kind_x(kk: &MapKeyKind) -> (r: DecErrKind)
    ensures
        r == mapkey_err_kind(*kk),
{
    match kk {
        MapKeyKind::Bool => DecErrKind::TypeMismatch,
        _ => DecErrKind::InvalidNumber,
    }
}

/// Parses one field slot value: an array of elements for a repeated
/// field, a single value otherwise.
fn decode_field_value_x(f: &FieldDescriptor, j: &Json, strict: bool) -> (r: Result<
    Value,
    DecodeError,
>)
    ensures
        match r {
            Ok(v) => dec_field_value(f@, j@, strict) == Ok::<ValueV, DecErrV>(v@),
            Err(e) => dec_field_value(f@, j@, strict) == Err::<ValueV, DecErrV>(e@),
        },
    decreases j, 2int, 0int,
{
    match f.presence {
        Presence::Repeated => match j {
            Json::Arr(jsons) => {
                proof {
                    assert(decreases_to!(j => jsons));
                }
                match decode_elems_x(&f.kind, jsons, strict) {
                    Ok(vs) => Ok(Value::List(vs)),
                    Err(e) => Err(e),
                }
            }
            _ => Err(err_of_kind(DecErrKind::TypeMismatch, String::new())),
        },
        _ => decode_value_x(&f.kind, j, strict),
    }
}

/// Whether some other member of `fi`'s oneof group is already set.
fn group_conflict_x(slots: &Vec<Option<Value>>, desc: &MessageDescriptor, fi: usize) -> (r: bool)
    requires
        slots@.len() == desc@.fields.len(),
        fi < desc@.fields.len(),
    ensures
        r == group_conflict(slots_view(slots@), desc@.fields, fi as int),
{
    proof {
        lemma_fields_view(desc.fields@);
        lemma_slots_view(slots@);
    }
    let n: usize = desc.fields.len();
    let g = match desc.fields[fi].oneof_group {
        Some(g) => g,
        None => {
            return false;
        }
    };
    let mut jx: usize = 0;
    while jx < n
        invariant
            jx <= n,
            n == desc.fields@.len(),
            n == desc@.fields.len(),
            n == slots@.len(),
            fi < n,
            desc@.fields[fi as int].oneof_group == Some(g),
            forall|t: int| 0 <= t < n ==> desc@.fields[t] == field_view(desc.fields@[t]),
            forall|t: int|
                0 <= t < n ==> slots_view(slots@)[t] == (match slots@[t] {
                    Some(v) => Some(value_view(v)),
                    None => None,
                }),
            forall|t: int|
                0 <= t < jx ==> !(t != fi && desc@.fields[t].oneof_group == Some(g)
                    && slots_view(slots@)[t] is Some),
        decreases n - jx,
    {
        if jx != fi {
            let same = match desc.fields[jx].oneof_group {
                Some(h) => h == g,
                None => false,
            };
            if same && slots[jx].is_some() {
                proof {
                    assert(0 <= jx < desc@.fields.len() && jx != fi
                        && desc@.fields[fi as int].oneof_group is Some
                        && desc@.fields[jx as int].oneof_group == desc@.fields[
                        fi as int
                    ].oneof_group && slots_view(slots@)[jx as int] is Some);
                }
                return true;
            }
        }
        jx = jx + 1;
    }
    false
}

/// Parses an object's key/value pairs against the descriptor, filling
/// slots left to right.
fn decode_obj_x(entries: &Vec<(String, Json)>, desc: &MessageDescriptor, strict: bool) -> (r:
    Result<Vec<Option<Value>>, DecodeError>)
    ensures
        match r {
            Ok(slots) => dec_entries(
                entries_view(entries@),
                none_slots(desc@.fields.len() as int),
                desc@,
                strict,
            ) == Ok::<_, DecErrV>(slots_view(slots@)),
            Err(e) => dec_entries(
                entries_view(entries@),
                none_slots(desc@.fields.len() as int),
                desc@,
                strict,
            ) == Err::<Seq<Option<ValueV>>, _>(e@),
        },
    decreases entries, 3int, 0int,
{
    let ghost full = entries_view(entries@);
    let ghost d = desc@;
    proof {
        lemma_entries_view(entries@);
        lemma_fields_view(desc.fields@);
    }
    let nf: usize = desc.fields.len();
    let mut slots: Vec<Option<Value>> = Vec::new();
    let mut t0: usize = 0;
    while t0 < nf
        invariant
            t0 <= nf,
            slots@.len() == t0,
            forall|t: int| 0 <= t < t0 ==> slots@[t] is None,
        decreases nf - t0,
    {
        slots.push(None);
        t0 = t0 + 1;
    }
    proof {
        lemma_slots_view(slots@);
        assert(slots_view(slots@) =~= none_slots(d.fields.len() as int));
        assert(full.subrange(0, full.len() as int) =~= full);
    }
    let n: usize = entries.len();
    let mut t: usize = 0;
    while t < n
        invariant
            t <= n,
            n == entries@.len(),
            full == entries_view(entries@),
            full.len() == n,
            d == desc@,
            nf == desc.fields@.len(),
            nf == d.fields.len(),
            slots@.len() == nf,
            forall|x: int| 0 <= x < n ==> full[x] == (entries@[x].0@, json_view(entries@[x].1)),
            forall|x: int| 0 <= x < nf ==> d.fields[x] == field_view(desc.fields@[x]),
            dec_entries(full, none_slots(nf as int), d, strict) == dec_entries(
                full.subrange(t as int, n as int),
                slots_view(slots@),
                d,
                strict,
            ),
        decreases n - t,
    {
        let ghost suffix = full.subrange(t as int, n as int);
        proof {
            lemma_slots_view(slots@);
            assert(suffix.len() == n - t);
            assert(suffix[0] == full[t as int]);
            assert(suffix.subrange(1, suffix.len() as int) =~= full.subrange(
                t + 1 as int,
                n as int,
            ));
        }
        let key: &String = &entries[t].0;
        match crate::schema::lookup_field(desc, key.as_str()) {
            None => {
                if strict {
                    return Err(DecodeError::UnknownField(key.clone()));
                }
            }
            Some(fi) => {
                proof {
                    crate::schema::lemma_resolve_is_match(d.fields, key@, 0, fi as int);
                }
                let f: &FieldDescriptor = &desc.fields[fi];
                if slots[fi].is_some() {
                    return Err(DecodeError::DuplicateField(f.json_name.clone()));
                }
                if group_conflict_x(&slots, desc, fi) {
                    return Err(DecodeError::DuplicateField(f.json_name.clone()));
                }
                proof {
                    assert(decreases_to!(entries => entries@));
                    assert(decreases_to!(entries@ => entries@[t as int]));
                    assert(decreases_to!(entries@[t as int] => entries@[t as int].1));
                }
                match decode_field_value_x(f, &entries[t].1, strict) {
                    Err(e) => {
                        return Err(with_field_path(e, &f.json_name));
                    }
                    Ok(v) => {
                        let ghost slots_old = slots@;
                        slots.set(fi, Some(v));
                        proof {
                            lemma_slots_view(slots_old);
                            lemma_slots_view(slots@);
                            assert(slots_view(slots@) =~= slots_view(slots_old).update(
                                fi as int,
                                Some(value_view(v)),
                            ));
                        }
                    }
                }
            }
        }
        t = t + 1;
    }
    proof {
        assert(full.subrange(n as int, n as int) =~= Seq::<(Seq<char>, JsonV)>::empty());
        lemma_slots_view(slots@);
    }
    Ok(slots)
}

/// Decodes a JSON object into an instance of the described message.
///
/// Succeeds exactly on a JSON object whose every key either resolves
/// through the dual-casing lookup to a not-yet-fed field whose oneof
/// group is not yet fed either, with a value parsing under that
/// field's kind, or resolves to no field at all while `strict` is
/// false.  On success, exactly the fed fields are set; everything else
/// stays unset.  The first error of the pass is returned, with the
/// dotted path of the offending field.
pub fn decode(json: &Json, desc: &MessageDescriptor, strict: bool) -> (r: Result<
    Instance,
    DecodeError,
>)
    ensures
        match r {
            Ok(inst) => dec_instance(json@, desc@, strict) == Ok::<InstanceV, DecErrV>(inst@),
            Err(e) => dec_instance(json@, desc@, strict) == Err::<InstanceV, DecErrV>(e@),
        },
{
    match json {
        Json::Obj(entries) => match decode_obj_x(entries, desc, strict) {
            Ok(slots) => Ok(Instance { slots }),
            Err(e) => Err(e),
        },
        _ => Err(DecodeError::TypeMismatch(String::new())),
    }
}

} // verus!
