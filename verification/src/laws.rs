//! The laws of the codec, proved once and for all descriptors.
//!
//! Each law is a public proof function over the same specification
//! functions that the contracts of `encode` and `decode` use, so what
//! is proved here carries directly to the executable codec.

use vstd::prelude::*;

use crate::b64::lemma_b64_dec_enc;
use crate::decode::{dec_elems_from, dec_entries, dec_enum_json, dec_field_value, dec_instance, dec_map_entries_from, dec_mapval, dec_value, group_conflict, none_slots, parse_mapkey};
use crate::encode::{enc_fields, enc_instance, enc_list_from, enc_map_entries_from, enc_mapval, enc_value, field_emitted, mapkey_string};
use crate::errors::{DecErrV};
use crate::json::JsonV;
use crate::num::{lemma_parse_dec_of_i64, lemma_parse_dec_of_u64};
use crate::schema::{FieldDescV, kind_wf, lemma_enum_name_number_roundtrip, lemma_enum_number_from, lemma_fields_wf, lemma_resolve_is_match, lemma_resolver_dual_casing, mapval_wf, msg_wf, resolve_key, EnumDescV, FieldKindV, MapKeyKind, MapValKindV, MessageDescV, Presence};
use crate::value::{instance_canonical, instance_wf, lemma_map_entries_canonical, lemma_map_entries_wf, lemma_slots_canonical, lemma_slots_wf, lemma_values_canonical, lemma_values_wf, mapkey_wf, mapval_canonical, mapval_value_wf, oneof_exclusive, slot_canonical, slot_wf, value_canonical, value_wf, InstanceV, MapKeyV, ValueV};

verus! {

broadcast use vstd::seq::group_seq_axioms;

// ---------------------------------------------------------------------
// Round trip
// ---------------------------------------------------------------------

/// The slot states after decoding the encoding of the fields from `m`
/// on, starting from `slots0`.
pub open spec fn merged_slots(inst: InstanceV, slots0: Seq<Option<ValueV>>, m: int) -> Seq<
    Option<ValueV>,
> {
    Seq::new(
        slots0.len(),
        |k: int|
            if k >= m && inst.slots[k] is Some {
                inst.slots[k]
            } else {
                slots0[k]
            },
    )
}

/// Round trip of a map key: parsing its rendering gives it back.
proof fn lemma_rt_mapkey(kk: MapKeyKind, key: MapKeyV)
    requires
        mapkey_wf(key, kk),
    ensures
        parse_mapkey(kk, mapkey_string(key)) == Some(key),
{
    match key {
        MapKeyV::I32(x) => {
            lemma_parse_dec_of_i64(x as i64, i32::MIN as int, i32::MAX as int);
        }
        MapKeyV::I64(x) => {
            lemma_parse_dec_of_i64(x, i64::MIN as int, i64::MAX as int);
        }
        MapKeyV::U32(x) => {
            lemma_parse_dec_of_u64(x as u64, u32::MAX as int);
        }
        MapKeyV::U64(x) => {
            lemma_parse_dec_of_u64(x, u64::MAX as int);
        }
        MapKeyV::Bool(b) => {
        }
        MapKeyV::Str(s) => {
        }
    }
}

/// Round trip of the symbolic rendering of an enum value.
proof fn lemma_rt_enum(e: EnumDescV, n: i32)
    requires
        e.wf(),
        e.has_number(n),
    ensures
        crate::schema::enum_number_from(e.entries, n, 0) matches Some(i) && dec_enum_json(
            e,
            JsonV::Str(e.entries[i].name),
        ) == Ok::<i32, crate::errors::DecErrKind>(n),
{
    lemma_enum_number_from(e.entries, n, 0);
    lemma_enum_name_number_roundtrip(e, n);
}

/// Round trip of one single (non-list) value.
proof fn lemma_rt_value(k: FieldKindV, v: ValueV, strict: bool)
    requires
        kind_wf(k),
        value_wf(v, k),
        value_canonical(v, k),
    ensures
        enc_value(k, v) matches Ok(j) && dec_value(k, j, strict) == Ok::<ValueV, DecErrV>(v),
    decreases v, 2int, 0int,
{
    match k {
        FieldKindV::Int32 => {
        }
        FieldKindV::Int64 => {
            lemma_parse_dec_of_i64(v->I64_0, i64::MIN as int, i64::MAX as int);
        }
        FieldKindV::UInt32 => {
        }
        FieldKindV::UInt64 => {
            lemma_parse_dec_of_u64(v->U64_0, u64::MAX as int);
        }
        FieldKindV::Bool => {
        }
        FieldKindV::Str => {
        }
        FieldKindV::Bytes => {
            lemma_b64_dec_enc(v->Bytes_0);
        }
        FieldKindV::Enum(e) => {
            lemma_rt_enum(e, v->EnumNum_0);
        }
        FieldKindV::Message(d) => {
            match v {
                ValueV::Msg(inst) => {
                    assert(decreases_to!(v => inst));
                    lemma_rt_fields(inst, d, 0, none_slots(d.fields.len() as int), strict);
                    let entries = enc_fields(inst, d, 0)->Ok_0;
                    assert(merged_slots(inst, none_slots(d.fields.len() as int), 0)
                        =~= inst.slots);
                    assert(dec_entries(entries, none_slots(d.fields.len() as int), d, strict)
                        == Ok::<_, DecErrV>(inst.slots));
                }
                _ => {}
            }
        }
        FieldKindV::Mapping(kk, vk) => {
            match v {
                ValueV::MapEntries(entries) => {
                    assert(decreases_to!(v => entries));
                    lemma_map_entries_wf(entries, kk, vk);
                    lemma_map_entries_canonical(entries, vk);
                    lemma_rt_map_entries(kk, vk, entries, 0, strict);
                    let js = enc_map_entries_from(vk, entries, 0)->Ok_0;
                    assert(dec_map_entries_from(kk, vk, js, 0, strict) == Ok::<_, DecErrV>(
                        entries.subrange(0, entries.len() as int),
                    ));
                    assert(entries.subrange(0, entries.len() as int) =~= entries);
                }
                _ => {}
            }
        }
    }
}

/// Round trip of one map value.
proof fn lemma_rt_mapval(vk: MapValKindV, v: ValueV, strict: bool)
    requires
        mapval_wf(vk),
        mapval_value_wf(v, vk),
        mapval_canonical(v, vk),
    ensures
        enc_mapval(vk, v) matches Ok(j) && dec_mapval(vk, j, strict) == Ok::<ValueV, DecErrV>(v),
    decreases v, 2int, 0int,
{
    match vk {
        MapValKindV::Int64 => {
            lemma_parse_dec_of_i64(v->I64_0, i64::MIN as int, i64::MAX as int);
        }
        MapValKindV::UInt64 => {
            lemma_parse_dec_of_u64(v->U64_0, u64::MAX as int);
        }
        MapValKindV::Bytes => {
            lemma_b64_dec_enc(v->Bytes_0);
        }
        MapValKindV::Enum(e) => {
            lemma_rt_enum(e, v->EnumNum_0);
        }
        MapValKindV::Message(d) => {
            match v {
                ValueV::Msg(inst) => {
                    assert(decreases_to!(v => inst));
                    lemma_rt_fields(inst, d, 0, none_slots(d.fields.len() as int), strict);
                    let entries = enc_fields(inst, d, 0)->Ok_0;
                    assert(merged_slots(inst, none_slots(d.fields.len() as int), 0)
                        =~= inst.slots);
                    assert(dec_entries(entries, none_slots(d.fields.len() as int), d, strict)
                        == Ok::<_, DecErrV>(inst.slots));
                }
                _ => {}
            }
        }
        _ => {
        }
    }
}

/// Round trip of the elements of a repeated field, from index `i` on.
proof fn lemma_rt_list(k: FieldKindV, elems: Seq<ValueV>, i: int, strict: bool)
    requires
        kind_wf(k),
        0 <= i <= elems.len(),
        forall|t: int| 0 <= t < elems.len() ==> value_wf(#[trigger] elems[t], k),
        forall|t: int| 0 <= t < elems.len() ==> value_canonical(#[trigger] elems[t], k),
    ensures
        enc_list_from(k, elems, i) matches Ok(js) && dec_elems_from(k, js, 0, strict) == Ok::<
            Seq<ValueV>,
            DecErrV,
        >(elems.subrange(i, elems.len() as int)),
    decreases elems, 0int, elems.len() - i,
{
    if i == elems.len() {
        assert(elems.subrange(i, elems.len() as int) =~= Seq::<ValueV>::empty());
    } else {
        assert(decreases_to!(elems => elems[i]));
        lemma_rt_value(k, elems[i], strict);
        lemma_rt_list(k, elems, i + 1, strict);
        let j0 = enc_value(k, elems[i])->Ok_0;
        let rest = enc_list_from(k, elems, i + 1)->Ok_0;
        let js = seq![j0] + rest;
        assert(enc_list_from(k, elems, i) == Ok::<_, Seq<char>>(js));
        assert(js[0] == j0);
        lemma_dec_elems_cons(k, j0, rest, elems[i], elems.subrange(i + 1, elems.len() as int), strict);
        assert(seq![elems[i]] + elems.subrange(i + 1, elems.len() as int) =~= elems.subrange(
            i,
            elems.len() as int,
        ));
    }
}

/// Decoding a list whose head decodes and whose tail decodes gives the
/// cons of the results.
proof fn lemma_dec_elems_cons(
    k: FieldKindV,
    j0: JsonV,
    rest: Seq<JsonV>,
    v0: ValueV,
    vrest: Seq<ValueV>,
    strict: bool,
)
    requires
        dec_value(k, j0, strict) == Ok::<ValueV, DecErrV>(v0),
        dec_elems_from(k, rest, 0, strict) == Ok::<Seq<ValueV>, DecErrV>(vrest),
    ensures
        dec_elems_from(k, seq![j0] + rest, 0, strict) == Ok::<Seq<ValueV>, DecErrV>(
            seq![v0] + vrest,
        ),
{
    let js = seq![j0] + rest;
    assert(js[0] == j0);
    lemma_dec_elems_shift(k, js, rest, strict);
}

/// Decoding from index 1 of a cons equals decoding the tail from 0.
proof fn lemma_dec_elems_shift(k: FieldKindV, js: Seq<JsonV>, rest: Seq<JsonV>, strict: bool)
    requires
        js.len() == rest.len() + 1,
        forall|t: int| 0 <= t < rest.len() ==> js[t + 1] == #[trigger] rest[t],
    ensures
        forall|i: int|
            0 <= i <= rest.len() ==> dec_elems_from(k, js, i + 1, strict) == #[trigger]
                dec_elems_from(k, rest, i, strict),
{
    assert forall|i: int|
        0 <= i <= rest.len() implies dec_elems_from(k, js, i + 1, strict) == dec_elems_from(
        k,
        rest,
        i,
        strict,
    ) by {
        lemma_dec_elems_shift_one(k, js, rest, i, strict);
    }
}

proof fn lemma_dec_elems_shift_one(
    k: FieldKindV,
    js: Seq<JsonV>,
    rest: Seq<JsonV>,
    i: int,
    strict: bool,
)
    requires
        js.len() == rest.len() + 1,
        forall|t: int| 0 <= t < rest.len() ==> js[t + 1] == #[trigger] rest[t],
        0 <= i <= rest.len(),
    ensures
        dec_elems_from(k, js, i + 1, strict) == dec_elems_from(k, rest, i, strict),
    decreases rest.len() - i,
{
    if i < rest.len() {
        lemma_dec_elems_shift_one(k, js, rest, i + 1, strict);
        assert(js[i + 1] == rest[i]);
    }
}

/// Round trip of map entries, from index `i` on.
proof fn lemma_rt_map_entries(
    kk: MapKeyKind,
    vk: MapValKindV,
    entries: Seq<(MapKeyV, ValueV)>,
    i: int,
    strict: bool,
)
    requires
        mapval_wf(vk),
        0 <= i <= entries.len(),
        forall|t: int|
            0 <= t < entries.len() ==> mapkey_wf((#[trigger] entries[t]).0, kk)
                && mapval_value_wf(entries[t].1, vk),
        forall|t: int| 0 <= t < entries.len() ==> mapval_canonical((#[trigger] entries[t]).1, vk),
    ensures
        enc_map_entries_from(vk, entries, i) matches Ok(js) && dec_map_entries_from(
            kk,
            vk,
            js,
            0,
            strict,
        ) == Ok::<Seq<(MapKeyV, ValueV)>, DecErrV>(entries.subrange(i, entries.len() as int)),
    decreases entries, 0int, entries.len() - i,
{
    if i == entries.len() {
        assert(entries.subrange(i, entries.len() as int) =~= Seq::<(MapKeyV, ValueV)>::empty());
    } else {
        assert(decreases_to!(entries => entries[i]));
        assert(decreases_to!(entries[i] => entries[i].1));
        lemma_rt_mapkey(kk, entries[i].0);
        lemma_rt_mapval(vk, entries[i].1, strict);
        lemma_rt_map_entries(kk, vk, entries, i + 1, strict);
        let e0 = (mapkey_string(entries[i].0), enc_mapval(vk, entries[i].1)->Ok_0);
        let rest = enc_map_entries_from(vk, entries, i + 1)->Ok_0;
        let js = seq![e0] + rest;
        assert(enc_map_entries_from(vk, entries, i) == Ok::<_, Seq<char>>(js));
        assert(js[0] == e0);
        lemma_dec_map_entries_shift(kk, vk, js, rest, strict);
        assert(dec_map_entries_from(kk, vk, js, 1, strict) == dec_map_entries_from(
            kk,
            vk,
            rest,
            0,
            strict,
        ));
        assert(seq![entries[i]] + entries.subrange(i + 1, entries.len() as int) =~= entries
            .subrange(i, entries.len() as int));
        assert((entries[i].0, entries[i].1) == entries[i]);
    }
}

proof fn lemma_dec_map_entries_shift(
    kk: MapKeyKind,
    vk: MapValKindV,
    js: Seq<(Seq<char>, JsonV)>,
    rest: Seq<(Seq<char>, JsonV)>,
    strict: bool,
)
    requires
        js.len() == rest.len() + 1,
        forall|t: int| 0 <= t < rest.len() ==> js[t + 1] == #[trigger] rest[t],
    ensures
        forall|i: int|
            0 <= i <= rest.len() ==> dec_map_entries_from(kk, vk, js, i + 1, strict)
                == #[trigger] dec_map_entries_from(kk, vk, rest, i, strict),
{
    assert forall|i: int|
        0 <= i <= rest.len() implies dec_map_entries_from(kk, vk, js, i + 1, strict)
        == dec_map_entries_from(kk, vk, rest, i, strict) by {
        lemma_dec_map_entries_shift_one(kk, vk, js, rest, i, strict);
    }
}

proof fn lemma_dec_map_entries_shift_one(
    kk: MapKeyKind,
    vk: MapValKindV,
    js: Seq<(Seq<char>, JsonV)>,
    rest: Seq<(Seq<char>, JsonV)>,
    i: int,
    strict: bool,
)
    requires
        js.len() == rest.len() + 1,
        forall|t: int| 0 <= t < rest.len() ==> js[t + 1] == #[trigger] rest[t],
        0 <= i <= rest.len(),
    ensures
        dec_map_entries_from(kk, vk, js, i + 1, strict) == dec_map_entries_from(
            kk,
            vk,
            rest,
            i,
            strict,
        ),
    decreases rest.len() - i,
{
    if i < rest.len() {
        lemma_dec_map_entries_shift_one(kk, vk, js, rest, i + 1, strict);
        assert(js[i + 1] == rest[i]);
    }
}

/// Round trip of the fields from index `m` on: decoding what they
/// encode, starting from a state that agrees with the instance on its
/// set slots and is unset from `m` on, fills exactly the instance's
/// set slots.
proof fn lemma_rt_fields(
    inst: InstanceV,
    d: MessageDescV,
    m: int,
    slots0: Seq<Option<ValueV>>,
    strict: bool,
)
    requires
        msg_wf(d),
        instance_wf(inst, d),
        instance_canonical(inst, d),
        0 <= m <= d.fields.len(),
        slots0.len() == d.fields.len(),
        forall|t: int| m <= t < slots0.len() ==> #[trigger] slots0[t] is None,
        forall|t: int|
            0 <= t < slots0.len() && #[trigger] slots0[t] is Some ==> slots0[t] == inst.slots[t],
    ensures
        enc_fields(inst, d, m) matches Ok(entries) && dec_entries(entries, slots0, d, strict)
            == Ok::<Seq<Option<ValueV>>, DecErrV>(merged_slots(inst, slots0, m)),
    decreases inst, 0int, d.fields.len() - m,
{
    lemma_slots_wf(inst.slots, d.fields);
    lemma_slots_canonical(inst.slots, d.fields);
    lemma_fields_wf(d.fields);
    if m == d.fields.len() {
        assert(enc_fields(inst, d, m) == Ok::<Seq<(Seq<char>, JsonV)>, Seq<char>>(Seq::empty()));
        assert(merged_slots(inst, slots0, m) =~= slots0);
    } else {
        let f = d.fields[m];
        assert(decreases_to!(inst => inst.slots));
        assert(decreases_to!(inst.slots => inst.slots[m]));
        match inst.slots[m] {
            None => {
                lemma_rt_fields(inst, d, m + 1, slots0, strict);
                assert(merged_slots(inst, slots0, m) =~= merged_slots(inst, slots0, m + 1));
            }
            Some(v) => {
                assert(decreases_to!(inst.slots[m] => v));
                assert(slot_wf(inst.slots[m], f));
                assert(slot_canonical(inst.slots[m], f));
                // a set slot of a canonical instance is always emitted
                assert(field_emitted(f, v));
                // the rendering of this field's value round-trips
                let fj = if f.presence == Presence::Repeated {
                    match v {
                        ValueV::List(elems) => match enc_list_from(f.kind, elems, 0) {
                            Ok(js) => Ok(JsonV::Arr(js)),
                            Err(p) => Err(p),
                        },
                        _ => Ok(JsonV::Null),
                    }
                } else {
                    enc_value(f.kind, v)
                };
                if f.presence == Presence::Repeated {
                    match v {
                        ValueV::List(elems) => {
                            assert(decreases_to!(v => elems));
                            assert(decreases_to!(inst => elems));
                            lemma_values_wf(elems, f.kind);
                            lemma_values_canonical(elems, f.kind);
                            lemma_rt_list(f.kind, elems, 0, strict);
                            assert(elems.subrange(0, elems.len() as int) =~= elems);
                            let js = enc_list_from(f.kind, elems, 0)->Ok_0;
                            assert(fj == Ok::<JsonV, Seq<char>>(JsonV::Arr(js)));
                            assert(dec_field_value(f, JsonV::Arr(js), strict) == Ok::<
                                ValueV,
                                DecErrV,
                            >(v));
                        }
                        _ => {
                            assert(false);
                        }
                    }
                } else {
                    lemma_rt_value(f.kind, v, strict);
                    assert(fj matches Ok(j) && dec_value(f.kind, j, strict) == Ok::<
                        ValueV,
                        DecErrV,
                    >(v));
                    assert(dec_field_value(f, fj->Ok_0, strict) == Ok::<ValueV, DecErrV>(v));
                }
                let j = fj->Ok_0;
                // the recursive call, with this slot filled
                let slots1 = slots0.update(m, Some(v));
                lemma_rt_fields(inst, d, m + 1, slots1, strict);
                let rest = enc_fields(inst, d, m + 1)->Ok_0;
                let es = seq![(f.json_name, j)] + rest;
                assert(enc_fields(inst, d, m) == Ok::<_, Seq<char>>(es));
                // decoding the first entry resolves to this field
                lemma_resolver_dual_casing(d, m);
                assert(es[0] == (f.json_name, j));
                assert(es.subrange(1, es.len() as int) =~= rest);
                assert(slots0[m] is None);
                // no sibling of the oneof group is set yet
                assert(!group_conflict(slots0, d.fields, m)) by {
                    if group_conflict(slots0, d.fields, m) {
                        let jdx = choose|jdx: int|
                            0 <= jdx < d.fields.len() && jdx != m && d.fields[m].oneof_group
                                is Some && d.fields[jdx].oneof_group == d.fields[m].oneof_group
                                && slots0[jdx] is Some;
                        assert(slots0[jdx] == inst.slots[jdx]);
                        assert(oneof_exclusive(inst.slots, d.fields));
                        assert(!(inst.slots[jdx] is Some && inst.slots[m] is Some));
                        assert(false);
                    }
                }
                assert(dec_entries(es, slots0, d, strict) == dec_entries(
                    rest,
                    slots1,
                    d,
                    strict,
                ));
                assert(merged_slots(inst, slots0, m) =~= merged_slots(inst, slots1, m + 1));
            }
        }
    }
}

/// **Round trip.**  For every well-formed descriptor and every
/// well-formed canonical instance, decoding the encoding gives the
/// instance back, in either strictness mode.  Canonical means: no
/// plain singular field is set to its zero value, no repeated or map
/// field is set to an empty collection, and every set enum value is
/// named by its table (so that the encode is also guaranteed to
/// succeed).
pub proof fn lemma_round_trip(inst: InstanceV, d: MessageDescV, strict: bool)
    requires
        msg_wf(d),
        instance_wf(inst, d),
        instance_canonical(inst, d),
    ensures
        enc_instance(inst, d) matches Ok(j) && dec_instance(j, d, strict) == Ok::<
            InstanceV,
            DecErrV,
        >(inst),
{
    lemma_rt_fields(inst, d, 0, none_slots(d.fields.len() as int), strict);
    let entries = enc_fields(inst, d, 0)->Ok_0;
    assert(merged_slots(inst, none_slots(d.fields.len() as int), 0) =~= inst.slots);
    assert(dec_entries(entries, none_slots(d.fields.len() as int), d, strict) == Ok::<
        _,
        DecErrV,
    >(inst.slots));
    assert(enc_instance(inst, d) == Ok::<JsonV, Seq<char>>(JsonV::Obj(entries)));
}

// ---------------------------------------------------------------------
// Default suppression
// ---------------------------------------------------------------------

proof fn lemma_enc_fields_none(inst: InstanceV, d: MessageDescV, m: int)
    requires
        inst.slots.len() == d.fields.len(),
        0 <= m <= d.fields.len(),
        forall|t: int| 0 <= t < inst.slots.len() ==> #[trigger] inst.slots[t] is None,
    ensures
        enc_fields(inst, d, m) == Ok::<Seq<(Seq<char>, JsonV)>, Seq<char>>(Seq::empty()),
    decreases d.fields.len() - m,
{
    if m < d.fields.len() {
        lemma_enc_fields_none(inst, d, m + 1);
    }
}

/// **Default suppression.**  An instance with every field unset — every
/// singular field at its zero value, every optional field absent,
/// every repeated or map field empty — encodes to the empty JSON
/// object.
pub proof fn lemma_default_suppression(inst: InstanceV, d: MessageDescV)
    requires
        inst.slots.len() == d.fields.len(),
        forall|t: int| 0 <= t < inst.slots.len() ==> #[trigger] inst.slots[t] is None,
    ensures
        enc_instance(inst, d) == Ok::<JsonV, Seq<char>>(JsonV::Obj(Seq::empty())),
{
    lemma_enc_fields_none(inst, d, 0);
}

// ---------------------------------------------------------------------
// Dual-casing acceptance
// ---------------------------------------------------------------------

/// Two entry lists are key-equivalent when they carry the same values
/// in order, under keys that are either identical or resolve to the
/// same field (as the two spellings of one field do).
pub open spec fn keys_equivalent(
    d: MessageDescV,
    e1: Seq<(Seq<char>, JsonV)>,
    e2: Seq<(Seq<char>, JsonV)>,
) -> bool {
    &&& e1.len() == e2.len()
    &&& forall|i: int|
        0 <= i < e1.len() ==> {
            &&& (#[trigger] e1[i]).1 == (#[trigger] e2[i]).1
            &&& (e1[i].0 == e2[i].0 || (resolve_key(d, e1[i].0) is Some && resolve_key(d, e1[i].0)
                == resolve_key(d, e2[i].0)))
        }
}

proof fn lemma_dec_entries_equivalent(
    e1: Seq<(Seq<char>, JsonV)>,
    e2: Seq<(Seq<char>, JsonV)>,
    slots: Seq<Option<ValueV>>,
    d: MessageDescV,
    strict: bool,
)
    requires
        keys_equivalent(d, e1, e2),
    ensures
        dec_entries(e1, slots, d, strict) == dec_entries(e2, slots, d, strict),
    decreases e1.len(),
{
    if e1.len() > 0 {
        assert(e1[0].1 == e2[0].1);
        let r1 = e1.subrange(1, e1.len() as int);
        let r2 = e2.subrange(1, e2.len() as int);
        assert(keys_equivalent(d, r1, r2)) by {
            assert forall|i: int| 0 <= i < r1.len() implies (#[trigger] r1[i]).1 == (#[trigger]
            r2[i]).1 && (r1[i].0 == r2[i].0 || (resolve_key(d, r1[i].0) is Some && resolve_key(
                d,
                r1[i].0,
            ) == resolve_key(d, r2[i].0))) by {
                assert(r1[i] == e1[i + 1]);
                assert(r2[i] == e2[i + 1]);
            }
        }
        if e1[0].0 == e2[0].0 {
            match resolve_key(d, e1[0].0) {
                None => {
                    if !strict {
                        lemma_dec_entries_equivalent(r1, r2, slots, d, strict);
                    }
                }
                Some(fi) => {
                    let f = d.fields[fi];
                    if !(slots[fi] is Some) && !group_conflict(slots, d.fields, fi) {
                        match dec_field_value(f, e1[0].1, strict) {
                            Ok(v) => {
                                lemma_dec_entries_equivalent(
                                    r1,
                                    r2,
                                    slots.update(fi, Some(v)),
                                    d,
                                    strict,
                                );
                            }
                            Err(_) => {}
                        }
                    }
                }
            }
        } else {
            let fi = resolve_key(d, e1[0].0)->Some_0;
            assert(resolve_key(d, e2[0].0) == Some(fi));
            let f = d.fields[fi];
            if !(slots[fi] is Some) && !group_conflict(slots, d.fields, fi) {
                match dec_field_value(f, e1[0].1, strict) {
                    Ok(v) => {
                        lemma_dec_entries_equivalent(r1, r2, slots.update(fi, Some(v)), d, strict);
                    }
                    Err(_) => {}
                }
            }
        }
    }
}

/// **Dual-casing acceptance.**  Decoding two JSON objects that carry
/// the same values in order, each key supplied in either the
/// snake_case wire name or the camelCase JSON name of the same field,
/// gives identical results — the same instance, or the same error.
pub proof fn lemma_dual_casing(j1: JsonV, j2: JsonV, d: MessageDescV, strict: bool)
    requires
        j1 is Obj,
        j2 is Obj,
        keys_equivalent(d, j1->Obj_0, j2->Obj_0),
    ensures
        dec_instance(j1, d, strict) == dec_instance(j2, d, strict),
{
    lemma_dec_entries_equivalent(
        j1->Obj_0,
        j2->Obj_0,
        none_slots(d.fields.len() as int),
        d,
        strict,
    );
}

/// Both spellings of any field resolve to that field: with
/// `lemma_dual_casing` this is what makes either spelling acceptable.
pub proof fn lemma_both_spellings_resolve(d: MessageDescV, fi: int)
    requires
        msg_wf(d),
        0 <= fi < d.fields.len(),
    ensures
        resolve_key(d, d.fields[fi].name) == Some(fi),
        resolve_key(d, d.fields[fi].json_name) == Some(fi),
{
    lemma_resolver_dual_casing(d, fi);
}

// ---------------------------------------------------------------------
// Duplicate rejection and oneof exclusivity
// ---------------------------------------------------------------------

/// Feeding any entry that resolves to an already-set field fails.
proof fn lemma_dec_set_field_err(
    entries: Seq<(Seq<char>, JsonV)>,
    slots: Seq<Option<ValueV>>,
    d: MessageDescV,
    strict: bool,
    t: int,
    fi: int,
)
    requires
        0 <= t < entries.len(),
        resolve_key(d, entries[t].0) == Some(fi),
        0 <= fi < d.fields.len(),
        slots.len() == d.fields.len(),
        slots[fi] is Some,
    ensures
        dec_entries(entries, slots, d, strict) is Err,
    decreases entries.len(),
{
    let rest = entries.subrange(1, entries.len() as int);
    match resolve_key(d, entries[0].0) {
        None => {
            if !strict {
                assert(t >= 1);
                assert(rest[t - 1] == entries[t]);
                lemma_dec_set_field_err(rest, slots, d, strict, t - 1, fi);
            }
        }
        Some(f0) => {
            lemma_resolve_is_match(d.fields, entries[0].0, 0, f0);
            if !(slots[f0] is Some) && !group_conflict(slots, d.fields, f0) {
                assert(f0 != fi);
                assert(t >= 1);
                match dec_field_value(d.fields[f0], entries[0].1, strict) {
                    Ok(v) => {
                        assert(rest[t - 1] == entries[t]);
                        assert(slots.update(f0, Some(v))[fi] == slots[fi]);
                        lemma_dec_set_field_err(rest, slots.update(f0, Some(v)), d, strict, t - 1, fi);
                    }
                    Err(_) => {}
                }
            }
        }
    }
}

/// **Duplicate rejection.**  A JSON object in which two keys resolve
/// to the same field — the snake_case and the camelCase spelling of
/// one field in particular — never decodes to an instance.
pub proof fn lemma_duplicate_rejection(j: JsonV, d: MessageDescV, strict: bool, a: int, b: int)
    requires
        j is Obj,
        0 <= a < b < (j->Obj_0).len(),
        resolve_key(d, (j->Obj_0)[a].0) is Some,
        resolve_key(d, (j->Obj_0)[a].0) == resolve_key(d, (j->Obj_0)[b].0),
    ensures
        dec_instance(j, d, strict) is Err,
{
    lemma_dup_walk(j->Obj_0, none_slots(d.fields.len() as int), d, strict, a, b);
}

proof fn lemma_dup_walk(
    entries: Seq<(Seq<char>, JsonV)>,
    slots: Seq<Option<ValueV>>,
    d: MessageDescV,
    strict: bool,
    a: int,
    b: int,
)
    requires
        0 <= a < b < entries.len(),
        resolve_key(d, entries[a].0) is Some,
        resolve_key(d, entries[a].0) == resolve_key(d, entries[b].0),
        slots.len() == d.fields.len(),
    ensures
        dec_entries(entries, slots, d, strict) is Err,
    decreases entries.len(),
{
    let rest = entries.subrange(1, entries.len() as int);
    match resolve_key(d, entries[0].0) {
        None => {
            if !strict {
                assert(a >= 1);
                assert(rest[a - 1] == entries[a]);
                assert(rest[b - 1] == entries[b]);
                lemma_dup_walk(rest, slots, d, strict, a - 1, b - 1);
            }
        }
        Some(f0) => {
            lemma_resolve_is_match(d.fields, entries[0].0, 0, f0);
            if !(slots[f0] is Some) && !group_conflict(slots, d.fields, f0) {
                match dec_field_value(d.fields[f0], entries[0].1, strict) {
                    Ok(v) => {
                        let slots1 = slots.update(f0, Some(v));
                        if a == 0 {
                            let fi = resolve_key(d, entries[a].0)->Some_0;
                            assert(fi == f0);
                            assert(rest[b - 1] == entries[b]);
                            lemma_resolve_is_match(d.fields, entries[a].0, 0, fi);
                            assert(slots1[fi] is Some);
                            lemma_dec_set_field_err(rest, slots1, d, strict, b - 1, fi);
                        } else {
                            assert(rest[a - 1] == entries[a]);
                            assert(rest[b - 1] == entries[b]);
                            lemma_dup_walk(rest, slots1, d, strict, a - 1, b - 1);
                        }
                    }
                    Err(_) => {}
                }
            }
        }
    }
}

/// Feeding any entry that resolves to a field of a oneof group with an
/// already-set member fails.
proof fn lemma_dec_group_err(
    entries: Seq<(Seq<char>, JsonV)>,
    slots: Seq<Option<ValueV>>,
    d: MessageDescV,
    strict: bool,
    t: int,
    fb: int,
    k: int,
)
    requires
        0 <= t < entries.len(),
        resolve_key(d, entries[t].0) == Some(fb),
        0 <= fb < d.fields.len(),
        0 <= k < d.fields.len(),
        d.fields[fb].oneof_group is Some,
        d.fields[k].oneof_group == d.fields[fb].oneof_group,
        slots.len() == d.fields.len(),
        slots[k] is Some,
    ensures
        dec_entries(entries, slots, d, strict) is Err,
    decreases entries.len(),
{
    let rest = entries.subrange(1, entries.len() as int);
    match resolve_key(d, entries[0].0) {
        None => {
            if !strict {
                assert(t >= 1);
                assert(rest[t - 1] == entries[t]);
                lemma_dec_group_err(rest, slots, d, strict, t - 1, fb, k);
            }
        }
        Some(f0) => {
            lemma_resolve_is_match(d.fields, entries[0].0, 0, f0);
            if !(slots[f0] is Some) && !group_conflict(slots, d.fields, f0) {
                if t == 0 {
                    assert(f0 == fb);
                    // either the set member is fb itself (a duplicate),
                    // or it witnesses a group conflict
                    assert(k != fb) by {
                        if k == fb {
                            assert(slots[f0] is Some);
                        }
                    }
                    assert(group_conflict(slots, d.fields, fb)) by {
                        assert(0 <= k < d.fields.len() && k != fb && d.fields[fb].oneof_group
                            is Some && d.fields[k].oneof_group == d.fields[fb].oneof_group
                            && slots[k] is Some);
                    }
                    assert(false);
                } else {
                    match dec_field_value(d.fields[f0], entries[0].1, strict) {
                        Ok(v) => {
                            let slots1 = slots.update(f0, Some(v));
                            assert(rest[t - 1] == entries[t]);
                            assert(slots1[k] is Some);
                            lemma_dec_group_err(rest, slots1, d, strict, t - 1, fb, k);
                        }
                        Err(_) => {}
                    }
                }
            }
        }
    }
}

/// **Oneof exclusivity.**  A JSON object feeding two different members
/// of one oneof group never decodes to an instance: there is no
/// silent last-one-wins.
pub proof fn lemma_oneof_exclusivity(
    j: JsonV,
    d: MessageDescV,
    strict: bool,
    a: int,
    b: int,
    fa: int,
    fb: int,
)
    requires
        j is Obj,
        0 <= a < b < (j->Obj_0).len(),
        resolve_key(d, (j->Obj_0)[a].0) == Some(fa),
        resolve_key(d, (j->Obj_0)[b].0) == Some(fb),
        fa != fb,
        0 <= fa < d.fields.len(),
        0 <= fb < d.fields.len(),
        d.fields[fa].oneof_group is Some,
        d.fields[fb].oneof_group == d.fields[fa].oneof_group,
    ensures
        dec_instance(j, d, strict) is Err,
{
    lemma_oneof_walk(j->Obj_0, none_slots(d.fields.len() as int), d, strict, a, b, fa, fb);
}

proof fn lemma_oneof_walk(
    entries: Seq<(Seq<char>, JsonV)>,
    slots: Seq<Option<ValueV>>,
    d: MessageDescV,
    strict: bool,
    a: int,
    b: int,
    fa: int,
    fb: int,
)
    requires
        0 <= a < b < entries.len(),
        resolve_key(d, entries[a].0) == Some(fa),
        resolve_key(d, entries[b].0) == Some(fb),
        fa != fb,
        0 <= fa < d.fields.len(),
        0 <= fb < d.fields.len(),
        d.fields[fa].oneof_group is Some,
        d.fields[fb].oneof_group == d.fields[fa].oneof_group,
        slots.len() == d.fields.len(),
    ensures
        dec_entries(entries, slots, d, strict) is Err,
    decreases entries.len(),
{
    let rest = entries.subrange(1, entries.len() as int);
    match resolve_key(d, entries[0].0) {
        None => {
            if !strict {
                assert(a >= 1);
                assert(rest[a - 1] == entries[a]);
                assert(rest[b - 1] == entries[b]);
                lemma_oneof_walk(rest, slots, d, strict, a - 1, b - 1, fa, fb);
            }
        }
        Some(f0) => {
            lemma_resolve_is_match(d.fields, entries[0].0, 0, f0);
            if !(slots[f0] is Some) && !group_conflict(slots, d.fields, f0) {
                match dec_field_value(d.fields[f0], entries[0].1, strict) {
                    Ok(v) => {
                        let slots1 = slots.update(f0, Some(v));
                        if a == 0 {
                            assert(f0 == fa);
                            assert(rest[b - 1] == entries[b]);
                            assert(slots1[fa] is Some);
                            assert(d.fields[fb].oneof_group is Some);
                            lemma_dec_group_err(rest, slots1, d, strict, b - 1, fb, fa);
                        } else {
                            assert(rest[a - 1] == entries[a]);
                            assert(rest[b - 1] == entries[b]);
                            lemma_oneof_walk(rest, slots1, d, strict, a - 1, b - 1, fa, fb);
                        }
                    }
                    Err(_) => {}
                }
            }
        }
    }
}


// ---------------------------------------------------------------------
// Fresh instances
// ---------------------------------------------------------------------

proof fn lemma_none_slots_wf(slots: Seq<Option<ValueV>>, fields: Seq<FieldDescV>)
    requires
        forall|t: int| 0 <= t < slots.len() ==> #[trigger] slots[t] is None,
    ensures
        crate::value::slots_wf(slots, fields),
        crate::value::slots_canonical(slots, fields),
    decreases slots.len(),
{
    if slots.len() > 0 {
        let srest = slots.subrange(1, slots.len() as int);
        assert forall|t: int| 0 <= t < srest.len() implies #[trigger] srest[t] is None by {
            assert(srest[t] == slots[t + 1]);
        }
        lemma_none_slots_wf(srest, fields.subrange(1, fields.len() as int));
        assert(slots[0] is None);
        assert(slot_wf(slots[0], fields[0]));
        assert(slot_canonical(slots[0], fields[0]));
    }
}

/// An instance with every field unset fits any descriptor of the same
/// width, well-formed and canonical; with `lemma_round_trip` this is
/// what lets a caller start from a fresh instance.
pub proof fn lemma_unset_instance_wf(inst: InstanceV, d: MessageDescV)
    requires
        inst.slots.len() == d.fields.len(),
        forall|t: int| 0 <= t < inst.slots.len() ==> #[trigger] inst.slots[t] is None,
    ensures
        instance_wf(inst, d),
        instance_canonical(inst, d),
{
    lemma_none_slots_wf(inst.slots, d.fields);
}

} // verus!
