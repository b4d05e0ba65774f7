//! The value model: the in-memory form of a decoded message.
//!
//! An `Instance` owns one slot per declared field of its descriptor, in
//! the same order.  A slot is `None` when the field was never set: a
//! singular field then stands at its zero value, an optional field is
//! explicitly absent, a repeated or map field is empty.  A `Some` slot
//! holds the field's `Value`; for a repeated field it holds a
//! `Value::List` of elements, for a map field a `Value::MapEntries` of
//! ordered key/value pairs.
//!
//! `instance_wf` ties an instance to its descriptor: slot count and
//! value shapes match the fields, and at most one member of each oneof
//! group is set.  `instance_canonical` additionally rules out the
//! states that the JSON encoding cannot represent losslessly: a set
//! zero value on a plain singular field, a set empty list or map, and
//! an enum number absent from its table.

use vstd::prelude::*;

use crate::schema::{
    field_view, fields_view, lemma_fields_view, FieldDescV, FieldKindV, MapKeyKind, MapValKindV,
    MessageDescV, Presence,
};

verus! {

broadcast use vstd::seq::group_seq_axioms, vstd::std_specs::vec::group_vec_axioms;

/// A concrete map key.
#[derive(Debug, PartialEq, Eq)]
pub enum MapKey {
    I32(i32),
    I64(i64),
    U32(u32),
    U64(u64),
    Bool(bool),
    Str(String),
}

/// A concrete field value.
#[derive(Debug, PartialEq, Eq)]
pub enum Value {
    I32(i32),
    I64(i64),
    U32(u32),
    U64(u64),
    Bool(bool),
    Str(String),
    Bytes(Vec<u8>),
    /// The numeric value of an enum field.
    EnumNum(i32),
    /// A nested message.
    Msg(Instance),
    /// The elements of a repeated field.
    List(Vec<Value>),
    /// The ordered entries of a map field.
    MapEntries(Vec<(MapKey, Value)>),
}

/// One value slot per declared field, in declaration order.
#[derive(Debug, PartialEq, Eq)]
pub struct Instance {
    pub slots: Vec<Option<Value>>,
}

// ---------------------------------------------------------------------
// Mathematical model
// ---------------------------------------------------------------------

pub enum MapKeyV {
    I32(i32),
    I64(i64),
    U32(u32),
    U64(u64),
    Bool(bool),
    Str(Seq<char>),
}

pub enum ValueV {
    I32(i32),
    I64(i64),
    U32(u32),
    U64(u64),
    Bool(bool),
    Str(Seq<char>),
    Bytes(Seq<u8>),
    EnumNum(i32),
    Msg(InstanceV),
    List(Seq<ValueV>),
    MapEntries(Seq<(MapKeyV, ValueV)>),
}

pub struct InstanceV {
    pub slots: Seq<Option<ValueV>>,
}

pub open spec fn mapkey_view(k: MapKey) -> MapKeyV {
    match k {
        MapKey::I32(x) => MapKeyV::I32(x),
        MapKey::I64(x) => MapKeyV::I64(x),
        MapKey::U32(x) => MapKeyV::U32(x),
        MapKey::U64(x) => MapKeyV::U64(x),
        MapKey::Bool(x) => MapKeyV::Bool(x),
        MapKey::Str(s) => MapKeyV::Str(s@),
    }
}

pub open spec fn value_view(v: Value) -> ValueV
    decreases v,
    via value_view_dec
{
    match v {
        Value::I32(x) => ValueV::I32(x),
        Value::I64(x) => ValueV::I64(x),
        Value::U32(x) => ValueV::U32(x),
        Value::U64(x) => ValueV::U64(x),
        Value::Bool(x) => ValueV::Bool(x),
        Value::Str(s) => ValueV::Str(s@),
        Value::Bytes(b) => ValueV::Bytes(b@),
        Value::EnumNum(n) => ValueV::EnumNum(n),
        Value::Msg(inst) => ValueV::Msg(instance_view(inst)),
        Value::List(elems) => ValueV::List(values_view(elems@)),
        Value::MapEntries(entries) => ValueV::MapEntries(map_entries_view(entries@)),
    }
}

#[via_fn]
proof fn value_view_dec(v: Value) {
    match v {
        Value::List(elems) => {
            assert(decreases_to!(v => elems));
            assert(decreases_to!(elems => elems@));
        }
        Value::MapEntries(entries) => {
            assert(decreases_to!(v => entries));
            assert(decreases_to!(entries => entries@));
        }
        _ => {}
    }
}

pub open spec fn values_view(s: Seq<Value>) -> Seq<ValueV>
    decreases s,
{
    if s.len() == 0 {
        Seq::empty()
    } else {
        seq![value_view(s[0])] + values_view(s.subrange(1, s.len() as int))
    }
}

pub open spec fn map_entries_view(s: Seq<(MapKey, Value)>) -> Seq<(MapKeyV, ValueV)>
    decreases s,
{
    if s.len() == 0 {
        Seq::empty()
    } else {
        seq![(mapkey_view(s[0].0), value_view(s[0].1))] + map_entries_view(
            s.subrange(1, s.len() as int),
        )
    }
}

pub open spec fn slots_view(s: Seq<Option<Value>>) -> Seq<Option<ValueV>>
    decreases s,
{
    if s.len() == 0 {
        Seq::empty()
    } else {
        seq![
            match s[0] {
                Some(v) => Some(value_view(v)),
                None => None,
            },
        ] + slots_view(s.subrange(1, s.len() as int))
    }
}

pub open spec fn instance_view(inst: Instance) -> InstanceV
    decreases inst,
    via instance_view_dec
{
    InstanceV { slots: slots_view(inst.slots@) }
}

#[via_fn]
proof fn instance_view_dec(inst: Instance) {
    assert(decreases_to!(inst => inst.slots));
    assert(decreases_to!(inst.slots => inst.slots@));
}

impl View for MapKey {
    type V = MapKeyV;

    open spec fn view(&self) -> MapKeyV {
        mapkey_view(*self)
    }
}

impl View for Value {
    type V = ValueV;

    open spec fn view(&self) -> ValueV {
        value_view(*self)
    }
}

impl View for Instance {
    type V = InstanceV;

    open spec fn view(&self) -> InstanceV {
        instance_view(*self)
    }
}

pub broadcast proof fn lemma_values_view(s: Seq<Value>)
    ensures
        (#[trigger] values_view(s)).len() == s.len(),
        forall|i: int| 0 <= i < s.len() ==> values_view(s)[i] == value_view(s[i]),
    decreases s.len(),
{
    if s.len() > 0 {
        lemma_values_view(s.subrange(1, s.len() as int));
    }
}

pub broadcast proof fn lemma_map_entries_view(s: Seq<(MapKey, Value)>)
    ensures
        (#[trigger] map_entries_view(s)).len() == s.len(),
        forall|i: int|
            0 <= i < s.len() ==> map_entries_view(s)[i] == (
                mapkey_view(s[i].0),
                value_view(s[i].1),
            ),
    decreases s.len(),
{
    if s.len() > 0 {
        lemma_map_entries_view(s.subrange(1, s.len() as int));
    }
}

pub broadcast proof fn lemma_slots_view(s: Seq<Option<Value>>)
    ensures
        (#[trigger] slots_view(s)).len() == s.len(),
        forall|i: int|
            0 <= i < s.len() ==> slots_view(s)[i] == match s[i] {
                Some(v) => Some(value_view(v)),
                None => None,
            },
    decreases s.len(),
{
    if s.len() > 0 {
        lemma_slots_view(s.subrange(1, s.len() as int));
    }
}

// ---------------------------------------------------------------------
// The zero values
// ---------------------------------------------------------------------

/// Whether `v` is the zero/default value of its kind: numeric zero, the
/// empty string or byte string, `false`, enum number zero, or an empty
/// list or map.  A nested message is never a zero value; its presence
/// is the distinction.
pub open spec fn is_zero_value(v: ValueV) -> bool {
    match v {
        ValueV::I32(x) => x == 0,
        ValueV::I64(x) => x == 0,
        ValueV::U32(x) => x == 0,
        ValueV::U64(x) => x == 0,
        ValueV::Bool(x) => x == false,
        ValueV::Str(s) => s.len() == 0,
        ValueV::Bytes(b) => b.len() == 0,
        ValueV::EnumNum(n) => n == 0,
        ValueV::Msg(_) => false,
        ValueV::List(elems) => elems.len() == 0,
        ValueV::MapEntries(entries) => entries.len() == 0,
    }
}

// ---------------------------------------------------------------------
// Well-formedness against a descriptor
// ---------------------------------------------------------------------

pub open spec fn mapkey_wf(k: MapKeyV, kk: MapKeyKind) -> bool {
    match kk {
        MapKeyKind::Int32 => k is I32,
        MapKeyKind::Int64 => k is I64,
        MapKeyKind::UInt32 => k is U32,
        MapKeyKind::UInt64 => k is U64,
        MapKeyKind::Bool => k is Bool,
        MapKeyKind::Str => k is Str,
    }
}

/// The shape of a single (non-list) value matches a field kind.
pub open spec fn value_wf(v: ValueV, k: FieldKindV) -> bool
    decreases v,
{
    match k {
        FieldKindV::Int32 => v is I32,
        FieldKindV::Int64 => v is I64,
        FieldKindV::UInt32 => v is U32,
        FieldKindV::UInt64 => v is U64,
        FieldKindV::Bool => v is Bool,
        FieldKindV::Str => v is Str,
        FieldKindV::Bytes => v is Bytes,
        FieldKindV::Enum(_) => v is EnumNum,
        FieldKindV::Message(d) => v matches ValueV::Msg(inst) && instance_wf(inst, d),
        FieldKindV::Mapping(kk, vk) => v matches ValueV::MapEntries(entries) && map_entries_wf(
            entries,
            kk,
            vk,
        ),
    }
}

pub open spec fn mapval_value_wf(v: ValueV, k: MapValKindV) -> bool
    decreases v,
{
    match k {
        MapValKindV::Int32 => v is I32,
        MapValKindV::Int64 => v is I64,
        MapValKindV::UInt32 => v is U32,
        MapValKindV::UInt64 => v is U64,
        MapValKindV::Bool => v is Bool,
        MapValKindV::Str => v is Str,
        MapValKindV::Bytes => v is Bytes,
        MapValKindV::Enum(_) => v is EnumNum,
        MapValKindV::Message(d) => v matches ValueV::Msg(inst) && instance_wf(inst, d),
    }
}

pub open spec fn map_entries_wf(s: Seq<(MapKeyV, ValueV)>, kk: MapKeyKind, vk: MapValKindV) -> bool
    decreases s,
{
    s.len() == 0 || (mapkey_wf(s[0].0, kk) && mapval_value_wf(s[0].1, vk) && map_entries_wf(
        s.subrange(1, s.len() as int),
        kk,
        vk,
    ))
}

pub open spec fn values_wf(s: Seq<ValueV>, k: FieldKindV) -> bool
    decreases s,
{
    s.len() == 0 || (value_wf(s[0], k) && values_wf(s.subrange(1, s.len() as int), k))
}

/// The shape of a set slot matches its field: a repeated field holds a
/// list of element values, any other field holds a single value.
pub open spec fn slot_wf(slot: Option<ValueV>, f: FieldDescV) -> bool
    decreases slot,
{
    match slot {
        None => true,
        Some(v) => match f.presence {
            Presence::Repeated => v matches ValueV::List(elems) && values_wf(elems, f.kind),
            _ => value_wf(v, f.kind),
        },
    }
}

pub open spec fn slots_wf(slots: Seq<Option<ValueV>>, fields: Seq<FieldDescV>) -> bool
    decreases slots,
{
    slots.len() == 0 || (slot_wf(slots[0], fields[0]) && slots_wf(
        slots.subrange(1, slots.len() as int),
        fields.subrange(1, fields.len() as int),
    ))
}

/// At most one member of each oneof group is set.
pub open spec fn oneof_exclusive(slots: Seq<Option<ValueV>>, fields: Seq<FieldDescV>) -> bool {
    forall|a: int, b: int|
        0 <= a < fields.len() && 0 <= b < fields.len() && a != b && fields[a].oneof_group is Some
            && fields[a].oneof_group == fields[b].oneof_group ==> !(slots[a] is Some
            && slots[b] is Some)
}

/// The instance fits its descriptor.
pub open spec fn instance_wf(inst: InstanceV, d: MessageDescV) -> bool
    decreases inst,
    via instance_wf_dec
{
    &&& inst.slots.len() == d.fields.len()
    &&& slots_wf(inst.slots, d.fields)
    &&& oneof_exclusive(inst.slots, d.fields)
}

#[via_fn]
proof fn instance_wf_dec(inst: InstanceV, d: MessageDescV) {
    assert(decreases_to!(inst => inst.slots));
}

pub broadcast proof fn lemma_slots_wf(slots: Seq<Option<ValueV>>, fields: Seq<FieldDescV>)
    requires
        #[trigger] slots_wf(slots, fields),
        slots.len() <= fields.len(),
    ensures
        forall|i: int| 0 <= i < slots.len() ==> slot_wf(#[trigger] slots[i], fields[i]),
    decreases slots.len(),
{
    if slots.len() > 0 {
        lemma_slots_wf(
            slots.subrange(1, slots.len() as int),
            fields.subrange(1, fields.len() as int),
        );
        assert forall|i: int| 0 <= i < slots.len() implies slot_wf(slots[i], fields[i]) by {
            if i > 0 {
                assert(slots[i] == slots.subrange(1, slots.len() as int)[i - 1]);
                assert(fields[i] == fields.subrange(1, fields.len() as int)[i - 1]);
            }
        }
    }
}

pub broadcast proof fn lemma_map_entries_wf(s: Seq<(MapKeyV, ValueV)>, kk: MapKeyKind, vk: MapValKindV)
    requires
        #[trigger] map_entries_wf(s, kk, vk),
    ensures
        forall|i: int|
            0 <= i < s.len() ==> mapkey_wf((#[trigger] s[i]).0, kk) && mapval_value_wf(
                s[i].1,
                vk,
            ),
    decreases s.len(),
{
    if s.len() > 0 {
        lemma_map_entries_wf(s.subrange(1, s.len() as int), kk, vk);
        assert forall|i: int|
            0 <= i < s.len() implies mapkey_wf(s[i].0, kk) && mapval_value_wf(s[i].1, vk) by {
            if i > 0 {
                assert(s[i] == s.subrange(1, s.len() as int)[i - 1]);
            }
        }
    }
}

pub broadcast proof fn lemma_values_wf(s: Seq<ValueV>, k: FieldKindV)
    requires
        #[trigger] values_wf(s, k),
    ensures
        forall|i: int| 0 <= i < s.len() ==> value_wf(#[trigger] s[i], k),
    decreases s.len(),
{
    if s.len() > 0 {
        lemma_values_wf(s.subrange(1, s.len() as int), k);
        assert forall|i: int| 0 <= i < s.len() implies value_wf(s[i], k) by {
            if i > 0 {
                assert(s[i] == s.subrange(1, s.len() as int)[i - 1]);
            }
        }
    }
}

// ---------------------------------------------------------------------
// Canonical instances
// ---------------------------------------------------------------------

/// A set enum value must appear in its table, recursively.
pub open spec fn value_canonical(v: ValueV, k: FieldKindV) -> bool
    decreases v,
{
    match v {
        ValueV::EnumNum(n) => k matches FieldKindV::Enum(e) ==> e.has_number(n),
        ValueV::Msg(inst) => k matches FieldKindV::Message(d) ==> instance_canonical(inst, d),
        ValueV::MapEntries(entries) => k matches FieldKindV::Mapping(kk, vk)
            ==> map_entries_canonical(entries, vk),
        _ => true,
    }
}

pub open spec fn mapval_canonical(v: ValueV, k: MapValKindV) -> bool
    decreases v,
{
    match v {
        ValueV::EnumNum(n) => k matches MapValKindV::Enum(e) ==> e.has_number(n),
        ValueV::Msg(inst) => k matches MapValKindV::Message(d) ==> instance_canonical(inst, d),
        _ => true,
    }
}

pub open spec fn map_entries_canonical(s: Seq<(MapKeyV, ValueV)>, vk: MapValKindV) -> bool
    decreases s,
{
    s.len() == 0 || (mapval_canonical(s[0].1, vk) && map_entries_canonical(
        s.subrange(1, s.len() as int),
        vk,
    ))
}

pub open spec fn values_canonical(s: Seq<ValueV>, k: FieldKindV) -> bool
    decreases s,
{
    s.len() == 0 || (value_canonical(s[0], k) && values_canonical(s.subrange(1, s.len() as int), k))
}

/// A set slot survives an encode/decode round trip: a plain singular
/// field is not set to its zero value (absence already means that), a
/// repeated or map field is not set to an empty collection, and every
/// enum value is present in its table.
pub open spec fn slot_canonical(slot: Option<ValueV>, f: FieldDescV) -> bool
    decreases slot,
{
    match slot {
        None => true,
        Some(v) => match f.presence {
            Presence::Repeated => match v {
                ValueV::List(elems) => elems.len() > 0 && values_canonical(elems, f.kind),
                _ => true,
            },
            _ => {
                &&& f.presence == Presence::Singular && f.oneof_group is None ==> !is_zero_value(v)
                &&& value_canonical(v, f.kind)
            },
        },
    }
}

pub open spec fn slots_canonical(slots: Seq<Option<ValueV>>, fields: Seq<FieldDescV>) -> bool
    decreases slots,
{
    slots.len() == 0 || (slot_canonical(slots[0], fields[0]) && slots_canonical(
        slots.subrange(1, slots.len() as int),
        fields.subrange(1, fields.len() as int),
    ))
}

pub open spec fn instance_canonical(inst: InstanceV, d: MessageDescV) -> bool
    decreases inst,
    via instance_canonical_dec
{
    slots_canonical(inst.slots, d.fields)
}

#[via_fn]
proof fn instance_canonical_dec(inst: InstanceV, d: MessageDescV) {
    assert(decreases_to!(inst => inst.slots));
}

pub broadcast proof fn lemma_values_canonical(s: Seq<ValueV>, k: FieldKindV)
    requires
        #[trigger] values_canonical(s, k),
    ensures
        forall|i: int| 0 <= i < s.len() ==> value_canonical(#[trigger] s[i], k),
    decreases s.len(),
{
    if s.len() > 0 {
        lemma_values_canonical(s.subrange(1, s.len() as int), k);
        assert forall|i: int| 0 <= i < s.len() implies value_canonical(s[i], k) by {
            if i > 0 {
                assert(s[i] == s.subrange(1, s.len() as int)[i - 1]);
            }
        }
    }
}

pub broadcast proof fn lemma_map_entries_canonical(s: Seq<(MapKeyV, ValueV)>, vk: MapValKindV)
    requires
        #[trigger] map_entries_canonical(s, vk),
    ensures
        forall|i: int| 0 <= i < s.len() ==> mapval_canonical((#[trigger] s[i]).1, vk),
    decreases s.len(),
{
    if s.len() > 0 {
        lemma_map_entries_canonical(s.subrange(1, s.len() as int), vk);
        assert forall|i: int| 0 <= i < s.len() implies mapval_canonical(s[i].1, vk) by {
            if i > 0 {
                assert(s[i] == s.subrange(1, s.len() as int)[i - 1]);
            }
        }
    }
}

pub broadcast proof fn lemma_slots_canonical(slots: Seq<Option<ValueV>>, fields: Seq<FieldDescV>)
    requires
        #[trigger] slots_canonical(slots, fields),
        slots.len() <= fields.len(),
    ensures
        forall|i: int| 0 <= i < slots.len() ==> slot_canonical(#[trigger] slots[i], fields[i]),
    decreases slots.len(),
{
    if slots.len() > 0 {
        lemma_slots_canonical(
            slots.subrange(1, slots.len() as int),
            fields.subrange(1, fields.len() as int),
        );
        assert forall|i: int| 0 <= i < slots.len() implies slot_canonical(slots[i], fields[i]) by {
            if i > 0 {
                assert(slots[i] == slots.subrange(1, slots.len() as int)[i - 1]);
                assert(fields[i] == fields.subrange(1, fields.len() as int)[i - 1]);
            }
        }
    }
}

// ---------------------------------------------------------------------
// Building instances
// ---------------------------------------------------------------------

/// A fresh instance of the described message with every field unset:
/// each singular field stands at its zero value, each optional field is
/// explicitly absent, each repeated or map field is empty.
pub fn new_instance(desc: &crate::schema::MessageDescriptor) -> (r: Instance)
    ensures
        r@.slots.len() == desc@.fields.len(),
        forall|i: int| 0 <= i < r@.slots.len() ==> r@.slots[i] is None,
{
    let n: usize = desc.fields.len();
    let mut slots: Vec<Option<Value>> = Vec::new();
    let mut i: usize = 0;
    while i < n
        invariant
            i <= n,
            slots@.len() == i,
            forall|j: int| 0 <= j < i ==> slots@[j] is None,
        decreases n - i,
    {
        slots.push(None);
        i = i + 1;
    }
    let inst = Instance { slots };
    proof {
        lemma_slots_view(inst.slots@);
        lemma_fields_view(desc.fields@);
    }
    inst
}

/// Sets one field of an instance, clearing any previously set sibling
/// of the same oneof group so that group exclusivity is kept
/// structurally.
pub fn set_field(
    inst: &mut Instance,
    desc: &crate::schema::MessageDescriptor,
    index: usize,
    v: Value,
)
    requires
        old(inst)@.slots.len() == desc@.fields.len(),
        index < desc@.fields.len(),
    ensures
        final(inst)@.slots.len() == old(inst)@.slots.len(),
        final(inst)@.slots[index as int] == Some(v@),
        forall|j: int|
            0 <= j < old(inst)@.slots.len() && j != index ==> final(inst)@.slots[j] == (
            if is_oneof_sibling(desc@.fields, index as int, j) {
                None::<ValueV>
            } else {
                old(inst)@.slots[j]
            }),
{
    proof {
        lemma_slots_view(inst.slots@);
        lemma_fields_view(desc.fields@);
    }
    let n: usize = desc.fields.len();
    let group = desc.fields[index].oneof_group;
    if let Some(g) = group {
        let mut j: usize = 0;
        while j < n
            invariant
                j <= n,
                n == desc@.fields.len(),
                n == desc.fields@.len(),
                inst.slots@.len() == n,
                desc@.fields[index as int].oneof_group == Some(g),
                index < n,
                fields_view(desc.fields@).len() == n,
                forall|t: int| 0 <= t < n ==> fields_view(desc.fields@)[t] == field_view(
                    desc.fields@[t],
                ),
                forall|t: int|
                    0 <= t < j && t != index && is_oneof_sibling(desc@.fields, index as int, t)
                        ==> inst.slots@[t] is None,
                forall|t: int|
                    0 <= t < n && (t >= j || t == index || !is_oneof_sibling(
                        desc@.fields,
                        index as int,
                        t,
                    )) ==> inst.slots@[t] == old(inst).slots@[t],
            decreases n - j,
        {
            let sib = match desc.fields[j].oneof_group {
                Some(h) => h == g,
                None => false,
            };
            if sib && j != index {
                inst.slots.set(j, None);
            }
            j = j + 1;
        }
    }
    inst.slots.set(index, Some(v));
    proof {
        lemma_slots_view(inst.slots@);
        lemma_slots_view(old(inst).slots@);
    }
}

/// Whether field `b` is a distinct member of the same oneof group as
/// field `a`.
pub open spec fn is_oneof_sibling(fields: Seq<FieldDescV>, a: int, b: int) -> bool {
    &&& a != b
    &&& fields[a].oneof_group is Some
    &&& fields[b].oneof_group == fields[a].oneof_group
}

} // verus!
