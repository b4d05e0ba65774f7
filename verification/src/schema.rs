//! The schema model: a static, immutable description of message types.
//!
//! A `MessageDescriptor` lists the fields of one message type in
//! declaration order.  Each `FieldDescriptor` carries the wire name
//! (snake_case), the canonical JSON name (camelCase), the field kind,
//! the presence discipline and an optional oneof group.  Enum types are
//! described by an ordered table of symbolic names and numeric values.
//!
//! Well-formedness (`msg_wf`) demands that no two fields share a key in
//! either spelling, that every enum table maps the implicit default `0`
//! to some symbolic name and has distinct symbolic names, that oneof
//! members are singular, and that map fields are singular.  Descriptor
//! construction is expected to establish `msg_wf` once, at process
//! start; the codec then relies on it.

use vstd::prelude::*;

verus! {

broadcast use vstd::seq::group_seq_axioms, vstd::std_specs::vec::group_vec_axioms;

/// How a field may be present in an instance.
#[derive(Clone, Copy, Debug, PartialEq, Eq, Structural)]
pub enum Presence {
    /// Always carries a value; the zero value is not emitted.
    Singular,
    /// Tracks explicit presence; an explicitly set zero value is emitted.
    Optional,
    /// An ordered list of values; the empty list is not emitted.
    Repeated,
}

/// The scalar kinds a map key may have (any integral or string kind).
#[derive(Clone, Copy, Debug, PartialEq, Eq, Structural)]
pub enum MapKeyKind {
    Int32,
    Int64,
    UInt32,
    UInt64,
    Bool,
    Str,
}

/// One row of an enum table: a symbolic name and its numeric value.
#[derive(Debug, PartialEq, Eq)]
pub struct EnumEntry {
    pub symbolic_name: String,
    pub numeric_value: i32,
}

/// An ordered enum table.
#[derive(Debug, PartialEq, Eq)]
pub struct EnumDescriptor {
    pub entries: Vec<EnumEntry>,
}

/// The kind a map value may have: anything but another map or a list.
#[derive(Debug, PartialEq, Eq)]
pub enum MapValKind {
    Int32,
    Int64,
    UInt32,
    UInt64,
    Bool,
    Str,
    Bytes,
    Enum(EnumDescriptor),
    Message(MessageDescriptor),
}

/// The kind of a field's values.  For a `Repeated` field this is the
/// kind of each element.
#[derive(Debug, PartialEq, Eq)]
pub enum FieldKind {
    Int32,
    Int64,
    UInt32,
    UInt64,
    Bool,
    Str,
    Bytes,
    Enum(EnumDescriptor),
    Message(MessageDescriptor),
    Mapping(MapKeyKind, MapValKind),
}

/// The description of one field of a message.
#[derive(Debug, PartialEq, Eq)]
pub struct FieldDescriptor {
    /// The wire name, in snake_case.
    pub name: String,
    /// The canonical JSON name, in camelCase.
    pub json_name: String,
    pub kind: FieldKind,
    pub presence: Presence,
    /// Fields sharing a group identifier are members of one oneof.
    pub oneof_group: Option<u64>,
}

/// The description of one message type: its fields in declaration order.
#[derive(Debug, PartialEq, Eq)]
pub struct MessageDescriptor {
    pub fields: Vec<FieldDescriptor>,
}

// ---------------------------------------------------------------------
// Mathematical model
// ---------------------------------------------------------------------

pub struct EnumEntryV {
    pub name: Seq<char>,
    pub number: i32,
}

pub struct EnumDescV {
    pub entries: Seq<EnumEntryV>,
}

pub enum MapValKindV {
    Int32,
    Int64,
    UInt32,
    UInt64,
    Bool,
    Str,
    Bytes,
    Enum(EnumDescV),
    Message(MessageDescV),
}

pub enum FieldKindV {
    Int32,
    Int64,
    UInt32,
    UInt64,
    Bool,
    Str,
    Bytes,
    Enum(EnumDescV),
    Message(MessageDescV),
    Mapping(MapKeyKind, MapValKindV),
}

pub struct FieldDescV {
    pub name: Seq<char>,
    pub json_name: Seq<char>,
    pub kind: FieldKindV,
    pub presence: Presence,
    pub oneof_group: Option<u64>,
}

pub struct MessageDescV {
    pub fields: Seq<FieldDescV>,
}

pub open spec fn enum_desc_view(e: EnumDescriptor) -> EnumDescV {
    EnumDescV {
        entries: Seq::new(
            e.entries@.len(),
            |i: int|
                EnumEntryV {
                    name: e.entries@[i].symbolic_name@,
                    number: e.entries@[i].numeric_value,
                },
        ),
    }
}

pub open spec fn kind_view(k: FieldKind) -> FieldKindV
    decreases k,
{
    match k {
        FieldKind::Int32 => FieldKindV::Int32,
        FieldKind::Int64 => FieldKindV::Int64,
        FieldKind::UInt32 => FieldKindV::UInt32,
        FieldKind::UInt64 => FieldKindV::UInt64,
        FieldKind::Bool => FieldKindV::Bool,
        FieldKind::Str => FieldKindV::Str,
        FieldKind::Bytes => FieldKindV::Bytes,
        FieldKind::Enum(e) => FieldKindV::Enum(enum_desc_view(e)),
        FieldKind::Message(d) => FieldKindV::Message(msg_view(d)),
        FieldKind::Mapping(kk, vk) => FieldKindV::Mapping(kk, mapval_view(vk)),
    }
}

pub open spec fn mapval_view(k: MapValKind) -> MapValKindV
    decreases k,
{
    match k {
        MapValKind::Int32 => MapValKindV::Int32,
        MapValKind::Int64 => MapValKindV::Int64,
        MapValKind::UInt32 => MapValKindV::UInt32,
        MapValKind::UInt64 => MapValKindV::UInt64,
        MapValKind::Bool => MapValKindV::Bool,
        MapValKind::Str => MapValKindV::Str,
        MapValKind::Bytes => MapValKindV::Bytes,
        MapValKind::Enum(e) => MapValKindV::Enum(enum_desc_view(e)),
        MapValKind::Message(d) => MapValKindV::Message(msg_view(d)),
    }
}

pub open spec fn field_view(f: FieldDescriptor) -> FieldDescV
    decreases f,
{
    FieldDescV {
        name: f.name@,
        json_name: f.json_name@,
        kind: kind_view(f.kind),
        presence: f.presence,
        oneof_group: f.oneof_group,
    }
}

pub open spec fn fields_view(s: Seq<FieldDescriptor>) -> Seq<FieldDescV>
    decreases s,
{
    if s.len() == 0 {
        Seq::empty()
    } else {
        seq![field_view(s[0])] + fields_view(s.subrange(1, s.len() as int))
    }
}

pub open spec fn msg_view(d: MessageDescriptor) -> MessageDescV
    decreases d,
    via msg_view_dec
{
    MessageDescV { fields: fields_view(d.fields@) }
}

#[via_fn]
proof fn msg_view_dec(d: MessageDescriptor) {
    assert(decreases_to!(d => d.fields));
    assert(decreases_to!(d.fields => d.fields@));
}

impl View for EnumDescriptor {
    type V = EnumDescV;

    open spec fn view(&self) -> EnumDescV {
        enum_desc_view(*self)
    }
}

impl View for FieldKind {
    type V = FieldKindV;

    open spec fn view(&self) -> FieldKindV {
        kind_view(*self)
    }
}

impl View for MapValKind {
    type V = MapValKindV;

    open spec fn view(&self) -> MapValKindV {
        mapval_view(*self)
    }
}

impl View for FieldDescriptor {
    type V = FieldDescV;

    open spec fn view(&self) -> FieldDescV {
        field_view(*self)
    }
}

impl View for MessageDescriptor {
    type V = MessageDescV;

    open spec fn view(&self) -> MessageDescV {
        msg_view(*self)
    }
}

pub broadcast proof fn lemma_fields_view(s: Seq<FieldDescriptor>)
    ensures
        (#[trigger] fields_view(s)).len() == s.len(),
        forall|i: int| 0 <= i < s.len() ==> fields_view(s)[i] == field_view(s[i]),
    decreases s.len(),
{
    if s.len() > 0 {
        lemma_fields_view(s.subrange(1, s.len() as int));
    }
}

// ---------------------------------------------------------------------
// Well-formedness
// ---------------------------------------------------------------------

impl EnumDescV {
    /// The table maps the implicit default `0` to some name, and no two
    /// rows share a symbolic name.
    pub open spec fn wf(self) -> bool {
        &&& exists|i: int| 0 <= i < self.entries.len() && self.entries[i].number == 0
        &&& forall|i: int, j: int|
            0 <= i < j < self.entries.len() ==> self.entries[i].name != self.entries[j].name
    }

    /// The index of the first row carrying `number`, if any.
    pub open spec fn index_of_number(self, number: i32) -> Option<int> {
        enum_number_from(self.entries, number, 0)
    }

    pub open spec fn has_number(self, number: i32) -> bool {
        exists|i: int| 0 <= i < self.entries.len() && self.entries[i].number == number
    }

    /// The index of the first row carrying `name`, if any.
    pub open spec fn index_of_name(self, name: Seq<char>) -> Option<int> {
        enum_name_from(self.entries, name, 0)
    }
}

pub open spec fn enum_number_from(entries: Seq<EnumEntryV>, number: i32, i: int) -> Option<int>
    decreases entries.len() - i,
{
    if i < 0 || i >= entries.len() {
        None
    } else if entries[i].number == number {
        Some(i)
    } else {
        enum_number_from(entries, number, i + 1)
    }
}

pub open spec fn enum_name_from(entries: Seq<EnumEntryV>, name: Seq<char>, i: int) -> Option<int>
    decreases entries.len() - i,
{
    if i < 0 || i >= entries.len() {
        None
    } else if entries[i].name == name {
        Some(i)
    } else {
        enum_name_from(entries, name, i + 1)
    }
}

pub proof fn lemma_enum_number_from(entries: Seq<EnumEntryV>, number: i32, i: int)
    requires
        0 <= i,
    ensures
        match enum_number_from(entries, number, i) {
            Some(t) => i <= t < entries.len() && entries[t].number == number && forall|j: int|
                i <= j < t ==> entries[j].number != number,
            None => forall|j: int| i <= j < entries.len() ==> entries[j].number != number,
        },
    decreases entries.len() - i,
{
    if i < entries.len() && entries[i].number != number {
        lemma_enum_number_from(entries, number, i + 1);
    }
}

pub proof fn lemma_enum_name_from(entries: Seq<EnumEntryV>, name: Seq<char>, i: int)
    requires
        0 <= i,
    ensures
        match enum_name_from(entries, name, i) {
            Some(t) => i <= t < entries.len() && entries[t].name == name && forall|j: int|
                i <= j < t ==> entries[j].name != name,
            None => forall|j: int| i <= j < entries.len() ==> entries[j].name != name,
        },
    decreases entries.len() - i,
{
    if i < entries.len() && entries[i].name != name {
        lemma_enum_name_from(entries, name, i + 1);
    }
}

/// In a well-formed enum table, looking the symbolic name of a number
/// up again gives the number back.
pub proof fn lemma_enum_name_number_roundtrip(e: EnumDescV, number: i32)
    requires
        e.wf(),
        e.has_number(number),
    ensures
        e.index_of_number(number) matches Some(i) && e.index_of_name(e.entries[i].name) == Some(i),
{
    lemma_enum_number_from(e.entries, number, 0);
    let i = e.index_of_number(number)->0;
    lemma_enum_name_from(e.entries, e.entries[i].name, 0);
    match e.index_of_name(e.entries[i].name) {
        Some(t) => {
            if t != i {
                assert(e.entries[t].name != e.entries[i].name);
            }
        }
        None => {
            assert(e.entries[i].name == e.entries[i].name);
        }
    }
}

pub open spec fn kind_wf(k: FieldKindV) -> bool
    decreases k,
{
    match k {
        FieldKindV::Enum(e) => e.wf(),
        FieldKindV::Message(d) => msg_wf(d),
        FieldKindV::Mapping(_, vk) => mapval_wf(vk),
        _ => true,
    }
}

pub open spec fn mapval_wf(k: MapValKindV) -> bool
    decreases k,
{
    match k {
        MapValKindV::Enum(e) => e.wf(),
        MapValKindV::Message(d) => msg_wf(d),
        _ => true,
    }
}

pub open spec fn field_wf(f: FieldDescV) -> bool
    decreases f,
{
    &&& kind_wf(f.kind)
    &&& f.oneof_group is Some ==> f.presence == Presence::Singular
    &&& f.kind is Mapping ==> f.presence == Presence::Singular && f.oneof_group is None
}

pub open spec fn fields_wf(s: Seq<FieldDescV>) -> bool
    decreases s,
{
    s.len() == 0 || (field_wf(s[0]) && fields_wf(s.subrange(1, s.len() as int)))
}

/// No key of one field, in either spelling, collides with a key of
/// another field.  A field's own two spellings may coincide.
pub open spec fn fields_keys_distinct(s: Seq<FieldDescV>) -> bool {
    forall|i: int, j: int|
        0 <= i < s.len() && 0 <= j < s.len() && i != j ==> {
            &&& s[i].name != s[j].name
            &&& s[i].name != s[j].json_name
            &&& s[i].json_name != s[j].name
            &&& s[i].json_name != s[j].json_name
        }
}

pub open spec fn msg_wf(d: MessageDescV) -> bool
    decreases d,
{
    fields_wf(d.fields) && fields_keys_distinct(d.fields)
}

pub broadcast proof fn lemma_fields_wf(s: Seq<FieldDescV>)
    requires
        #[trigger] fields_wf(s),
    ensures
        forall|i: int| 0 <= i < s.len() ==> field_wf(#[trigger] s[i]),
    decreases s.len(),
{
    if s.len() > 0 {
        lemma_fields_wf(s.subrange(1, s.len() as int));
        assert forall|i: int| 0 <= i < s.len() implies field_wf(s[i]) by {
            if i > 0 {
                assert(s[i] == s.subrange(1, s.len() as int)[i - 1]);
            }
        }
    }
}

// ---------------------------------------------------------------------
// Field name resolution (dual-casing lookup)
// ---------------------------------------------------------------------

/// The index of the first field accepting `key` as its wire name or its
/// JSON name, if any.  Lookup is case-sensitive and exact.
pub open spec fn resolve_key(d: MessageDescV, key: Seq<char>) -> Option<int> {
    resolve_key_from(d.fields, key, 0)
}

pub open spec fn resolve_key_from(fields: Seq<FieldDescV>, key: Seq<char>, i: int) -> Option<int>
    decreases fields.len() - i,
{
    if i < 0 || i >= fields.len() {
        None
    } else if fields[i].name == key || fields[i].json_name == key {
        Some(i)
    } else {
        resolve_key_from(fields, key, i + 1)
    }
}

/// Looks a JSON object key up in a message descriptor, accepting either
/// the snake_case wire name or the camelCase JSON name, and returns the
/// index of the matching field.
pub fn lookup_field(desc: &MessageDescriptor, key: &str) -> (r: Option<usize>)
    ensures
        match r {
            Some(i) => resolve_key(desc@, key@) == Some(i as int),
            None => resolve_key(desc@, key@) is None,
        },
{
    proof {
        lemma_fields_view(desc.fields@);
    }
    let k: String = key.to_owned();
    let n: usize = desc.fields.len();
    let mut i: usize = 0;
    while i < n
        invariant
            0 <= i <= n,
            n == desc.fields@.len(),
            k@ == key@,
            fields_view(desc.fields@).len() == n,
            forall|j: int| 0 <= j < n ==> fields_view(desc.fields@)[j] == field_view(
                desc.fields@[j],
            ),
            resolve_key(desc@, key@) == resolve_key_from(desc@.fields, key@, i as int),
        decreases n - i,
    {
        let f = &desc.fields[i];
        if f.name == k || f.json_name == k {
            return Some(i);
        }
        i = i + 1;
    }
    None
}

/// Both accepted spellings of a field resolve to that same field: this
/// is the dual-casing law for the resolver of a well-formed descriptor.
pub proof fn lemma_resolver_dual_casing(d: MessageDescV, fi: int)
    requires
        msg_wf(d),
        0 <= fi < d.fields.len(),
    ensures
        resolve_key(d, d.fields[fi].name) == Some(fi),
        resolve_key(d, d.fields[fi].json_name) == Some(fi),
{
    lemma_resolve_self(d.fields, d.fields[fi].name, fi, 0);
    lemma_resolve_self(d.fields, d.fields[fi].json_name, fi, 0);
}

proof fn lemma_resolve_self(fields: Seq<FieldDescV>, key: Seq<char>, fi: int, i: int)
    requires
        fields_keys_distinct(fields),
        0 <= i <= fi < fields.len(),
        key == fields[fi].name || key == fields[fi].json_name,
    ensures
        resolve_key_from(fields, key, i) == Some(fi),
    decreases fields.len() - i,
{
    if i < fi {
        lemma_resolve_self(fields, key, fi, i + 1);
    }
}

/// A resolved key belongs to the field it resolves to.
pub proof fn lemma_resolve_is_match(fields: Seq<FieldDescV>, key: Seq<char>, i: int, fi: int)
    requires
        resolve_key_from(fields, key, i) == Some(fi),
        0 <= i,
    ensures
        i <= fi < fields.len(),
        fields[fi].name == key || fields[fi].json_name == key,
    decreases fields.len() - i,
{
    if i < fields.len() && !(fields[i].name == key || fields[i].json_name == key) {
        lemma_resolve_is_match(fields, key, i + 1, fi);
    }
}


/// Introduces `fields_wf` from per-field well-formedness.
pub proof fn lemma_fields_wf_intro(s: Seq<FieldDescV>)
    requires
        forall|i: int| 0 <= i < s.len() ==> field_wf(#[trigger] s[i]),
    ensures
        fields_wf(s),
    decreases s.len(),
{
    if s.len() > 0 {
        let rest = s.subrange(1, s.len() as int);
        assert forall|i: int| 0 <= i < rest.len() implies field_wf(#[trigger] rest[i]) by {
            assert(rest[i] == s[i + 1]);
        }
        lemma_fields_wf_intro(rest);
    }
}

// ---------------------------------------------------------------------
// Deep copies
// ---------------------------------------------------------------------

/// A copy of an enum table.
pub fn clone_enum_descriptor(e: &EnumDescriptor) -> (r: EnumDescriptor)
    ensures
        r@ == e@,
{
    let n: usize = e.entries.len();
    let mut entries: Vec<EnumEntry> = Vec::new();
    let mut i: usize = 0;
    while i < n
        invariant
            i <= n,
            n == e.entries@.len(),
            entries@.len() == i,
            forall|t: int|
                0 <= t < i ==> #[trigger] entries@[t].symbolic_name@
                    == e.entries@[t].symbolic_name@ && entries@[t].numeric_value
                    == e.entries@[t].numeric_value,
        decreases n - i,
    {
        entries.push(
            EnumEntry {
                symbolic_name: e.entries[i].symbolic_name.clone(),
                numeric_value: e.entries[i].numeric_value,
            },
        );
        i = i + 1;
    }
    let r = EnumDescriptor { entries };
    proof {
        assert(r@.entries =~= e@.entries);
    }
    r
}

/// A copy of a field kind.
pub fn clone_kind(k: &FieldKind) -> (r: FieldKind)
    ensures
        r@ == k@,
    decreases k, 2int, 0int,
{
    match k {
        FieldKind::Int32 => FieldKind::Int32,
        FieldKind::Int64 => FieldKind::Int64,
        FieldKind::UInt32 => FieldKind::UInt32,
        FieldKind::UInt64 => FieldKind::UInt64,
        FieldKind::Bool => FieldKind::Bool,
        FieldKind::Str => FieldKind::Str,
        FieldKind::Bytes => FieldKind::Bytes,
        FieldKind::Enum(e) => FieldKind::Enum(clone_enum_descriptor(e)),
        FieldKind::Message(d) => {
            proof {
                assert(decreases_to!(k => d));
            }
            FieldKind::Message(clone_descriptor(d))
        }
        FieldKind::Mapping(kk, vk) => {
            proof {
                assert(decreases_to!(k => vk));
            }
            FieldKind::Mapping(*kk, clone_mapval_kind(vk))
        }
    }
}

/// A copy of a map value kind.
pub fn clone_mapval_kind(k: &MapValKind) -> (r: MapValKind)
    ensures
        r@ == k@,
    decreases k, 2int, 0int,
{
    match k {
        MapValKind::Int32 => MapValKind::Int32,
        MapValKind::Int64 => MapValKind::Int64,
        MapValKind::UInt32 => MapValKind::UInt32,
        MapValKind::UInt64 => MapValKind::UInt64,
        MapValKind::Bool => MapValKind::Bool,
        MapValKind::Str => MapValKind::Str,
        MapValKind::Bytes => MapValKind::Bytes,
        MapValKind::Enum(e) => MapValKind::Enum(clone_enum_descriptor(e)),
        MapValKind::Message(d) => {
            proof {
                assert(decreases_to!(k => d));
            }
            MapValKind::Message(clone_descriptor(d))
        }
    }
}

/// A copy of a field descriptor.
pub fn clone_field_descriptor(f: &FieldDescriptor) -> (r: FieldDescriptor)
    ensures
        r@ == f@,
    decreases f, 3int, 0int,
{
    proof {
        assert(decreases_to!(f => f.kind));
    }
    FieldDescriptor {
        name: f.name.clone(),
        json_name: f.json_name.clone(),
        kind: clone_kind(&f.kind),
        presence: f.presence,
        oneof_group: f.oneof_group,
    }
}

/// A copy of a message descriptor.
pub fn clone_descriptor(d: &MessageDescriptor) -> (r: MessageDescriptor)
    ensures
        r@ == d@,
    decreases d, 4int, 0int,
{
    proof {
        lemma_fields_view(d.fields@);
    }
    let n: usize = d.fields.len();
    let mut fields: Vec<FieldDescriptor> = Vec::new();
    let mut i: usize = 0;
    while i < n
        invariant
            i <= n,
            n == d.fields@.len(),
            fields@.len() == i,
            forall|t: int| 0 <= t < i ==> field_view(#[trigger] fields@[t]) == field_view(
                d.fields@[t],
            ),
        decreases n - i,
    {
        proof {
            assert(decreases_to!(d => d.fields));
            assert(decreases_to!(d.fields => d.fields@));
            assert(decreases_to!(d.fields@ => d.fields@[i as int]));
        }
        fields.push(clone_field_descriptor(&d.fields[i]));
        i = i + 1;
    }
    let r = MessageDescriptor { fields };
    proof {
        lemma_fields_view(r.fields@);
        assert(r@.fields =~= d@.fields);
    }
    r
}

} // verus!
