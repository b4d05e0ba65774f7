//! Descriptor tables for the message types of the supported proto
//! packages, one builder per message, plus the enum tables, grouped
//! by package.
//!
//! A message whose proto type is defined outside the supported
//! packages (a block header, a timestamp, a staking message, a Merkle
//! proof) is taken as a parameter: the caller supplies its descriptor,
//! and the built table is well-formed whenever the supplied ones are.

use vstd::prelude::*;

pub mod btccheckpoint;
pub mod btclightclient;
pub mod checkpointing;
pub mod epoching;
pub mod zoneconcierge;

use crate::schema::{EnumEntry, FieldDescriptor, FieldDescV, FieldKind, FieldKindV, Presence};

verus! {

/// Shorthand for one field description.
pub open spec fn field_v(
    name: Seq<char>,
    json_name: Seq<char>,
    kind: FieldKindV,
    presence: Presence,
    oneof_group: Option<u64>,
) -> FieldDescV {
    FieldDescV { name, json_name, kind, presence, oneof_group }
}

pub(crate) fn field(
    name: &str,
    json_name: &str,
    kind: FieldKind,
    presence: Presence,
    oneof_group: Option<u64>,
) -> (f: FieldDescriptor)
    ensures
        f@ == field_v(name@, json_name@, kind@, presence, oneof_group),
{
    FieldDescriptor {
        name: name.to_owned(),
        json_name: json_name.to_owned(),
        kind,
        presence,
        oneof_group,
    }
}

pub(crate) fn enum_entry(name: &str, number: i32) -> (e: EnumEntry)
    ensures
        e.symbolic_name@ == name@,
        e.numeric_value == number,
{
    EnumEntry { symbolic_name: name.to_owned(), numeric_value: number }
}

} // verus!
