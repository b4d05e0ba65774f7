//! A schema-driven canonical JSON codec for protobuf-style messages.
//!
//! A `MessageDescriptor` describes a message type: its fields, their wire
//! and JSON names, their kinds (scalars, bytes, enums, nested messages,
//! repeated fields and maps), their presence, and their oneof groups.
//! `encode` turns an `Instance` of such a message into a JSON tree
//! following the proto3 JSON mapping (camelCase keys, 64-bit integers as
//! decimal strings, bytes as base64, enums as symbolic names); `decode`
//! validates a JSON tree against the descriptor and rebuilds the
//! instance, rejecting duplicate keys, conflicting oneof members and
//! malformed values.

pub mod b64;
pub mod decode;
pub mod descriptors;
pub mod encode;
pub mod errors;
pub mod json;
pub mod laws;
pub mod msg;
pub mod num;
pub mod query;
pub mod schema;
pub mod strutil;
pub mod value;
