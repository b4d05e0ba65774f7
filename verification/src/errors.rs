//! The codec's error types.
//!
//! Every error carries a dotted path of field names pointing at the
//! offending field (`"epoch"`, `"lastBlockHeader.height"`), built from
//! canonical JSON names; an unknown-field error carries the key as it
//! was supplied.

use vstd::prelude::*;

use crate::strutil::push_char;

verus! {

broadcast use vstd::seq::group_seq_axioms, vstd::std_specs::vec::group_vec_axioms;

/// The ways a decode can fail.
#[derive(Clone, Copy, Debug, PartialEq, Eq, Structural)]
pub enum DecErrKind {
    /// A key resolving to no field, in strict mode only.
    UnknownField,
    /// A field, or a oneof group, fed twice in one object.
    DuplicateField,
    /// A malformed or out-of-range integer.
    InvalidNumber,
    /// A malformed base64 string.
    InvalidBytes,
    /// Neither a known symbolic enum name nor a known numeric value.
    UnknownEnumValue,
    /// A JSON value of the wrong shape for its field kind.
    TypeMismatch,
}

/// Mathematical model of a decode error: its kind and the dotted path
/// to the offending field.
pub struct DecErrV {
    pub kind: DecErrKind,
    pub path: Seq<char>,
}

/// A decode error; the payload is the dotted path to the offending
/// field (for an unknown field, the supplied key).
#[derive(Debug, PartialEq, Eq)]
pub enum DecodeError {
    UnknownField(String),
    DuplicateField(String),
    InvalidNumber(String),
    InvalidBytes(String),
    UnknownEnumValue(String),
    TypeMismatch(String),
}

impl View for DecodeError {
    type V = DecErrV;

    open spec fn view(&self) -> DecErrV {
        match self {
            DecodeError::UnknownField(p) => DecErrV { kind: DecErrKind::UnknownField, path: p@ },
            DecodeError::DuplicateField(p) => DecErrV {
                kind: DecErrKind::DuplicateField,
                path: p@,
            },
            DecodeError::InvalidNumber(p) => DecErrV { kind: DecErrKind::InvalidNumber, path: p@ },
            DecodeError::InvalidBytes(p) => DecErrV { kind: DecErrKind::InvalidBytes, path: p@ },
            DecodeError::UnknownEnumValue(p) => DecErrV {
                kind: DecErrKind::UnknownEnumValue,
                path: p@,
            },
            DecodeError::TypeMismatch(p) => DecErrV { kind: DecErrKind::TypeMismatch, path: p@ },
        }
    }
}

impl DecodeError {
    /// The dotted path to the offending field.
    pub fn path(&self) -> (r: &String)
        ensures
            r@ == self@.path,
    {
        match self {
            DecodeError::UnknownField(p) => p,
            DecodeError::DuplicateField(p) => p,
            DecodeError::InvalidNumber(p) => p,
            DecodeError::InvalidBytes(p) => p,
            DecodeError::UnknownEnumValue(p) => p,
            DecodeError::TypeMismatch(p) => p,
        }
    }
}

/// The one way an encode can fail: a set enum field holds a numeric
/// value its table does not name.  The payload is the dotted path to
/// the field.
#[derive(Debug, PartialEq, Eq)]
pub enum EncodeError {
    UnknownEnumValue(String),
}

/// Prefixing a path with the name of the field it lies under.  An
/// empty inner path means the error is at the named field itself.
pub open spec fn path_join(name: Seq<char>, inner: Seq<char>) -> Seq<char> {
    if inner.len() == 0 {
        name
    } else {
        name + seq!['.'] + inner
    }
}

/// Builds the dotted path of an error lying under the named field.
pub fn path_join_exec(name: &String, inner: &String) -> (r: String)
    ensures
        r@ == path_join(name@, inner@),
{
    let mut r = name.clone();
    if inner.as_str().unicode_len() == 0 {
        proof {
            assert(inner@ =~= Seq::<char>::empty());
            assert(r@ =~= path_join(name@, inner@));
        }
        r
    } else {
        push_char(&mut r, '.');
        r.append(inner.as_str());
        proof {
            assert(r@ =~= name@ + seq!['.'] + inner@);
        }
        r
    }
}

} // verus!
