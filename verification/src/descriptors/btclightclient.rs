//! Descriptor tables for the `babylon.btclightclient.v1` message types.

use vstd::prelude::*;

use crate::descriptors::{field, field_v};
use crate::schema::{
    fields_keys_distinct, field_wf, lemma_fields_view, lemma_fields_wf_intro, msg_wf, FieldDescriptor, FieldKind, FieldKindV, MessageDescriptor, MessageDescV, Presence,
};

verus! {

broadcast use vstd::seq::group_seq_axioms, vstd::std_specs::vec::group_vec_axioms;

/// The descriptor of `babylon.btclightclient.v1.BtcHeaderInfo`.
pub open spec fn btc_header_info_desc() -> MessageDescV {
    MessageDescV {
        fields: seq![
            field_v(
                "header"@,
                "header"@,
                FieldKindV::Bytes,
                Presence::Singular,
                None,
            ),
            field_v(
                "hash"@,
                "hash"@,
                FieldKindV::Bytes,
                Presence::Singular,
                None,
            ),
            field_v(
                "height"@,
                "height"@,
                FieldKindV::UInt64,
                Presence::Singular,
                None,
            ),
            field_v(
                "work"@,
                "work"@,
                FieldKindV::Bytes,
                Presence::Singular,
                None,
            ),
        ],
    }
}

/// Builds the descriptor of `babylon.btclightclient.v1.BtcHeaderInfo`.
pub fn btc_header_info_descriptor() -> (d: MessageDescriptor)
    ensures
        d@ == btc_header_info_desc(),
        msg_wf(btc_header_info_desc()),
{
    let mut fields: Vec<FieldDescriptor> = Vec::new();
    fields.push(field("header", "header", FieldKind::Bytes, Presence::Singular, None));
    fields.push(field("hash", "hash", FieldKind::Bytes, Presence::Singular, None));
    fields.push(field("height", "height", FieldKind::UInt64, Presence::Singular, None));
    fields.push(field("work", "work", FieldKind::Bytes, Presence::Singular, None));
    let d = MessageDescriptor { fields };
    proof {
        lemma_fields_view(d.fields@);
        assert(d@.fields =~= btc_header_info_desc().fields);
                let s = btc_header_info_desc().fields;
            assert forall|i: int| 0 <= i < s.len() implies field_wf(#[trigger] s[i]) by {
                assert(0 <= i < 4);
            }
            lemma_fields_wf_intro(s);
            reveal_strlit("hash");
            reveal_strlit("header");
            reveal_strlit("height");
            reveal_strlit("work");
            assert("hash"@ != "header"@) by {
                assert("hash"@.len() == 4 && "header"@.len() == 6);
            }
            assert("hash"@ != "height"@) by {
                assert("hash"@.len() == 4 && "height"@.len() == 6);
            }
            assert("hash"@ != "work"@) by {
                assert("hash"@[0] == 'h' && "work"@[0] == 'w');
            }
            assert("header"@ != "height"@) by {
                assert("header"@[2] == 'a' && "height"@[2] == 'i');
            }
            assert("header"@ != "work"@) by {
                assert("header"@.len() == 6 && "work"@.len() == 4);
            }
            assert("height"@ != "work"@) by {
                assert("height"@.len() == 6 && "work"@.len() == 4);
            }
            assert(fields_keys_distinct(s));
    }
    d
}

} // verus!
