//! Descriptor tables for the `babylon.epoching.v1` message types.

use vstd::prelude::*;

use crate::descriptors::{enum_entry, field, field_v};
use crate::schema::{
    clone_descriptor, fields_keys_distinct, field_wf, lemma_fields_view, lemma_fields_wf_intro, msg_wf, EnumDescriptor, EnumDescV, EnumEntry, EnumEntryV, FieldDescriptor, FieldKind, FieldKindV, MessageDescriptor, MessageDescV, Presence,
};

verus! {

broadcast use vstd::seq::group_seq_axioms, vstd::std_specs::vec::group_vec_axioms;

/// The enum table of `babylon.epoching.v1.BondState`.
pub open spec fn bond_state_desc() -> EnumDescV {
    EnumDescV {
        entries: seq![
            EnumEntryV { name: "CREATED"@, number: 0 },
            EnumEntryV { name: "BONDED"@, number: 1 },
            EnumEntryV { name: "UNBONDING"@, number: 2 },
            EnumEntryV { name: "UNBONDED"@, number: 3 },
            EnumEntryV { name: "REMOVED"@, number: 4 },
        ],
    }
}

/// Builds the enum table of `babylon.epoching.v1.BondState`.
pub fn bond_state_table() -> (e: EnumDescriptor)
    ensures
        e@ == bond_state_desc(),
        bond_state_desc().wf(),
{
    let mut entries: Vec<EnumEntry> = Vec::new();
    entries.push(enum_entry("CREATED", 0));
    entries.push(enum_entry("BONDED", 1));
    entries.push(enum_entry("UNBONDING", 2));
    entries.push(enum_entry("UNBONDED", 3));
    entries.push(enum_entry("REMOVED", 4));
    let e = EnumDescriptor { entries };
    proof {
        assert(e@.entries =~= bond_state_desc().entries);
        reveal_strlit("CREATED");
        reveal_strlit("BONDED");
        reveal_strlit("UNBONDING");
        reveal_strlit("UNBONDED");
        reveal_strlit("REMOVED");
        assert("BONDED"@ != "CREATED"@) by {
                assert("BONDED"@.len() == 6 && "CREATED"@.len() == 7);
            }
        assert("BONDED"@ != "REMOVED"@) by {
                assert("BONDED"@.len() == 6 && "REMOVED"@.len() == 7);
            }
        assert("BONDED"@ != "UNBONDED"@) by {
                assert("BONDED"@.len() == 6 && "UNBONDED"@.len() == 8);
            }
        assert("BONDED"@ != "UNBONDING"@) by {
                assert("BONDED"@.len() == 6 && "UNBONDING"@.len() == 9);
            }
        assert("CREATED"@ != "REMOVED"@) by {
                assert("CREATED"@[0] == 'C' && "REMOVED"@[0] == 'R');
            }
        assert("CREATED"@ != "UNBONDED"@) by {
                assert("CREATED"@.len() == 7 && "UNBONDED"@.len() == 8);
            }
        assert("CREATED"@ != "UNBONDING"@) by {
                assert("CREATED"@.len() == 7 && "UNBONDING"@.len() == 9);
            }
        assert("REMOVED"@ != "UNBONDED"@) by {
                assert("REMOVED"@.len() == 7 && "UNBONDED"@.len() == 8);
            }
        assert("REMOVED"@ != "UNBONDING"@) by {
                assert("REMOVED"@.len() == 7 && "UNBONDING"@.len() == 9);
            }
        assert("UNBONDED"@ != "UNBONDING"@) by {
                assert("UNBONDED"@.len() == 8 && "UNBONDING"@.len() == 9);
            }
        assert(bond_state_desc().entries[0].number == 0);
        assert(bond_state_desc().wf());
    }
    e
}

/// The descriptor of `babylon.epoching.v1.DelegationStateUpdate`.
pub open spec fn delegation_state_update_desc(timestamp: MessageDescV) -> MessageDescV {
    MessageDescV {
        fields: seq![
            field_v(
                "state"@,
                "state"@,
                FieldKindV::Enum(bond_state_desc()),
                Presence::Singular,
                None,
            ),
            field_v(
                "val_addr"@,
                "valAddr"@,
                FieldKindV::Str,
                Presence::Singular,
                None,
            ),
            field_v(
                "block_height"@,
                "blockHeight"@,
                FieldKindV::UInt64,
                Presence::Singular,
                None,
            ),
            field_v(
                "block_time"@,
                "blockTime"@,
                FieldKindV::Message(timestamp),
                Presence::Optional,
                None,
            ),
        ],
    }
}

/// Builds the descriptor of `babylon.epoching.v1.DelegationStateUpdate`.
pub fn delegation_state_update_descriptor(timestamp: &MessageDescriptor) -> (d: MessageDescriptor)
    ensures
        d@ == delegation_state_update_desc(timestamp@),
        msg_wf(timestamp@) ==> msg_wf(delegation_state_update_desc(timestamp@)),
{
    let mut fields: Vec<FieldDescriptor> = Vec::new();
    fields.push(field("state", "state", FieldKind::Enum(bond_state_table()), Presence::Singular, None));
    fields.push(field("val_addr", "valAddr", FieldKind::Str, Presence::Singular, None));
    fields.push(field("block_height", "blockHeight", FieldKind::UInt64, Presence::Singular, None));
    fields.push(field("block_time", "blockTime", FieldKind::Message(clone_descriptor(timestamp)), Presence::Optional, None));
    let d = MessageDescriptor { fields };
    proof {
        lemma_fields_view(d.fields@);
        assert(d@.fields =~= delegation_state_update_desc(timestamp@).fields);
        if msg_wf(timestamp@) {
                let s = delegation_state_update_desc(timestamp@).fields;
            assert forall|i: int| 0 <= i < s.len() implies field_wf(#[trigger] s[i]) by {
                assert(0 <= i < 4);
            }
            lemma_fields_wf_intro(s);
            reveal_strlit("blockHeight");
            reveal_strlit("blockTime");
            reveal_strlit("block_height");
            reveal_strlit("block_time");
            reveal_strlit("state");
            reveal_strlit("valAddr");
            reveal_strlit("val_addr");
            assert("blockHeight"@ != "blockTime"@) by {
                assert("blockHeight"@.len() == 11 && "blockTime"@.len() == 9);
            }
            assert("blockHeight"@ != "block_height"@) by {
                assert("blockHeight"@.len() == 11 && "block_height"@.len() == 12);
            }
            assert("blockHeight"@ != "block_time"@) by {
                assert("blockHeight"@.len() == 11 && "block_time"@.len() == 10);
            }
            assert("blockHeight"@ != "state"@) by {
                assert("blockHeight"@.len() == 11 && "state"@.len() == 5);
            }
            assert("blockHeight"@ != "valAddr"@) by {
                assert("blockHeight"@.len() == 11 && "valAddr"@.len() == 7);
            }
            assert("blockHeight"@ != "val_addr"@) by {
                assert("blockHeight"@.len() == 11 && "val_addr"@.len() == 8);
            }
            assert("blockTime"@ != "block_height"@) by {
                assert("blockTime"@.len() == 9 && "block_height"@.len() == 12);
            }
            assert("blockTime"@ != "block_time"@) by {
                assert("blockTime"@.len() == 9 && "block_time"@.len() == 10);
            }
            assert("blockTime"@ != "state"@) by {
                assert("blockTime"@.len() == 9 && "state"@.len() == 5);
            }
            assert("blockTime"@ != "valAddr"@) by {
                assert("blockTime"@.len() == 9 && "valAddr"@.len() == 7);
            }
            assert("blockTime"@ != "val_addr"@) by {
                assert("blockTime"@.len() == 9 && "val_addr"@.len() == 8);
            }
            assert("block_height"@ != "block_time"@) by {
                assert("block_height"@.len() == 12 && "block_time"@.len() == 10);
            }
            assert("block_height"@ != "state"@) by {
                assert("block_height"@.len() == 12 && "state"@.len() == 5);
            }
            assert("block_height"@ != "valAddr"@) by {
                assert("block_height"@.len() == 12 && "valAddr"@.len() == 7);
            }
            assert("block_height"@ != "val_addr"@) by {
                assert("block_height"@.len() == 12 && "val_addr"@.len() == 8);
            }
            assert("block_time"@ != "state"@) by {
                assert("block_time"@.len() == 10 && "state"@.len() == 5);
            }
            assert("block_time"@ != "valAddr"@) by {
                assert("block_time"@.len() == 10 && "valAddr"@.len() == 7);
            }
            assert("block_time"@ != "val_addr"@) by {
                assert("block_time"@.len() == 10 && "val_addr"@.len() == 8);
            }
            assert("state"@ != "valAddr"@) by {
                assert("state"@.len() == 5 && "valAddr"@.len() == 7);
            }
            assert("state"@ != "val_addr"@) by {
                assert("state"@.len() == 5 && "val_addr"@.len() == 8);
            }
            assert("valAddr"@ != "val_addr"@) by {
                assert("valAddr"@.len() == 7 && "val_addr"@.len() == 8);
            }
            assert(fields_keys_distinct(s));
        }
    }
    d
}

/// The descriptor of `babylon.epoching.v1.DelegationLifecycle`.
pub open spec fn delegation_lifecycle_desc(timestamp: MessageDescV) -> MessageDescV {
    MessageDescV {
        fields: seq![
            field_v(
                "del_addr"@,
                "delAddr"@,
                FieldKindV::Str,
                Presence::Singular,
                None,
            ),
            field_v(
                "del_life"@,
                "delLife"@,
                FieldKindV::Message(delegation_state_update_desc(timestamp)),
                Presence::Repeated,
                None,
            ),
        ],
    }
}

/// Builds the descriptor of `babylon.epoching.v1.DelegationLifecycle`.
pub fn delegation_lifecycle_descriptor(timestamp: &MessageDescriptor) -> (d: MessageDescriptor)
    ensures
        d@ == delegation_lifecycle_desc(timestamp@),
        msg_wf(timestamp@) ==> msg_wf(delegation_lifecycle_desc(timestamp@)),
{
    let mut fields: Vec<FieldDescriptor> = Vec::new();
    fields.push(field("del_addr", "delAddr", FieldKind::Str, Presence::Singular, None));
    fields.push(field("del_life", "delLife", FieldKind::Message(delegation_state_update_descriptor(timestamp)), Presence::Repeated, None));
    let d = MessageDescriptor { fields };
    proof {
        lemma_fields_view(d.fields@);
        assert(d@.fields =~= delegation_lifecycle_desc(timestamp@).fields);
        if msg_wf(timestamp@) {
                let s = delegation_lifecycle_desc(timestamp@).fields;
            assert forall|i: int| 0 <= i < s.len() implies field_wf(#[trigger] s[i]) by {
                assert(0 <= i < 2);
            }
            lemma_fields_wf_intro(s);
            reveal_strlit("delAddr");
            reveal_strlit("delLife");
            reveal_strlit("del_addr");
            reveal_strlit("del_life");
            assert("delAddr"@ != "delLife"@) by {
                assert("delAddr"@[3] == 'A' && "delLife"@[3] == 'L');
            }
            assert("delAddr"@ != "del_addr"@) by {
                assert("delAddr"@.len() == 7 && "del_addr"@.len() == 8);
            }
            assert("delAddr"@ != "del_life"@) by {
                assert("delAddr"@.len() == 7 && "del_life"@.len() == 8);
            }
            assert("delLife"@ != "del_addr"@) by {
                assert("delLife"@.len() == 7 && "del_addr"@.len() == 8);
            }
            assert("delLife"@ != "del_life"@) by {
                assert("delLife"@.len() == 7 && "del_life"@.len() == 8);
            }
            assert("del_addr"@ != "del_life"@) by {
                assert("del_addr"@[4] == 'a' && "del_life"@[4] == 'l');
            }
            assert(fields_keys_distinct(s));
        }
    }
    d
}

/// The descriptor of `babylon.epoching.v1.Epoch`.
pub open spec fn epoch_desc(header: MessageDescV) -> MessageDescV {
    MessageDescV {
        fields: seq![
            field_v(
                "epoch_number"@,
                "epochNumber"@,
                FieldKindV::UInt64,
                Presence::Singular,
                None,
            ),
            field_v(
                "current_epoch_interval"@,
                "currentEpochInterval"@,
                FieldKindV::UInt64,
                Presence::Singular,
                None,
            ),
            field_v(
                "first_block_height"@,
                "firstBlockHeight"@,
                FieldKindV::UInt64,
                Presence::Singular,
                None,
            ),
            field_v(
                "last_block_header"@,
                "lastBlockHeader"@,
                FieldKindV::Message(header),
                Presence::Optional,
                None,
            ),
            field_v(
                "app_hash_root"@,
                "appHashRoot"@,
                FieldKindV::Bytes,
                Presence::Singular,
                None,
            ),
            field_v(
                "sealer_header"@,
                "sealerHeader"@,
                FieldKindV::Message(header),
                Presence::Optional,
                None,
            ),
        ],
    }
}

/// Builds the descriptor of `babylon.epoching.v1.Epoch`.
pub fn epoch_descriptor(header: &MessageDescriptor) -> (d: MessageDescriptor)
    ensures
        d@ == epoch_desc(header@),
        msg_wf(header@) ==> msg_wf(epoch_desc(header@)),
{
    let mut fields: Vec<FieldDescriptor> = Vec::new();
    fields.push(field("epoch_number", "epochNumber", FieldKind::UInt64, Presence::Singular, None));
    fields.push(field("current_epoch_interval", "currentEpochInterval", FieldKind::UInt64, Presence::Singular, None));
    fields.push(field("first_block_height", "firstBlockHeight", FieldKind::UInt64, Presence::Singular, None));
    fields.push(field("last_block_header", "lastBlockHeader", FieldKind::Message(clone_descriptor(header)), Presence::Optional, None));
    fields.push(field("app_hash_root", "appHashRoot", FieldKind::Bytes, Presence::Singular, None));
    fields.push(field("sealer_header", "sealerHeader", FieldKind::Message(clone_descriptor(header)), Presence::Optional, None));
    let d = MessageDescriptor { fields };
    proof {
        lemma_fields_view(d.fields@);
        assert(d@.fields =~= epoch_desc(header@).fields);
        if msg_wf(header@) {
                let s = epoch_desc(header@).fields;
            assert forall|i: int| 0 <= i < s.len() implies field_wf(#[trigger] s[i]) by {
                assert(0 <= i < 6);
            }
            lemma_fields_wf_intro(s);
            reveal_strlit("appHashRoot");
            reveal_strlit("app_hash_root");
            reveal_strlit("currentEpochInterval");
            reveal_strlit("current_epoch_interval");
            reveal_strlit("epochNumber");
            reveal_strlit("epoch_number");
            reveal_strlit("firstBlockHeight");
            reveal_strlit("first_block_height");
            reveal_strlit("lastBlockHeader");
            reveal_strlit("last_block_header");
            reveal_strlit("sealerHeader");
            reveal_strlit("sealer_header");
            assert("appHashRoot"@ != "app_hash_root"@) by {
                assert("appHashRoot"@.len() == 11 && "app_hash_root"@.len() == 13);
            }
            assert("appHashRoot"@ != "currentEpochInterval"@) by {
                assert("appHashRoot"@.len() == 11 && "currentEpochInterval"@.len() == 20);
            }
            assert("appHashRoot"@ != "current_epoch_interval"@) by {
                assert("appHashRoot"@.len() == 11 && "current_epoch_interval"@.len() == 22);
            }
            assert("appHashRoot"@ != "epochNumber"@) by {
                assert("appHashRoot"@[0] == 'a' && "epochNumber"@[0] == 'e');
            }
            assert("appHashRoot"@ != "epoch_number"@) by {
                assert("appHashRoot"@.len() == 11 && "epoch_number"@.len() == 12);
            }
            assert("appHashRoot"@ != "firstBlockHeight"@) by {
                assert("appHashRoot"@.len() == 11 && "firstBlockHeight"@.len() == 16);
            }
            assert("appHashRoot"@ != "first_block_height"@) by {
                assert("appHashRoot"@.len() == 11 && "first_block_height"@.len() == 18);
            }
            assert("appHashRoot"@ != "lastBlockHeader"@) by {
                assert("appHashRoot"@.len() == 11 && "lastBlockHeader"@.len() == 15);
            }
            assert("appHashRoot"@ != "last_block_header"@) by {
                assert("appHashRoot"@.len() == 11 && "last_block_header"@.len() == 17);
            }
            assert("appHashRoot"@ != "sealerHeader"@) by {
                assert("appHashRoot"@.len() == 11 && "sealerHeader"@.len() == 12);
            }
            assert("appHashRoot"@ != "sealer_header"@) by {
                assert("appHashRoot"@.len() == 11 && "sealer_header"@.len() == 13);
            }
            assert("app_hash_root"@ != "currentEpochInterval"@) by {
                assert("app_hash_root"@.len() == 13 && "currentEpochInterval"@.len() == 20);
            }
            assert("app_hash_root"@ != "current_epoch_interval"@) by {
                assert("app_hash_root"@.len() == 13 && "current_epoch_interval"@.len() == 22);
            }
            assert("app_hash_root"@ != "epochNumber"@) by {
                assert("app_hash_root"@.len() == 13 && "epochNumber"@.len() == 11);
            }
            assert("app_hash_root"@ != "epoch_number"@) by {
                assert("app_hash_root"@.len() == 13 && "epoch_number"@.len() == 12);
            }
            assert("app_hash_root"@ != "firstBlockHeight"@) by {
                assert("app_hash_root"@.len() == 13 && "firstBlockHeight"@.len() == 16);
            }
            assert("app_hash_root"@ != "first_block_height"@) by {
                assert("app_hash_root"@.len() == 13 && "first_block_height"@.len() == 18);
            }
            assert("app_hash_root"@ != "lastBlockHeader"@) by {
                assert("app_hash_root"@.len() == 13 && "lastBlockHeader"@.len() == 15);
            }
            assert("app_hash_root"@ != "last_block_header"@) by {
                assert("app_hash_root"@.len() == 13 && "last_block_header"@.len() == 17);
            }
            assert("app_hash_root"@ != "sealerHeader"@) by {
                assert("app_hash_root"@.len() == 13 && "sealerHeader"@.len() == 12);
            }
            assert("app_hash_root"@ != "sealer_header"@) by {
                assert("app_hash_root"@[0] == 'a' && "sealer_header"@[0] == 's');
            }
            assert("currentEpochInterval"@ != "current_epoch_interval"@) by {
                assert("currentEpochInterval"@.len() == 20 && "current_epoch_interval"@.len() == 22);
            }
            assert("currentEpochInterval"@ != "epochNumber"@) by {
                assert("currentEpochInterval"@.len() == 20 && "epochNumber"@.len() == 11);
            }
            assert("currentEpochInterval"@ != "epoch_number"@) by {
                assert("currentEpochInterval"@.len() == 20 && "epoch_number"@.len() == 12);
            }
            assert("currentEpochInterval"@ != "firstBlockHeight"@) by {
                assert("currentEpochInterval"@.len() == 20 && "firstBlockHeight"@.len() == 16);
            }
            assert("currentEpochInterval"@ != "first_block_height"@) by {
                assert("currentEpochInterval"@.len() == 20 && "first_block_height"@.len() == 18);
            }
            assert("currentEpochInterval"@ != "lastBlockHeader"@) by {
                assert("currentEpochInterval"@.len() == 20 && "lastBlockHeader"@.len() == 15);
            }
            assert("currentEpochInterval"@ != "last_block_header"@) by {
                assert("currentEpochInterval"@.len() == 20 && "last_block_header"@.len() == 17);
            }
            assert("currentEpochInterval"@ != "sealerHeader"@) by {
                assert("currentEpochInterval"@.len() == 20 && "sealerHeader"@.len() == 12);
            }
            assert("currentEpochInterval"@ != "sealer_header"@) by {
                assert("currentEpochInterval"@.len() == 20 && "sealer_header"@.len() == 13);
            }
            assert("current_epoch_interval"@ != "epochNumber"@) by {
                assert("current_epoch_interval"@.len() == 22 && "epochNumber"@.len() == 11);
            }
            assert("current_epoch_interval"@ != "epoch_number"@) by {
                assert("current_epoch_interval"@.len() == 22 && "epoch_number"@.len() == 12);
            }
            assert("current_epoch_interval"@ != "firstBlockHeight"@) by {
                assert("current_epoch_interval"@.len() == 22 && "firstBlockHeight"@.len() == 16);
            }
            assert("current_epoch_interval"@ != "first_block_height"@) by {
                assert("current_epoch_interval"@.len() == 22 && "first_block_height"@.len() == 18);
            }
            assert("current_epoch_interval"@ != "lastBlockHeader"@) by {
                assert("current_epoch_interval"@.len() == 22 && "lastBlockHeader"@.len() == 15);
            }
            assert("current_epoch_interval"@ != "last_block_header"@) by {
                assert("current_epoch_interval"@.len() == 22 && "last_block_header"@.len() == 17);
            }
            assert("current_epoch_interval"@ != "sealerHeader"@) by {
                assert("current_epoch_interval"@.len() == 22 && "sealerHeader"@.len() == 12);
            }
            assert("current_epoch_interval"@ != "sealer_header"@) by {
                assert("current_epoch_interval"@.len() == 22 && "sealer_header"@.len() == 13);
            }
            assert("epochNumber"@ != "epoch_number"@) by {
                assert("epochNumber"@.len() == 11 && "epoch_number"@.len() == 12);
            }
            assert("epochNumber"@ != "firstBlockHeight"@) by {
                assert("epochNumber"@.len() == 11 && "firstBlockHeight"@.len() == 16);
            }
            assert("epochNumber"@ != "first_block_height"@) by {
                assert("epochNumber"@.len() == 11 && "first_block_height"@.len() == 18);
            }
            assert("epochNumber"@ != "lastBlockHeader"@) by {
                assert("epochNumber"@.len() == 11 && "lastBlockHeader"@.len() == 15);
            }
            assert("epochNumber"@ != "last_block_header"@) by {
                assert("epochNumber"@.len() == 11 && "last_block_header"@.len() == 17);
            }
            assert("epochNumber"@ != "sealerHeader"@) by {
                assert("epochNumber"@.len() == 11 && "sealerHeader"@.len() == 12);
            }
            assert("epochNumber"@ != "sealer_header"@) by {
                assert("epochNumber"@.len() == 11 && "sealer_header"@.len() == 13);
            }
            assert("epoch_number"@ != "firstBlockHeight"@) by {
                assert("epoch_number"@.len() == 12 && "firstBlockHeight"@.len() == 16);
            }
            assert("epoch_number"@ != "first_block_height"@) by {
                assert("epoch_number"@.len() == 12 && "first_block_height"@.len() == 18);
            }
            assert("epoch_number"@ != "lastBlockHeader"@) by {
                assert("epoch_number"@.len() == 12 && "lastBlockHeader"@.len() == 15);
            }
            assert("epoch_number"@ != "last_block_header"@) by {
                assert("epoch_number"@.len() == 12 && "last_block_header"@.len() == 17);
            }
            assert("epoch_number"@ != "sealerHeader"@) by {
                assert("epoch_number"@[0] == 'e' && "sealerHeader"@[0] == 's');
            }
            assert("epoch_number"@ != "sealer_header"@) by {
                assert("epoch_number"@.len() == 12 && "sealer_header"@.len() == 13);
            }
            assert("firstBlockHeight"@ != "first_block_height"@) by {
                assert("firstBlockHeight"@.len() == 16 && "first_block_height"@.len() == 18);
            }
            assert("firstBlockHeight"@ != "lastBlockHeader"@) by {
                assert("firstBlockHeight"@.len() == 16 && "lastBlockHeader"@.len() == 15);
            }
            assert("firstBlockHeight"@ != "last_block_header"@) by {
                assert("firstBlockHeight"@.len() == 16 && "last_block_header"@.len() == 17);
            }
            assert("firstBlockHeight"@ != "sealerHeader"@) by {
                assert("firstBlockHeight"@.len() == 16 && "sealerHeader"@.len() == 12);
            }
            assert("firstBlockHeight"@ != "sealer_header"@) by {
                assert("firstBlockHeight"@.len() == 16 && "sealer_header"@.len() == 13);
            }
            assert("first_block_height"@ != "lastBlockHeader"@) by {
                assert("first_block_height"@.len() == 18 && "lastBlockHeader"@.len() == 15);
            }
            assert("first_block_height"@ != "last_block_header"@) by {
                assert("first_block_height"@.len() == 18 && "last_block_header"@.len() == 17);
            }
            assert("first_block_height"@ != "sealerHeader"@) by {
                assert("first_block_height"@.len() == 18 && "sealerHeader"@.len() == 12);
            }
            assert("first_block_height"@ != "sealer_header"@) by {
                assert("first_block_height"@.len() == 18 && "sealer_header"@.len() == 13);
            }
            assert("lastBlockHeader"@ != "last_block_header"@) by {
                assert("lastBlockHeader"@.len() == 15 && "last_block_header"@.len() == 17);
            }
            assert("lastBlockHeader"@ != "sealerHeader"@) by {
                assert("lastBlockHeader"@.len() == 15 && "sealerHeader"@.len() == 12);
            }
            assert("lastBlockHeader"@ != "sealer_header"@) by {
                assert("lastBlockHeader"@.len() == 15 && "sealer_header"@.len() == 13);
            }
            assert("last_block_header"@ != "sealerHeader"@) by {
                assert("last_block_header"@.len() == 17 && "sealerHeader"@.len() == 12);
            }
            assert("last_block_header"@ != "sealer_header"@) by {
                assert("last_block_header"@.len() == 17 && "sealer_header"@.len() == 13);
            }
            assert("sealerHeader"@ != "sealer_header"@) by {
                assert("sealerHeader"@.len() == 12 && "sealer_header"@.len() == 13);
            }
            assert(fields_keys_distinct(s));
        }
    }
    d
}

/// The descriptor of `babylon.epoching.v1.QueuedMessage`.
pub open spec fn queued_message_desc(timestamp: MessageDescV, create_validator: MessageDescV, delegate: MessageDescV, undelegate: MessageDescV, begin_redelegate: MessageDescV) -> MessageDescV {
    MessageDescV {
        fields: seq![
            field_v(
                "tx_id"@,
                "txId"@,
                FieldKindV::Bytes,
                Presence::Singular,
                None,
            ),
            field_v(
                "msg_id"@,
                "msgId"@,
                FieldKindV::Bytes,
                Presence::Singular,
                None,
            ),
            field_v(
                "block_height"@,
                "blockHeight"@,
                FieldKindV::UInt64,
                Presence::Singular,
                None,
            ),
            field_v(
                "block_time"@,
                "blockTime"@,
                FieldKindV::Message(timestamp),
                Presence::Optional,
                None,
            ),
            field_v(
                "msg_create_validator"@,
                "msgCreateValidator"@,
                FieldKindV::Message(create_validator),
                Presence::Singular,
                Some(1),
            ),
            field_v(
                "msg_delegate"@,
                "msgDelegate"@,
                FieldKindV::Message(delegate),
                Presence::Singular,
                Some(1),
            ),
            field_v(
                "msg_undelegate"@,
                "msgUndelegate"@,
                FieldKindV::Message(undelegate),
                Presence::Singular,
                Some(1),
            ),
            field_v(
                "msg_begin_redelegate"@,
                "msgBeginRedelegate"@,
                FieldKindV::Message(begin_redelegate),
                Presence::Singular,
                Some(1),
            ),
        ],
    }
}

/// Builds the descriptor of `babylon.epoching.v1.QueuedMessage`.
pub fn queued_message_descriptor(timestamp: &MessageDescriptor, create_validator: &MessageDescriptor, delegate: &MessageDescriptor, undelegate: &MessageDescriptor, begin_redelegate: &MessageDescriptor) -> (d: MessageDescriptor)
    ensures
        d@ == queued_message_desc(timestamp@, create_validator@, delegate@, undelegate@, begin_redelegate@),
        msg_wf(timestamp@) && msg_wf(create_validator@) && msg_wf(delegate@) && msg_wf(undelegate@) && msg_wf(begin_redelegate@) ==> msg_wf(queued_message_desc(timestamp@, create_validator@, delegate@, undelegate@, begin_redelegate@)),
{
    let mut fields: Vec<FieldDescriptor> = Vec::new();
    fields.push(field("tx_id", "txId", FieldKind::Bytes, Presence::Singular, None));
    fields.push(field("msg_id", "msgId", FieldKind::Bytes, Presence::Singular, None));
    fields.push(field("block_height", "blockHeight", FieldKind::UInt64, Presence::Singular, None));
    fields.push(field("block_time", "blockTime", FieldKind::Message(clone_descriptor(timestamp)), Presence::Optional, None));
    fields.push(field("msg_create_validator", "msgCreateValidator", FieldKind::Message(clone_descriptor(create_validator)), Presence::Singular, Some(1)));
    fields.push(field("msg_delegate", "msgDelegate", FieldKind::Message(clone_descriptor(delegate)), Presence::Singular, Some(1)));
    fields.push(field("msg_undelegate", "msgUndelegate", FieldKind::Message(clone_descriptor(undelegate)), Presence::Singular, Some(1)));
    fields.push(field("msg_begin_redelegate", "msgBeginRedelegate", FieldKind::Message(clone_descriptor(begin_redelegate)), Presence::Singular, Some(1)));
    let d = MessageDescriptor { fields };
    proof {
        lemma_fields_view(d.fields@);
        assert(d@.fields =~= queued_message_desc(timestamp@, create_validator@, delegate@, undelegate@, begin_redelegate@).fields);
        if msg_wf(timestamp@) && msg_wf(create_validator@) && msg_wf(delegate@) && msg_wf(undelegate@) && msg_wf(begin_redelegate@) {
                let s = queued_message_desc(timestamp@, create_validator@, delegate@, undelegate@, begin_redelegate@).fields;
            assert forall|i: int| 0 <= i < s.len() implies field_wf(#[trigger] s[i]) by {
                assert(0 <= i < 8);
            }
            lemma_fields_wf_intro(s);
            reveal_strlit("blockHeight");
            reveal_strlit("blockTime");
            reveal_strlit("block_height");
            reveal_strlit("block_time");
            reveal_strlit("msgBeginRedelegate");
            reveal_strlit("msgCreateValidator");
            reveal_strlit("msgDelegate");
            reveal_strlit("msgId");
            reveal_strlit("msgUndelegate");
            reveal_strlit("msg_begin_redelegate");
            reveal_strlit("msg_create_validator");
            reveal_strlit("msg_delegate");
            reveal_strlit("msg_id");
            reveal_strlit("msg_undelegate");
            reveal_strlit("txId");
            reveal_strlit("tx_id");
            assert("blockHeight"@ != "blockTime"@) by {
                assert("blockHeight"@.len() == 11 && "blockTime"@.len() == 9);
            }
            assert("blockHeight"@ != "block_height"@) by {
                assert("blockHeight"@.len() == 11 && "block_height"@.len() == 12);
            }
            assert("blockHeight"@ != "block_time"@) by {
                assert("blockHeight"@.len() == 11 && "block_time"@.len() == 10);
            }
            assert("blockHeight"@ != "msgBeginRedelegate"@) by {
                assert("blockHeight"@.len() == 11 && "msgBeginRedelegate"@.len() == 18);
            }
            assert("blockHeight"@ != "msgCreateValidator"@) by {
                assert("blockHeight"@.len() == 11 && "msgCreateValidator"@.len() == 18);
            }
            assert("blockHeight"@ != "msgDelegate"@) by {
                assert("blockHeight"@[0] == 'b' && "msgDelegate"@[0] == 'm');
            }
            assert("blockHeight"@ != "msgId"@) by {
                assert("blockHeight"@.len() == 11 && "msgId"@.len() == 5);
            }
            assert("blockHeight"@ != "msgUndelegate"@) by {
                assert("blockHeight"@.len() == 11 && "msgUndelegate"@.len() == 13);
            }
            assert("blockHeight"@ != "msg_begin_redelegate"@) by {
                assert("blockHeight"@.len() == 11 && "msg_begin_redelegate"@.len() == 20);
            }
            assert("blockHeight"@ != "msg_create_validator"@) by {
                assert("blockHeight"@.len() == 11 && "msg_create_validator"@.len() == 20);
            }
            assert("blockHeight"@ != "msg_delegate"@) by {
                assert("blockHeight"@.len() == 11 && "msg_delegate"@.len() == 12);
            }
            assert("blockHeight"@ != "msg_id"@) by {
                assert("blockHeight"@.len() == 11 && "msg_id"@.len() == 6);
            }
            assert("blockHeight"@ != "msg_undelegate"@) by {
                assert("blockHeight"@.len() == 11 && "msg_undelegate"@.len() == 14);
            }
            assert("blockHeight"@ != "txId"@) by {
                assert("blockHeight"@.len() == 11 && "txId"@.len() == 4);
            }
            assert("blockHeight"@ != "tx_id"@) by {
                assert("blockHeight"@.len() == 11 && "tx_id"@.len() == 5);
            }
            assert("blockTime"@ != "block_height"@) by {
                assert("blockTime"@.len() == 9 && "block_height"@.len() == 12);
            }
            assert("blockTime"@ != "block_time"@) by {
                assert("blockTime"@.len() == 9 && "block_time"@.len() == 10);
            }
            assert("blockTime"@ != "msgBeginRedelegate"@) by {
                assert("blockTime"@.len() == 9 && "msgBeginRedelegate"@.len() == 18);
            }
            assert("blockTime"@ != "msgCreateValidator"@) by {
                assert("blockTime"@.len() == 9 && "msgCreateValidator"@.len() == 18);
            }
            assert("blockTime"@ != "msgDelegate"@) by {
                assert("blockTime"@.len() == 9 && "msgDelegate"@.len() == 11);
            }
            assert("blockTime"@ != "msgId"@) by {
                assert("blockTime"@.len() == 9 && "msgId"@.len() == 5);
            }
            assert("blockTime"@ != "msgUndelegate"@) by {
                assert("blockTime"@.len() == 9 && "msgUndelegate"@.len() == 13);
            }
            assert("blockTime"@ != "msg_begin_redelegate"@) by {
                assert("blockTime"@.len() == 9 && "msg_begin_redelegate"@.len() == 20);
            }
            assert("blockTime"@ != "msg_create_validator"@) by {
                assert("blockTime"@.len() == 9 && "msg_create_validator"@.len() == 20);
            }
            assert("blockTime"@ != "msg_delegate"@) by {
                assert("blockTime"@.len() == 9 && "msg_delegate"@.len() == 12);
            }
            assert("blockTime"@ != "msg_id"@) by {
                assert("blockTime"@.len() == 9 && "msg_id"@.len() == 6);
            }
            assert("blockTime"@ != "msg_undelegate"@) by {
                assert("blockTime"@.len() == 9 && "msg_undelegate"@.len() == 14);
            }
            assert("blockTime"@ != "txId"@) by {
                assert("blockTime"@.len() == 9 && "txId"@.len() == 4);
            }
            assert("blockTime"@ != "tx_id"@) by {
                assert("blockTime"@.len() == 9 && "tx_id"@.len() == 5);
            }
            assert("block_height"@ != "block_time"@) by {
                assert("block_height"@.len() == 12 && "block_time"@.len() == 10);
            }
            assert("block_height"@ != "msgBeginRedelegate"@) by {
                assert("block_height"@.len() == 12 && "msgBeginRedelegate"@.len() == 18);
            }
            assert("block_height"@ != "msgCreateValidator"@) by {
                assert("block_height"@.len() == 12 && "msgCreateValidator"@.len() == 18);
            }
            assert("block_height"@ != "msgDelegate"@) by {
                assert("block_height"@.len() == 12 && "msgDelegate"@.len() == 11);
            }
            assert("block_height"@ != "msgId"@) by {
                assert("block_height"@.len() == 12 && "msgId"@.len() == 5);
            }
            assert("block_height"@ != "msgUndelegate"@) by {
                assert("block_height"@.len() == 12 && "msgUndelegate"@.len() == 13);
            }
            assert("block_height"@ != "msg_begin_redelegate"@) by {
                assert("block_height"@.len() == 12 && "msg_begin_redelegate"@.len() == 20);
            }
            assert("block_height"@ != "msg_create_validator"@) by {
                assert("block_height"@.len() == 12 && "msg_create_validator"@.len() == 20);
            }
            assert("block_height"@ != "msg_delegate"@) by {
                assert("block_height"@[0] == 'b' && "msg_delegate"@[0] == 'm');
            }
            assert("block_height"@ != "msg_id"@) by {
                assert("block_height"@.len() == 12 && "msg_id"@.len() == 6);
            }
            assert("block_height"@ != "msg_undelegate"@) by {
                assert("block_height"@.len() == 12 && "msg_undelegate"@.len() == 14);
            }
            assert("block_height"@ != "txId"@) by {
                assert("block_height"@.len() == 12 && "txId"@.len() == 4);
            }
            assert("block_height"@ != "tx_id"@) by {
                assert("block_height"@.len() == 12 && "tx_id"@.len() == 5);
            }
            assert("block_time"@ != "msgBeginRedelegate"@) by {
                assert("block_time"@.len() == 10 && "msgBeginRedelegate"@.len() == 18);
            }
            assert("block_time"@ != "msgCreateValidator"@) by {
                assert("block_time"@.len() == 10 && "msgCreateValidator"@.len() == 18);
            }
            assert("block_time"@ != "msgDelegate"@) by {
                assert("block_time"@.len() == 10 && "msgDelegate"@.len() == 11);
            }
            assert("block_time"@ != "msgId"@) by {
                assert("block_time"@.len() == 10 && "msgId"@.len() == 5);
            }
            assert("block_time"@ != "msgUndelegate"@) by {
                assert("block_time"@.len() == 10 && "msgUndelegate"@.len() == 13);
            }
            assert("block_time"@ != "msg_begin_redelegate"@) by {
                assert("block_time"@.len() == 10 && "msg_begin_redelegate"@.len() == 20);
            }
            assert("block_time"@ != "msg_create_validator"@) by {
                assert("block_time"@.len() == 10 && "msg_create_validator"@.len() == 20);
            }
            assert("block_time"@ != "msg_delegate"@) by {
                assert("block_time"@.len() == 10 && "msg_delegate"@.len() == 12);
            }
            assert("block_time"@ != "msg_id"@) by {
                assert("block_time"@.len() == 10 && "msg_id"@.len() == 6);
            }
            assert("block_time"@ != "msg_undelegate"@) by {
                assert("block_time"@.len() == 10 && "msg_undelegate"@.len() == 14);
            }
            assert("block_time"@ != "txId"@) by {
                assert("block_time"@.len() == 10 && "txId"@.len() == 4);
            }
            assert("block_time"@ != "tx_id"@) by {
                assert("block_time"@.len() == 10 && "tx_id"@.len() == 5);
            }
            assert("msgBeginRedelegate"@ != "msgCreateValidator"@) by {
                assert("msgBeginRedelegate"@[3] == 'B' && "msgCreateValidator"@[3] == 'C');
            }
            assert("msgBeginRedelegate"@ != "msgDelegate"@) by {
                assert("msgBeginRedelegate"@.len() == 18 && "msgDelegate"@.len() == 11);
            }
            assert("msgBeginRedelegate"@ != "msgId"@) by {
                assert("msgBeginRedelegate"@.len() == 18 && "msgId"@.len() == 5);
            }
            assert("msgBeginRedelegate"@ != "msgUndelegate"@) by {
                assert("msgBeginRedelegate"@.len() == 18 && "msgUndelegate"@.len() == 13);
            }
            assert("msgBeginRedelegate"@ != "msg_begin_redelegate"@) by {
                assert("msgBeginRedelegate"@.len() == 18 && "msg_begin_redelegate"@.len() == 20);
            }
            assert("msgBeginRedelegate"@ != "msg_create_validator"@) by {
                assert("msgBeginRedelegate"@.len() == 18 && "msg_create_validator"@.len() == 20);
            }
            assert("msgBeginRedelegate"@ != "msg_delegate"@) by {
                assert("msgBeginRedelegate"@.len() == 18 && "msg_delegate"@.len() == 12);
            }
            assert("msgBeginRedelegate"@ != "msg_id"@) by {
                assert("msgBeginRedelegate"@.len() == 18 && "msg_id"@.len() == 6);
            }
            assert("msgBeginRedelegate"@ != "msg_undelegate"@) by {
                assert("msgBeginRedelegate"@.len() == 18 && "msg_undelegate"@.len() == 14);
            }
            assert("msgBeginRedelegate"@ != "txId"@) by {
                assert("msgBeginRedelegate"@.len() == 18 && "txId"@.len() == 4);
            }
            assert("msgBeginRedelegate"@ != "tx_id"@) by {
                assert("msgBeginRedelegate"@.len() == 18 && "tx_id"@.len() == 5);
            }
            assert("msgCreateValidator"@ != "msgDelegate"@) by {
                assert("msgCreateValidator"@.len() == 18 && "msgDelegate"@.len() == 11);
            }
            assert("msgCreateValidator"@ != "msgId"@) by {
                assert("msgCreateValidator"@.len() == 18 && "msgId"@.len() == 5);
            }
            assert("msgCreateValidator"@ != "msgUndelegate"@) by {
                assert("msgCreateValidator"@.len() == 18 && "msgUndelegate"@.len() == 13);
            }
            assert("msgCreateValidator"@ != "msg_begin_redelegate"@) by {
                assert("msgCreateValidator"@.len() == 18 && "msg_begin_redelegate"@.len() == 20);
            }
            assert("msgCreateValidator"@ != "msg_create_validator"@) by {
                assert("msgCreateValidator"@.len() == 18 && "msg_create_validator"@.len() == 20);
            }
            assert("msgCreateValidator"@ != "msg_delegate"@) by {
                assert("msgCreateValidator"@.len() == 18 && "msg_delegate"@.len() == 12);
            }
            assert("msgCreateValidator"@ != "msg_id"@) by {
                assert("msgCreateValidator"@.len() == 18 && "msg_id"@.len() == 6);
            }
            assert("msgCreateValidator"@ != "msg_undelegate"@) by {
                assert("msgCreateValidator"@.len() == 18 && "msg_undelegate"@.len() == 14);
            }
            assert("msgCreateValidator"@ != "txId"@) by {
                assert("msgCreateValidator"@.len() == 18 && "txId"@.len() == 4);
            }
            assert("msgCreateValidator"@ != "tx_id"@) by {
                assert("msgCreateValidator"@.len() == 18 && "tx_id"@.len() == 5);
            }
            assert("msgDelegate"@ != "msgId"@) by {
                assert("msgDelegate"@.len() == 11 && "msgId"@.len() == 5);
            }
            assert("msgDelegate"@ != "msgUndelegate"@) by {
                assert("msgDelegate"@.len() == 11 && "msgUndelegate"@.len() == 13);
            }
            assert("msgDelegate"@ != "msg_begin_redelegate"@) by {
                assert("msgDelegate"@.len() == 11 && "msg_begin_redelegate"@.len() == 20);
            }
            assert("msgDelegate"@ != "msg_create_validator"@) by {
                assert("msgDelegate"@.len() == 11 && "msg_create_validator"@.len() == 20);
            }
            assert("msgDelegate"@ != "msg_delegate"@) by {
                assert("msgDelegate"@.len() == 11 && "msg_delegate"@.len() == 12);
            }
            assert("msgDelegate"@ != "msg_id"@) by {
                assert("msgDelegate"@.len() == 11 && "msg_id"@.len() == 6);
            }
            assert("msgDelegate"@ != "msg_undelegate"@) by {
                assert("msgDelegate"@.len() == 11 && "msg_undelegate"@.len() == 14);
            }
            assert("msgDelegate"@ != "txId"@) by {
                assert("msgDelegate"@.len() == 11 && "txId"@.len() == 4);
            }
            assert("msgDelegate"@ != "tx_id"@) by {
                assert("msgDelegate"@.len() == 11 && "tx_id"@.len() == 5);
            }
            assert("msgId"@ != "msgUndelegate"@) by {
                assert("msgId"@.len() == 5 && "msgUndelegate"@.len() == 13);
            }
            assert("msgId"@ != "msg_begin_redelegate"@) by {
                assert("msgId"@.len() == 5 && "msg_begin_redelegate"@.len() == 20);
            }
            assert("msgId"@ != "msg_create_validator"@) by {
                assert("msgId"@.len() == 5 && "msg_create_validator"@.len() == 20);
            }
            assert("msgId"@ != "msg_delegate"@) by {
                assert("msgId"@.len() == 5 && "msg_delegate"@.len() == 12);
            }
            assert("msgId"@ != "msg_id"@) by {
                assert("msgId"@.len() == 5 && "msg_id"@.len() == 6);
            }
            assert("msgId"@ != "msg_undelegate"@) by {
                assert("msgId"@.len() == 5 && "msg_undelegate"@.len() == 14);
            }
            assert("msgId"@ != "txId"@) by {
                assert("msgId"@.len() == 5 && "txId"@.len() == 4);
            }
            assert("msgId"@ != "tx_id"@) by {
                assert("msgId"@[0] == 'm' && "tx_id"@[0] == 't');
            }
            assert("msgUndelegate"@ != "msg_begin_redelegate"@) by {
                assert("msgUndelegate"@.len() == 13 && "msg_begin_redelegate"@.len() == 20);
            }
            assert("msgUndelegate"@ != "msg_create_validator"@) by {
                assert("msgUndelegate"@.len() == 13 && "msg_create_validator"@.len() == 20);
            }
            assert("msgUndelegate"@ != "msg_delegate"@) by {
                assert("msgUndelegate"@.len() == 13 && "msg_delegate"@.len() == 12);
            }
            assert("msgUndelegate"@ != "msg_id"@) by {
                assert("msgUndelegate"@.len() == 13 && "msg_id"@.len() == 6);
            }
            assert("msgUndelegate"@ != "msg_undelegate"@) by {
                assert("msgUndelegate"@.len() == 13 && "msg_undelegate"@.len() == 14);
            }
            assert("msgUndelegate"@ != "txId"@) by {
                assert("msgUndelegate"@.len() == 13 && "txId"@.len() == 4);
            }
            assert("msgUndelegate"@ != "tx_id"@) by {
                assert("msgUndelegate"@.len() == 13 && "tx_id"@.len() == 5);
            }
            assert("msg_begin_redelegate"@ != "msg_create_validator"@) by {
                assert("msg_begin_redelegate"@[4] == 'b' && "msg_create_validator"@[4] == 'c');
            }
            assert("msg_begin_redelegate"@ != "msg_delegate"@) by {
                assert("msg_begin_redelegate"@.len() == 20 && "msg_delegate"@.len() == 12);
            }
            assert("msg_begin_redelegate"@ != "msg_id"@) by {
                assert("msg_begin_redelegate"@.len() == 20 && "msg_id"@.len() == 6);
            }
            assert("msg_begin_redelegate"@ != "msg_undelegate"@) by {
                assert("msg_begin_redelegate"@.len() == 20 && "msg_undelegate"@.len() == 14);
            }
            assert("msg_begin_redelegate"@ != "txId"@) by {
                assert("msg_begin_redelegate"@.len() == 20 && "txId"@.len() == 4);
            }
            assert("msg_begin_redelegate"@ != "tx_id"@) by {
                assert("msg_begin_redelegate"@.len() == 20 && "tx_id"@.len() == 5);
            }
            assert("msg_create_validator"@ != "msg_delegate"@) by {
                assert("msg_create_validator"@.len() == 20 && "msg_delegate"@.len() == 12);
            }
            assert("msg_create_validator"@ != "msg_id"@) by {
                assert("msg_create_validator"@.len() == 20 && "msg_id"@.len() == 6);
            }
            assert("msg_create_validator"@ != "msg_undelegate"@) by {
                assert("msg_create_validator"@.len() == 20 && "msg_undelegate"@.len() == 14);
            }
            assert("msg_create_validator"@ != "txId"@) by {
                assert("msg_create_validator"@.len() == 20 && "txId"@.len() == 4);
            }
            assert("msg_create_validator"@ != "tx_id"@) by {
                assert("msg_create_validator"@.len() == 20 && "tx_id"@.len() == 5);
            }
            assert("msg_delegate"@ != "msg_id"@) by {
                assert("msg_delegate"@.len() == 12 && "msg_id"@.len() == 6);
            }
            assert("msg_delegate"@ != "msg_undelegate"@) by {
                assert("msg_delegate"@.len() == 12 && "msg_undelegate"@.len() == 14);
            }
            assert("msg_delegate"@ != "txId"@) by {
                assert("msg_delegate"@.len() == 12 && "txId"@.len() == 4);
            }
            assert("msg_delegate"@ != "tx_id"@) by {
                assert("msg_delegate"@.len() == 12 && "tx_id"@.len() == 5);
            }
            assert("msg_id"@ != "msg_undelegate"@) by {
                assert("msg_id"@.len() == 6 && "msg_undelegate"@.len() == 14);
            }
            assert("msg_id"@ != "txId"@) by {
                assert("msg_id"@.len() == 6 && "txId"@.len() == 4);
            }
            assert("msg_id"@ != "tx_id"@) by {
                assert("msg_id"@.len() == 6 && "tx_id"@.len() == 5);
            }
            assert("msg_undelegate"@ != "txId"@) by {
                assert("msg_undelegate"@.len() == 14 && "txId"@.len() == 4);
            }
            assert("msg_undelegate"@ != "tx_id"@) by {
                assert("msg_undelegate"@.len() == 14 && "tx_id"@.len() == 5);
            }
            assert("txId"@ != "tx_id"@) by {
                assert("txId"@.len() == 4 && "tx_id"@.len() == 5);
            }
            assert(fields_keys_distinct(s));
        }
    }
    d
}

/// The descriptor of `babylon.epoching.v1.QueuedMessageList`.
pub open spec fn queued_message_list_desc(timestamp: MessageDescV, create_validator: MessageDescV, delegate: MessageDescV, undelegate: MessageDescV, begin_redelegate: MessageDescV) -> MessageDescV {
    MessageDescV {
        fields: seq![
            field_v(
                "epoch_number"@,
                "epochNumber"@,
                FieldKindV::UInt64,
                Presence::Singular,
                None,
            ),
            field_v(
                "msgs"@,
                "msgs"@,
                FieldKindV::Message(queued_message_desc(timestamp, create_validator, delegate, undelegate, begin_redelegate)),
                Presence::Repeated,
                None,
            ),
        ],
    }
}

/// Builds the descriptor of `babylon.epoching.v1.QueuedMessageList`.
pub fn queued_message_list_descriptor(timestamp: &MessageDescriptor, create_validator: &MessageDescriptor, delegate: &MessageDescriptor, undelegate: &MessageDescriptor, begin_redelegate: &MessageDescriptor) -> (d: MessageDescriptor)
    ensures
        d@ == queued_message_list_desc(timestamp@, create_validator@, delegate@, undelegate@, begin_redelegate@),
        msg_wf(timestamp@) && msg_wf(create_validator@) && msg_wf(delegate@) && msg_wf(undelegate@) && msg_wf(begin_redelegate@) ==> msg_wf(queued_message_list_desc(timestamp@, create_validator@, delegate@, undelegate@, begin_redelegate@)),
{
    let mut fields: Vec<FieldDescriptor> = Vec::new();
    fields.push(field("epoch_number", "epochNumber", FieldKind::UInt64, Presence::Singular, None));
    fields.push(field("msgs", "msgs", FieldKind::Message(queued_message_descriptor(timestamp, create_validator, delegate, undelegate, begin_redelegate)), Presence::Repeated, None));
    let d = MessageDescriptor { fields };
    proof {
        lemma_fields_view(d.fields@);
        assert(d@.fields =~= queued_message_list_desc(timestamp@, create_validator@, delegate@, undelegate@, begin_redelegate@).fields);
        if msg_wf(timestamp@) && msg_wf(create_validator@) && msg_wf(delegate@) && msg_wf(undelegate@) && msg_wf(begin_redelegate@) {
                let s = queued_message_list_desc(timestamp@, create_validator@, delegate@, undelegate@, begin_redelegate@).fields;
            assert forall|i: int| 0 <= i < s.len() implies field_wf(#[trigger] s[i]) by {
                assert(0 <= i < 2);
            }
            lemma_fields_wf_intro(s);
            reveal_strlit("epochNumber");
            reveal_strlit("epoch_number");
            reveal_strlit("msgs");
            assert("epochNumber"@ != "epoch_number"@) by {
                assert("epochNumber"@.len() == 11 && "epoch_number"@.len() == 12);
            }
            assert("epochNumber"@ != "msgs"@) by {
                assert("epochNumber"@.len() == 11 && "msgs"@.len() == 4);
            }
            assert("epoch_number"@ != "msgs"@) by {
                assert("epoch_number"@.len() == 12 && "msgs"@.len() == 4);
            }
            assert(fields_keys_distinct(s));
        }
    }
    d
}

/// The descriptor of `babylon.epoching.v1.ValStateUpdate`.
pub open spec fn val_state_update_desc(timestamp: MessageDescV) -> MessageDescV {
    MessageDescV {
        fields: seq![
            field_v(
                "state"@,
                "state"@,
                FieldKindV::Enum(bond_state_desc()),
                Presence::Singular,
                None,
            ),
            field_v(
                "block_height"@,
                "blockHeight"@,
                FieldKindV::UInt64,
                Presence::Singular,
                None,
            ),
            field_v(
                "block_time"@,
                "blockTime"@,
                FieldKindV::Message(timestamp),
                Presence::Optional,
                None,
            ),
        ],
    }
}

/// Builds the descriptor of `babylon.epoching.v1.ValStateUpdate`.
pub fn val_state_update_descriptor(timestamp: &MessageDescriptor) -> (d: MessageDescriptor)
    ensures
        d@ == val_state_update_desc(timestamp@),
        msg_wf(timestamp@) ==> msg_wf(val_state_update_desc(timestamp@)),
{
    let mut fields: Vec<FieldDescriptor> = Vec::new();
    fields.push(field("state", "state", FieldKind::Enum(bond_state_table()), Presence::Singular, None));
    fields.push(field("block_height", "blockHeight", FieldKind::UInt64, Presence::Singular, None));
    fields.push(field("block_time", "blockTime", FieldKind::Message(clone_descriptor(timestamp)), Presence::Optional, None));
    let d = MessageDescriptor { fields };
    proof {
        lemma_fields_view(d.fields@);
        assert(d@.fields =~= val_state_update_desc(timestamp@).fields);
        if msg_wf(timestamp@) {
                let s = val_state_update_desc(timestamp@).fields;
            assert forall|i: int| 0 <= i < s.len() implies field_wf(#[trigger] s[i]) by {
                assert(0 <= i < 3);
            }
            lemma_fields_wf_intro(s);
            reveal_strlit("blockHeight");
            reveal_strlit("blockTime");
            reveal_strlit("block_height");
            reveal_strlit("block_time");
            reveal_strlit("state");
            assert("blockHeight"@ != "blockTime"@) by {
                assert("blockHeight"@.len() == 11 && "blockTime"@.len() == 9);
            }
            assert("blockHeight"@ != "block_height"@) by {
                assert("blockHeight"@.len() == 11 && "block_height"@.len() == 12);
            }
            assert("blockHeight"@ != "block_time"@) by {
                assert("blockHeight"@.len() == 11 && "block_time"@.len() == 10);
            }
            assert("blockHeight"@ != "state"@) by {
                assert("blockHeight"@.len() == 11 && "state"@.len() == 5);
            }
            assert("blockTime"@ != "block_height"@) by {
                assert("blockTime"@.len() == 9 && "block_height"@.len() == 12);
            }
            assert("blockTime"@ != "block_time"@) by {
                assert("blockTime"@.len() == 9 && "block_time"@.len() == 10);
            }
            assert("blockTime"@ != "state"@) by {
                assert("blockTime"@.len() == 9 && "state"@.len() == 5);
            }
            assert("block_height"@ != "block_time"@) by {
                assert("block_height"@.len() == 12 && "block_time"@.len() == 10);
            }
            assert("block_height"@ != "state"@) by {
                assert("block_height"@.len() == 12 && "state"@.len() == 5);
            }
            assert("block_time"@ != "state"@) by {
                assert("block_time"@.len() == 10 && "state"@.len() == 5);
            }
            assert(fields_keys_distinct(s));
        }
    }
    d
}

/// The descriptor of `babylon.epoching.v1.ValidatorLifecycle`.
pub open spec fn validator_lifecycle_desc(timestamp: MessageDescV) -> MessageDescV {
    MessageDescV {
        fields: seq![
            field_v(
                "val_addr"@,
                "valAddr"@,
                FieldKindV::Str,
                Presence::Singular,
                None,
            ),
            field_v(
                "val_life"@,
                "valLife"@,
                FieldKindV::Message(val_state_update_desc(timestamp)),
                Presence::Repeated,
                None,
            ),
        ],
    }
}

/// Builds the descriptor of `babylon.epoching.v1.ValidatorLifecycle`.
pub fn validator_lifecycle_descriptor(timestamp: &MessageDescriptor) -> (d: MessageDescriptor)
    ensures
        d@ == validator_lifecycle_desc(timestamp@),
        msg_wf(timestamp@) ==> msg_wf(validator_lifecycle_desc(timestamp@)),
{
    let mut fields: Vec<FieldDescriptor> = Vec::new();
    fields.push(field("val_addr", "valAddr", FieldKind::Str, Presence::Singular, None));
    fields.push(field("val_life", "valLife", FieldKind::Message(val_state_update_descriptor(timestamp)), Presence::Repeated, None));
    let d = MessageDescriptor { fields };
    proof {
        lemma_fields_view(d.fields@);
        assert(d@.fields =~= validator_lifecycle_desc(timestamp@).fields);
        if msg_wf(timestamp@) {
                let s = validator_lifecycle_desc(timestamp@).fields;
            assert forall|i: int| 0 <= i < s.len() implies field_wf(#[trigger] s[i]) by {
                assert(0 <= i < 2);
            }
            lemma_fields_wf_intro(s);
            reveal_strlit("valAddr");
            reveal_strlit("valLife");
            reveal_strlit("val_addr");
            reveal_strlit("val_life");
            assert("valAddr"@ != "valLife"@) by {
                assert("valAddr"@[3] == 'A' && "valLife"@[3] == 'L');
            }
            assert("valAddr"@ != "val_addr"@) by {
                assert("valAddr"@.len() == 7 && "val_addr"@.len() == 8);
            }
            assert("valAddr"@ != "val_life"@) by {
                assert("valAddr"@.len() == 7 && "val_life"@.len() == 8);
            }
            assert("valLife"@ != "val_addr"@) by {
                assert("valLife"@.len() == 7 && "val_addr"@.len() == 8);
            }
            assert("valLife"@ != "val_life"@) by {
                assert("valLife"@.len() == 7 && "val_life"@.len() == 8);
            }
            assert("val_addr"@ != "val_life"@) by {
                assert("val_addr"@[4] == 'a' && "val_life"@[4] == 'l');
            }
            assert(fields_keys_distinct(s));
        }
    }
    d
}

/// The descriptor of `babylon.epoching.v1.Validator`.
pub open spec fn validator_desc() -> MessageDescV {
    MessageDescV {
        fields: seq![
            field_v(
                "addr"@,
                "addr"@,
                FieldKindV::Bytes,
                Presence::Singular,
                None,
            ),
            field_v(
                "power"@,
                "power"@,
                FieldKindV::Int64,
                Presence::Singular,
                None,
            ),
        ],
    }
}

/// Builds the descriptor of `babylon.epoching.v1.Validator`.
pub fn validator_descriptor() -> (d: MessageDescriptor)
    ensures
        d@ == validator_desc(),
        msg_wf(validator_desc()),
{
    let mut fields: Vec<FieldDescriptor> = Vec::new();
    fields.push(field("addr", "addr", FieldKind::Bytes, Presence::Singular, None));
    fields.push(field("power", "power", FieldKind::Int64, Presence::Singular, None));
    let d = MessageDescriptor { fields };
    proof {
        lemma_fields_view(d.fields@);
        assert(d@.fields =~= validator_desc().fields);
                let s = validator_desc().fields;
            assert forall|i: int| 0 <= i < s.len() implies field_wf(#[trigger] s[i]) by {
                assert(0 <= i < 2);
            }
            lemma_fields_wf_intro(s);
            reveal_strlit("addr");
            reveal_strlit("power");
            assert("addr"@ != "power"@) by {
                assert("addr"@.len() == 4 && "power"@.len() == 5);
            }
            assert(fields_keys_distinct(s));
    }
    d
}

} // verus!
