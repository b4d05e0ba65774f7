//! Descriptor tables for the `babylon.checkpointing.v1` message types.

use vstd::prelude::*;

use crate::descriptors::{enum_entry, field, field_v};
use crate::schema::{
    clone_descriptor, fields_keys_distinct, field_wf, lemma_fields_view, lemma_fields_wf_intro, msg_wf, EnumDescriptor, EnumDescV, EnumEntry, EnumEntryV, FieldDescriptor, FieldKind, FieldKindV, MessageDescriptor, MessageDescV, Presence,
};

verus! {

broadcast use vstd::seq::group_seq_axioms, vstd::std_specs::vec::group_vec_axioms;

/// The enum table of `babylon.checkpointing.v1.CheckpointStatus`.
pub open spec fn checkpoint_status_desc() -> EnumDescV {
    EnumDescV {
        entries: seq![
            EnumEntryV { name: "CKPT_STATUS_ACCUMULATING"@, number: 0 },
            EnumEntryV { name: "CKPT_STATUS_SEALED"@, number: 1 },
            EnumEntryV { name: "CKPT_STATUS_SUBMITTED"@, number: 2 },
            EnumEntryV { name: "CKPT_STATUS_CONFIRMED"@, number: 3 },
            EnumEntryV { name: "CKPT_STATUS_FINALIZED"@, number: 4 },
        ],
    }
}

/// Builds the enum table of `babylon.checkpointing.v1.CheckpointStatus`.
pub fn checkpoint_status_table() -> (e: EnumDescriptor)
    ensures
        e@ == checkpoint_status_desc(),
        checkpoint_status_desc().wf(),
{
    let mut entries: Vec<EnumEntry> = Vec::new();
    entries.push(enum_entry("CKPT_STATUS_ACCUMULATING", 0));
    entries.push(enum_entry("CKPT_STATUS_SEALED", 1));
    entries.push(enum_entry("CKPT_STATUS_SUBMITTED", 2));
    entries.push(enum_entry("CKPT_STATUS_CONFIRMED", 3));
    entries.push(enum_entry("CKPT_STATUS_FINALIZED", 4));
    let e = EnumDescriptor { entries };
    proof {
        assert(e@.entries =~= checkpoint_status_desc().entries);
        reveal_strlit("CKPT_STATUS_ACCUMULATING");
        reveal_strlit("CKPT_STATUS_SEALED");
        reveal_strlit("CKPT_STATUS_SUBMITTED");
        reveal_strlit("CKPT_STATUS_CONFIRMED");
        reveal_strlit("CKPT_STATUS_FINALIZED");
        assert("CKPT_STATUS_ACCUMULATING"@ != "CKPT_STATUS_CONFIRMED"@) by {
                assert("CKPT_STATUS_ACCUMULATING"@.len() == 24 && "CKPT_STATUS_CONFIRMED"@.len() == 21);
            }
        assert("CKPT_STATUS_ACCUMULATING"@ != "CKPT_STATUS_FINALIZED"@) by {
                assert("CKPT_STATUS_ACCUMULATING"@.len() == 24 && "CKPT_STATUS_FINALIZED"@.len() == 21);
            }
        assert("CKPT_STATUS_ACCUMULATING"@ != "CKPT_STATUS_SEALED"@) by {
                assert("CKPT_STATUS_ACCUMULATING"@.len() == 24 && "CKPT_STATUS_SEALED"@.len() == 18);
            }
        assert("CKPT_STATUS_ACCUMULATING"@ != "CKPT_STATUS_SUBMITTED"@) by {
                assert("CKPT_STATUS_ACCUMULATING"@.len() == 24 && "CKPT_STATUS_SUBMITTED"@.len() == 21);
            }
        assert("CKPT_STATUS_CONFIRMED"@ != "CKPT_STATUS_FINALIZED"@) by {
                assert("CKPT_STATUS_CONFIRMED"@[12] == 'C' && "CKPT_STATUS_FINALIZED"@[12] == 'F');
            }
        assert("CKPT_STATUS_CONFIRMED"@ != "CKPT_STATUS_SEALED"@) by {
                assert("CKPT_STATUS_CONFIRMED"@.len() == 21 && "CKPT_STATUS_SEALED"@.len() == 18);
            }
        assert("CKPT_STATUS_CONFIRMED"@ != "CKPT_STATUS_SUBMITTED"@) by {
                assert("CKPT_STATUS_CONFIRMED"@[12] == 'C' && "CKPT_STATUS_SUBMITTED"@[12] == 'S');
            }
        assert("CKPT_STATUS_FINALIZED"@ != "CKPT_STATUS_SEALED"@) by {
                assert("CKPT_STATUS_FINALIZED"@.len() == 21 && "CKPT_STATUS_SEALED"@.len() == 18);
            }
        assert("CKPT_STATUS_FINALIZED"@ != "CKPT_STATUS_SUBMITTED"@) by {
                assert("CKPT_STATUS_FINALIZED"@[12] == 'F' && "CKPT_STATUS_SUBMITTED"@[12] == 'S');
            }
        assert("CKPT_STATUS_SEALED"@ != "CKPT_STATUS_SUBMITTED"@) by {
                assert("CKPT_STATUS_SEALED"@.len() == 18 && "CKPT_STATUS_SUBMITTED"@.len() == 21);
            }
        assert(checkpoint_status_desc().entries[0].number == 0);
        assert(checkpoint_status_desc().wf());
    }
    e
}

/// The descriptor of `babylon.checkpointing.v1.BlsSig`.
pub open spec fn bls_sig_desc() -> MessageDescV {
    MessageDescV {
        fields: seq![
            field_v(
                "epoch_num"@,
                "epochNum"@,
                FieldKindV::UInt64,
                Presence::Singular,
                None,
            ),
            field_v(
                "last_commit_hash"@,
                "lastCommitHash"@,
                FieldKindV::Bytes,
                Presence::Singular,
                None,
            ),
            field_v(
                "bls_sig"@,
                "blsSig"@,
                FieldKindV::Bytes,
                Presence::Singular,
                None,
            ),
            field_v(
                "signer_address"@,
                "signerAddress"@,
                FieldKindV::Str,
                Presence::Singular,
                None,
            ),
        ],
    }
}

/// Builds the descriptor of `babylon.checkpointing.v1.BlsSig`.
pub fn bls_sig_descriptor() -> (d: MessageDescriptor)
    ensures
        d@ == bls_sig_desc(),
        msg_wf(bls_sig_desc()),
{
    let mut fields: Vec<FieldDescriptor> = Vec::new();
    fields.push(field("epoch_num", "epochNum", FieldKind::UInt64, Presence::Singular, None));
    fields.push(field("last_commit_hash", "lastCommitHash", FieldKind::Bytes, Presence::Singular, None));
    fields.push(field("bls_sig", "blsSig", FieldKind::Bytes, Presence::Singular, None));
    fields.push(field("signer_address", "signerAddress", FieldKind::Str, Presence::Singular, None));
    let d = MessageDescriptor { fields };
    proof {
        lemma_fields_view(d.fields@);
        assert(d@.fields =~= bls_sig_desc().fields);
                let s = bls_sig_desc().fields;
            assert forall|i: int| 0 <= i < s.len() implies field_wf(#[trigger] s[i]) by {
                assert(0 <= i < 4);
            }
            lemma_fields_wf_intro(s);
            reveal_strlit("blsSig");
            reveal_strlit("bls_sig");
            reveal_strlit("epochNum");
            reveal_strlit("epoch_num");
            reveal_strlit("lastCommitHash");
            reveal_strlit("last_commit_hash");
            reveal_strlit("signerAddress");
            reveal_strlit("signer_address");
            assert("blsSig"@ != "bls_sig"@) by {
                assert("blsSig"@.len() == 6 && "bls_sig"@.len() == 7);
            }
            assert("blsSig"@ != "epochNum"@) by {
                assert("blsSig"@.len() == 6 && "epochNum"@.len() == 8);
            }
            assert("blsSig"@ != "epoch_num"@) by {
                assert("blsSig"@.len() == 6 && "epoch_num"@.len() == 9);
            }
            assert("blsSig"@ != "lastCommitHash"@) by {
                assert("blsSig"@.len() == 6 && "lastCommitHash"@.len() == 14);
            }
            assert("blsSig"@ != "last_commit_hash"@) by {
                assert("blsSig"@.len() == 6 && "last_commit_hash"@.len() == 16);
            }
            assert("blsSig"@ != "signerAddress"@) by {
                assert("blsSig"@.len() == 6 && "signerAddress"@.len() == 13);
            }
            assert("blsSig"@ != "signer_address"@) by {
                assert("blsSig"@.len() == 6 && "signer_address"@.len() == 14);
            }
            assert("bls_sig"@ != "epochNum"@) by {
                assert("bls_sig"@.len() == 7 && "epochNum"@.len() == 8);
            }
            assert("bls_sig"@ != "epoch_num"@) by {
                assert("bls_sig"@.len() == 7 && "epoch_num"@.len() == 9);
            }
            assert("bls_sig"@ != "lastCommitHash"@) by {
                assert("bls_sig"@.len() == 7 && "lastCommitHash"@.len() == 14);
            }
            assert("bls_sig"@ != "last_commit_hash"@) by {
                assert("bls_sig"@.len() == 7 && "last_commit_hash"@.len() == 16);
            }
            assert("bls_sig"@ != "signerAddress"@) by {
                assert("bls_sig"@.len() == 7 && "signerAddress"@.len() == 13);
            }
            assert("bls_sig"@ != "signer_address"@) by {
                assert("bls_sig"@.len() == 7 && "signer_address"@.len() == 14);
            }
            assert("epochNum"@ != "epoch_num"@) by {
                assert("epochNum"@.len() == 8 && "epoch_num"@.len() == 9);
            }
            assert("epochNum"@ != "lastCommitHash"@) by {
                assert("epochNum"@.len() == 8 && "lastCommitHash"@.len() == 14);
            }
            assert("epochNum"@ != "last_commit_hash"@) by {
                assert("epochNum"@.len() == 8 && "last_commit_hash"@.len() == 16);
            }
            assert("epochNum"@ != "signerAddress"@) by {
                assert("epochNum"@.len() == 8 && "signerAddress"@.len() == 13);
            }
            assert("epochNum"@ != "signer_address"@) by {
                assert("epochNum"@.len() == 8 && "signer_address"@.len() == 14);
            }
            assert("epoch_num"@ != "lastCommitHash"@) by {
                assert("epoch_num"@.len() == 9 && "lastCommitHash"@.len() == 14);
            }
            assert("epoch_num"@ != "last_commit_hash"@) by {
                assert("epoch_num"@.len() == 9 && "last_commit_hash"@.len() == 16);
            }
            assert("epoch_num"@ != "signerAddress"@) by {
                assert("epoch_num"@.len() == 9 && "signerAddress"@.len() == 13);
            }
            assert("epoch_num"@ != "signer_address"@) by {
                assert("epoch_num"@.len() == 9 && "signer_address"@.len() == 14);
            }
            assert("lastCommitHash"@ != "last_commit_hash"@) by {
                assert("lastCommitHash"@.len() == 14 && "last_commit_hash"@.len() == 16);
            }
            assert("lastCommitHash"@ != "signerAddress"@) by {
                assert("lastCommitHash"@.len() == 14 && "signerAddress"@.len() == 13);
            }
            assert("lastCommitHash"@ != "signer_address"@) by {
                assert("lastCommitHash"@[0] == 'l' && "signer_address"@[0] == 's');
            }
            assert("last_commit_hash"@ != "signerAddress"@) by {
                assert("last_commit_hash"@.len() == 16 && "signerAddress"@.len() == 13);
            }
            assert("last_commit_hash"@ != "signer_address"@) by {
                assert("last_commit_hash"@.len() == 16 && "signer_address"@.len() == 14);
            }
            assert("signerAddress"@ != "signer_address"@) by {
                assert("signerAddress"@.len() == 13 && "signer_address"@.len() == 14);
            }
            assert(fields_keys_distinct(s));
    }
    d
}

/// The descriptor of `babylon.checkpointing.v1.CheckpointStateUpdate`.
pub open spec fn checkpoint_state_update_desc(timestamp: MessageDescV) -> MessageDescV {
    MessageDescV {
        fields: seq![
            field_v(
                "state"@,
                "state"@,
                FieldKindV::Enum(checkpoint_status_desc()),
                Presence::Singular,
                None,
            ),
            field_v(
                "block_height"@,
                "blockHeight"@,
                FieldKindV::UInt64,
                Presence::Singular,
                None,
            ),
            field_v(
                "block_time"@,
                "blockTime"@,
                FieldKindV::Message(timestamp),
                Presence::Optional,
                None,
            ),
        ],
    }
}

/// Builds the descriptor of `babylon.checkpointing.v1.CheckpointStateUpdate`.
pub fn checkpoint_state_update_descriptor(timestamp: &MessageDescriptor) -> (d: MessageDescriptor)
    ensures
        d@ == checkpoint_state_update_desc(timestamp@),
        msg_wf(timestamp@) ==> msg_wf(checkpoint_state_update_desc(timestamp@)),
{
    let mut fields: Vec<FieldDescriptor> = Vec::new();
    fields.push(field("state", "state", FieldKind::Enum(checkpoint_status_table()), Presence::Singular, None));
    fields.push(field("block_height", "blockHeight", FieldKind::UInt64, Presence::Singular, None));
    fields.push(field("block_time", "blockTime", FieldKind::Message(clone_descriptor(timestamp)), Presence::Optional, None));
    let d = MessageDescriptor { fields };
    proof {
        lemma_fields_view(d.fields@);
        assert(d@.fields =~= checkpoint_state_update_desc(timestamp@).fields);
        if msg_wf(timestamp@) {
                let s = checkpoint_state_update_desc(timestamp@).fields;
            assert forall|i: int| 0 <= i < s.len() implies field_wf(#[trigger] s[i]) by {
                assert(0 <= i < 3);
            }
            lemma_fields_wf_intro(s);
            reveal_strlit("blockHeight");
            reveal_strlit("blockTime");
            reveal_strlit("block_height");
            reveal_strlit("block_time");
            reveal_strlit("state");
            assert("blockHeight"@ != "blockTime"@) by {
                assert("blockHeight"@.len() == 11 && "blockTime"@.len() == 9);
            }
            assert("blockHeight"@ != "block_height"@) by {
                assert("blockHeight"@.len() == 11 && "block_height"@.len() == 12);
            }
            assert("blockHeight"@ != "block_time"@) by {
                assert("blockHeight"@.len() == 11 && "block_time"@.len() == 10);
            }
            assert("blockHeight"@ != "state"@) by {
                assert("blockHeight"@.len() == 11 && "state"@.len() == 5);
            }
            assert("blockTime"@ != "block_height"@) by {
                assert("blockTime"@.len() == 9 && "block_height"@.len() == 12);
            }
            assert("blockTime"@ != "block_time"@) by {
                assert("blockTime"@.len() == 9 && "block_time"@.len() == 10);
            }
            assert("blockTime"@ != "state"@) by {
                assert("blockTime"@.len() == 9 && "state"@.len() == 5);
            }
            assert("block_height"@ != "block_time"@) by {
                assert("block_height"@.len() == 12 && "block_time"@.len() == 10);
            }
            assert("block_height"@ != "state"@) by {
                assert("block_height"@.len() == 12 && "state"@.len() == 5);
            }
            assert("block_time"@ != "state"@) by {
                assert("block_time"@.len() == 10 && "state"@.len() == 5);
            }
            assert(fields_keys_distinct(s));
        }
    }
    d
}

/// The descriptor of `babylon.checkpointing.v1.RawCheckpoint`.
pub open spec fn raw_checkpoint_desc() -> MessageDescV {
    MessageDescV {
        fields: seq![
            field_v(
                "epoch_num"@,
                "epochNum"@,
                FieldKindV::UInt64,
                Presence::Singular,
                None,
            ),
            field_v(
                "last_commit_hash"@,
                "lastCommitHash"@,
                FieldKindV::Bytes,
                Presence::Singular,
                None,
            ),
            field_v(
                "bitmap"@,
                "bitmap"@,
                FieldKindV::Bytes,
                Presence::Singular,
                None,
            ),
            field_v(
                "bls_multi_sig"@,
                "blsMultiSig"@,
                FieldKindV::Bytes,
                Presence::Singular,
                None,
            ),
        ],
    }
}

/// Builds the descriptor of `babylon.checkpointing.v1.RawCheckpoint`.
pub fn raw_checkpoint_descriptor() -> (d: MessageDescriptor)
    ensures
        d@ == raw_checkpoint_desc(),
        msg_wf(raw_checkpoint_desc()),
{
    let mut fields: Vec<FieldDescriptor> = Vec::new();
    fields.push(field("epoch_num", "epochNum", FieldKind::UInt64, Presence::Singular, None));
    fields.push(field("last_commit_hash", "lastCommitHash", FieldKind::Bytes, Presence::Singular, None));
    fields.push(field("bitmap", "bitmap", FieldKind::Bytes, Presence::Singular, None));
    fields.push(field("bls_multi_sig", "blsMultiSig", FieldKind::Bytes, Presence::Singular, None));
    let d = MessageDescriptor { fields };
    proof {
        lemma_fields_view(d.fields@);
        assert(d@.fields =~= raw_checkpoint_desc().fields);
                let s = raw_checkpoint_desc().fields;
            assert forall|i: int| 0 <= i < s.len() implies field_wf(#[trigger] s[i]) by {
                assert(0 <= i < 4);
            }
            lemma_fields_wf_intro(s);
            reveal_strlit("bitmap");
            reveal_strlit("blsMultiSig");
            reveal_strlit("bls_multi_sig");
            reveal_strlit("epochNum");
            reveal_strlit("epoch_num");
            reveal_strlit("lastCommitHash");
            reveal_strlit("last_commit_hash");
            assert("bitmap"@ != "blsMultiSig"@) by {
                assert("bitmap"@.len() == 6 && "blsMultiSig"@.len() == 11);
            }
            assert("bitmap"@ != "bls_multi_sig"@) by {
                assert("bitmap"@.len() == 6 && "bls_multi_sig"@.len() == 13);
            }
            assert("bitmap"@ != "epochNum"@) by {
                assert("bitmap"@.len() == 6 && "epochNum"@.len() == 8);
            }
            assert("bitmap"@ != "epoch_num"@) by {
                assert("bitmap"@.len() == 6 && "epoch_num"@.len() == 9);
            }
            assert("bitmap"@ != "lastCommitHash"@) by {
                assert("bitmap"@.len() == 6 && "lastCommitHash"@.len() == 14);
            }
            assert("bitmap"@ != "last_commit_hash"@) by {
                assert("bitmap"@.len() == 6 && "last_commit_hash"@.len() == 16);
            }
            assert("blsMultiSig"@ != "bls_multi_sig"@) by {
                assert("blsMultiSig"@.len() == 11 && "bls_multi_sig"@.len() == 13);
            }
            assert("blsMultiSig"@ != "epochNum"@) by {
                assert("blsMultiSig"@.len() == 11 && "epochNum"@.len() == 8);
            }
            assert("blsMultiSig"@ != "epoch_num"@) by {
                assert("blsMultiSig"@.len() == 11 && "epoch_num"@.len() == 9);
            }
            assert("blsMultiSig"@ != "lastCommitHash"@) by {
                assert("blsMultiSig"@.len() == 11 && "lastCommitHash"@.len() == 14);
            }
            assert("blsMultiSig"@ != "last_commit_hash"@) by {
                assert("blsMultiSig"@.len() == 11 && "last_commit_hash"@.len() == 16);
            }
            assert("bls_multi_sig"@ != "epochNum"@) by {
                assert("bls_multi_sig"@.len() == 13 && "epochNum"@.len() == 8);
            }
            assert("bls_multi_sig"@ != "epoch_num"@) by {
                assert("bls_multi_sig"@.len() == 13 && "epoch_num"@.len() == 9);
            }
            assert("bls_multi_sig"@ != "lastCommitHash"@) by {
                assert("bls_multi_sig"@.len() == 13 && "lastCommitHash"@.len() == 14);
            }
            assert("bls_multi_sig"@ != "last_commit_hash"@) by {
                assert("bls_multi_sig"@.len() == 13 && "last_commit_hash"@.len() == 16);
            }
            assert("epochNum"@ != "epoch_num"@) by {
                assert("epochNum"@.len() == 8 && "epoch_num"@.len() == 9);
            }
            assert("epochNum"@ != "lastCommitHash"@) by {
                assert("epochNum"@.len() == 8 && "lastCommitHash"@.len() == 14);
            }
            assert("epochNum"@ != "last_commit_hash"@) by {
                assert("epochNum"@.len() == 8 && "last_commit_hash"@.len() == 16);
            }
            assert("epoch_num"@ != "lastCommitHash"@) by {
                assert("epoch_num"@.len() == 9 && "lastCommitHash"@.len() == 14);
            }
            assert("epoch_num"@ != "last_commit_hash"@) by {
                assert("epoch_num"@.len() == 9 && "last_commit_hash"@.len() == 16);
            }
            assert("lastCommitHash"@ != "last_commit_hash"@) by {
                assert("lastCommitHash"@.len() == 14 && "last_commit_hash"@.len() == 16);
            }
            assert(fields_keys_distinct(s));
    }
    d
}

/// The descriptor of `babylon.checkpointing.v1.RawCheckpointWithMeta`.
pub open spec fn raw_checkpoint_with_meta_desc(timestamp: MessageDescV) -> MessageDescV {
    MessageDescV {
        fields: seq![
            field_v(
                "ckpt"@,
                "ckpt"@,
                FieldKindV::Message(raw_checkpoint_desc()),
                Presence::Optional,
                None,
            ),
            field_v(
                "status"@,
                "status"@,
                FieldKindV::Enum(checkpoint_status_desc()),
                Presence::Singular,
                None,
            ),
            field_v(
                "bls_aggr_pk"@,
                "blsAggrPk"@,
                FieldKindV::Bytes,
                Presence::Singular,
                None,
            ),
            field_v(
                "power_sum"@,
                "powerSum"@,
                FieldKindV::UInt64,
                Presence::Singular,
                None,
            ),
            field_v(
                "lifecycle"@,
                "lifecycle"@,
                FieldKindV::Message(checkpoint_state_update_desc(timestamp)),
                Presence::Repeated,
                None,
            ),
        ],
    }
}

/// Builds the descriptor of `babylon.checkpointing.v1.RawCheckpointWithMeta`.
pub fn raw_checkpoint_with_meta_descriptor(timestamp: &MessageDescriptor) -> (d: MessageDescriptor)
    ensures
        d@ == raw_checkpoint_with_meta_desc(timestamp@),
        msg_wf(timestamp@) ==> msg_wf(raw_checkpoint_with_meta_desc(timestamp@)),
{
    let mut fields: Vec<FieldDescriptor> = Vec::new();
    fields.push(field("ckpt", "ckpt", FieldKind::Message(raw_checkpoint_descriptor()), Presence::Optional, None));
    fields.push(field("status", "status", FieldKind::Enum(checkpoint_status_table()), Presence::Singular, None));
    fields.push(field("bls_aggr_pk", "blsAggrPk", FieldKind::Bytes, Presence::Singular, None));
    fields.push(field("power_sum", "powerSum", FieldKind::UInt64, Presence::Singular, None));
    fields.push(field("lifecycle", "lifecycle", FieldKind::Message(checkpoint_state_update_descriptor(timestamp)), Presence::Repeated, None));
    let d = MessageDescriptor { fields };
    proof {
        lemma_fields_view(d.fields@);
        assert(d@.fields =~= raw_checkpoint_with_meta_desc(timestamp@).fields);
        if msg_wf(timestamp@) {
                let s = raw_checkpoint_with_meta_desc(timestamp@).fields;
            assert forall|i: int| 0 <= i < s.len() implies field_wf(#[trigger] s[i]) by {
                assert(0 <= i < 5);
            }
            lemma_fields_wf_intro(s);
            reveal_strlit("blsAggrPk");
            reveal_strlit("bls_aggr_pk");
            reveal_strlit("ckpt");
            reveal_strlit("lifecycle");
            reveal_strlit("powerSum");
            reveal_strlit("power_sum");
            reveal_strlit("status");
            assert("blsAggrPk"@ != "bls_aggr_pk"@) by {
                assert("blsAggrPk"@.len() == 9 && "bls_aggr_pk"@.len() == 11);
            }
            assert("blsAggrPk"@ != "ckpt"@) by {
                assert("blsAggrPk"@.len() == 9 && "ckpt"@.len() == 4);
            }
            assert("blsAggrPk"@ != "lifecycle"@) by {
                assert("blsAggrPk"@[0] == 'b' && "lifecycle"@[0] == 'l');
            }
            assert("blsAggrPk"@ != "powerSum"@) by {
                assert("blsAggrPk"@.len() == 9 && "powerSum"@.len() == 8);
            }
            assert("blsAggrPk"@ != "power_sum"@) by {
                assert("blsAggrPk"@[0] == 'b' && "power_sum"@[0] == 'p');
            }
            assert("blsAggrPk"@ != "status"@) by {
                assert("blsAggrPk"@.len() == 9 && "status"@.len() == 6);
            }
            assert("bls_aggr_pk"@ != "ckpt"@) by {
                assert("bls_aggr_pk"@.len() == 11 && "ckpt"@.len() == 4);
            }
            assert("bls_aggr_pk"@ != "lifecycle"@) by {
                assert("bls_aggr_pk"@.len() == 11 && "lifecycle"@.len() == 9);
            }
            assert("bls_aggr_pk"@ != "powerSum"@) by {
                assert("bls_aggr_pk"@.len() == 11 && "powerSum"@.len() == 8);
            }
            assert("bls_aggr_pk"@ != "power_sum"@) by {
                assert("bls_aggr_pk"@.len() == 11 && "power_sum"@.len() == 9);
            }
            assert("bls_aggr_pk"@ != "status"@) by {
                assert("bls_aggr_pk"@.len() == 11 && "status"@.len() == 6);
            }
            assert("ckpt"@ != "lifecycle"@) by {
                assert("ckpt"@.len() == 4 && "lifecycle"@.len() == 9);
            }
            assert("ckpt"@ != "powerSum"@) by {
                assert("ckpt"@.len() == 4 && "powerSum"@.len() == 8);
            }
            assert("ckpt"@ != "power_sum"@) by {
                assert("ckpt"@.len() == 4 && "power_sum"@.len() == 9);
            }
            assert("ckpt"@ != "status"@) by {
                assert("ckpt"@.len() == 4 && "status"@.len() == 6);
            }
            assert("lifecycle"@ != "powerSum"@) by {
                assert("lifecycle"@.len() == 9 && "powerSum"@.len() == 8);
            }
            assert("lifecycle"@ != "power_sum"@) by {
                assert("lifecycle"@[0] == 'l' && "power_sum"@[0] == 'p');
            }
            assert("lifecycle"@ != "status"@) by {
                assert("lifecycle"@.len() == 9 && "status"@.len() == 6);
            }
            assert("powerSum"@ != "power_sum"@) by {
                assert("powerSum"@.len() == 8 && "power_sum"@.len() == 9);
            }
            assert("powerSum"@ != "status"@) by {
                assert("powerSum"@.len() == 8 && "status"@.len() == 6);
            }
            assert("power_sum"@ != "status"@) by {
                assert("power_sum"@.len() == 9 && "status"@.len() == 6);
            }
            assert(fields_keys_distinct(s));
        }
    }
    d
}

} // verus!
