//! Descriptor tables for the `babylon.zoneconcierge.v1` message types.

use vstd::prelude::*;

use crate::descriptors::{field, field_v};
use crate::schema::{
    clone_descriptor, fields_keys_distinct, field_wf, lemma_fields_view, lemma_fields_wf_intro, msg_wf, FieldDescriptor, FieldKind, FieldKindV, MessageDescriptor, MessageDescV, Presence,
};
use crate::descriptors::btccheckpoint::{transaction_info_desc, transaction_info_descriptor};

verus! {

broadcast use vstd::seq::group_seq_axioms, vstd::std_specs::vec::group_vec_axioms;

/// The descriptor of `babylon.zoneconcierge.v1.IndexedHeader`.
pub open spec fn indexed_header_desc(header: MessageDescV) -> MessageDescV {
    MessageDescV {
        fields: seq![
            field_v(
                "chain_id"@,
                "chainId"@,
                FieldKindV::Str,
                Presence::Singular,
                None,
            ),
            field_v(
                "hash"@,
                "hash"@,
                FieldKindV::Bytes,
                Presence::Singular,
                None,
            ),
            field_v(
                "height"@,
                "height"@,
                FieldKindV::UInt64,
                Presence::Singular,
                None,
            ),
            field_v(
                "babylon_header"@,
                "babylonHeader"@,
                FieldKindV::Message(header),
                Presence::Optional,
                None,
            ),
            field_v(
                "babylon_epoch"@,
                "babylonEpoch"@,
                FieldKindV::UInt64,
                Presence::Singular,
                None,
            ),
            field_v(
                "babylon_tx_hash"@,
                "babylonTxHash"@,
                FieldKindV::Bytes,
                Presence::Singular,
                None,
            ),
        ],
    }
}

/// Builds the descriptor of `babylon.zoneconcierge.v1.IndexedHeader`.
pub fn indexed_header_descriptor(header: &MessageDescriptor) -> (d: MessageDescriptor)
    ensures
        d@ == indexed_header_desc(header@),
        msg_wf(header@) ==> msg_wf(indexed_header_desc(header@)),
{
    let mut fields: Vec<FieldDescriptor> = Vec::new();
    fields.push(field("chain_id", "chainId", FieldKind::Str, Presence::Singular, None));
    fields.push(field("hash", "hash", FieldKind::Bytes, Presence::Singular, None));
    fields.push(field("height", "height", FieldKind::UInt64, Presence::Singular, None));
    fields.push(field("babylon_header", "babylonHeader", FieldKind::Message(clone_descriptor(header)), Presence::Optional, None));
    fields.push(field("babylon_epoch", "babylonEpoch", FieldKind::UInt64, Presence::Singular, None));
    fields.push(field("babylon_tx_hash", "babylonTxHash", FieldKind::Bytes, Presence::Singular, None));
    let d = MessageDescriptor { fields };
    proof {
        lemma_fields_view(d.fields@);
        assert(d@.fields =~= indexed_header_desc(header@).fields);
        if msg_wf(header@) {
                let s = indexed_header_desc(header@).fields;
            assert forall|i: int| 0 <= i < s.len() implies field_wf(#[trigger] s[i]) by {
                assert(0 <= i < 6);
            }
            lemma_fields_wf_intro(s);
            reveal_strlit("babylonEpoch");
            reveal_strlit("babylonHeader");
            reveal_strlit("babylonTxHash");
            reveal_strlit("babylon_epoch");
            reveal_strlit("babylon_header");
            reveal_strlit("babylon_tx_hash");
            reveal_strlit("chainId");
            reveal_strlit("chain_id");
            reveal_strlit("hash");
            reveal_strlit("height");
            assert("babylonEpoch"@ != "babylonHeader"@) by {
                assert("babylonEpoch"@.len() == 12 && "babylonHeader"@.len() == 13);
            }
            assert("babylonEpoch"@ != "babylonTxHash"@) by {
                assert("babylonEpoch"@.len() == 12 && "babylonTxHash"@.len() == 13);
            }
            assert("babylonEpoch"@ != "babylon_epoch"@) by {
                assert("babylonEpoch"@.len() == 12 && "babylon_epoch"@.len() == 13);
            }
            assert("babylonEpoch"@ != "babylon_header"@) by {
                assert("babylonEpoch"@.len() == 12 && "babylon_header"@.len() == 14);
            }
            assert("babylonEpoch"@ != "babylon_tx_hash"@) by {
                assert("babylonEpoch"@.len() == 12 && "babylon_tx_hash"@.len() == 15);
            }
            assert("babylonEpoch"@ != "chainId"@) by {
                assert("babylonEpoch"@.len() == 12 && "chainId"@.len() == 7);
            }
            assert("babylonEpoch"@ != "chain_id"@) by {
                assert("babylonEpoch"@.len() == 12 && "chain_id"@.len() == 8);
            }
            assert("babylonEpoch"@ != "hash"@) by {
                assert("babylonEpoch"@.len() == 12 && "hash"@.len() == 4);
            }
            assert("babylonEpoch"@ != "height"@) by {
                assert("babylonEpoch"@.len() == 12 && "height"@.len() == 6);
            }
            assert("babylonHeader"@ != "babylonTxHash"@) by {
                assert("babylonHeader"@[7] == 'H' && "babylonTxHash"@[7] == 'T');
            }
            assert("babylonHeader"@ != "babylon_epoch"@) by {
                assert("babylonHeader"@[7] == 'H' && "babylon_epoch"@[7] == '_');
            }
            assert("babylonHeader"@ != "babylon_header"@) by {
                assert("babylonHeader"@.len() == 13 && "babylon_header"@.len() == 14);
            }
            assert("babylonHeader"@ != "babylon_tx_hash"@) by {
                assert("babylonHeader"@.len() == 13 && "babylon_tx_hash"@.len() == 15);
            }
            assert("babylonHeader"@ != "chainId"@) by {
                assert("babylonHeader"@.len() == 13 && "chainId"@.len() == 7);
            }
            assert("babylonHeader"@ != "chain_id"@) by {
                assert("babylonHeader"@.len() == 13 && "chain_id"@.len() == 8);
            }
            assert("babylonHeader"@ != "hash"@) by {
                assert("babylonHeader"@.len() == 13 && "hash"@.len() == 4);
            }
            assert("babylonHeader"@ != "height"@) by {
                assert("babylonHeader"@.len() == 13 && "height"@.len() == 6);
            }
            assert("babylonTxHash"@ != "babylon_epoch"@) by {
                assert("babylonTxHash"@[7] == 'T' && "babylon_epoch"@[7] == '_');
            }
            assert("babylonTxHash"@ != "babylon_header"@) by {
                assert("babylonTxHash"@.len() == 13 && "babylon_header"@.len() == 14);
            }
            assert("babylonTxHash"@ != "babylon_tx_hash"@) by {
                assert("babylonTxHash"@.len() == 13 && "babylon_tx_hash"@.len() == 15);
            }
            assert("babylonTxHash"@ != "chainId"@) by {
                assert("babylonTxHash"@.len() == 13 && "chainId"@.len() == 7);
            }
            assert("babylonTxHash"@ != "chain_id"@) by {
                assert("babylonTxHash"@.len() == 13 && "chain_id"@.len() == 8);
            }
            assert("babylonTxHash"@ != "hash"@) by {
                assert("babylonTxHash"@.len() == 13 && "hash"@.len() == 4);
            }
            assert("babylonTxHash"@ != "height"@) by {
                assert("babylonTxHash"@.len() == 13 && "height"@.len() == 6);
            }
            assert("babylon_epoch"@ != "babylon_header"@) by {
                assert("babylon_epoch"@.len() == 13 && "babylon_header"@.len() == 14);
            }
            assert("babylon_epoch"@ != "babylon_tx_hash"@) by {
                assert("babylon_epoch"@.len() == 13 && "babylon_tx_hash"@.len() == 15);
            }
            assert("babylon_epoch"@ != "chainId"@) by {
                assert("babylon_epoch"@.len() == 13 && "chainId"@.len() == 7);
            }
            assert("babylon_epoch"@ != "chain_id"@) by {
                assert("babylon_epoch"@.len() == 13 && "chain_id"@.len() == 8);
            }
            assert("babylon_epoch"@ != "hash"@) by {
                assert("babylon_epoch"@.len() == 13 && "hash"@.len() == 4);
            }
            assert("babylon_epoch"@ != "height"@) by {
                assert("babylon_epoch"@.len() == 13 && "height"@.len() == 6);
            }
            assert("babylon_header"@ != "babylon_tx_hash"@) by {
                assert("babylon_header"@.len() == 14 && "babylon_tx_hash"@.len() == 15);
            }
            assert("babylon_header"@ != "chainId"@) by {
                assert("babylon_header"@.len() == 14 && "chainId"@.len() == 7);
            }
            assert("babylon_header"@ != "chain_id"@) by {
                assert("babylon_header"@.len() == 14 && "chain_id"@.len() == 8);
            }
            assert("babylon_header"@ != "hash"@) by {
                assert("babylon_header"@.len() == 14 && "hash"@.len() == 4);
            }
            assert("babylon_header"@ != "height"@) by {
                assert("babylon_header"@.len() == 14 && "height"@.len() == 6);
            }
            assert("babylon_tx_hash"@ != "chainId"@) by {
                assert("babylon_tx_hash"@.len() == 15 && "chainId"@.len() == 7);
            }
            assert("babylon_tx_hash"@ != "chain_id"@) by {
                assert("babylon_tx_hash"@.len() == 15 && "chain_id"@.len() == 8);
            }
            assert("babylon_tx_hash"@ != "hash"@) by {
                assert("babylon_tx_hash"@.len() == 15 && "hash"@.len() == 4);
            }
            assert("babylon_tx_hash"@ != "height"@) by {
                assert("babylon_tx_hash"@.len() == 15 && "height"@.len() == 6);
            }
            assert("chainId"@ != "chain_id"@) by {
                assert("chainId"@.len() == 7 && "chain_id"@.len() == 8);
            }
            assert("chainId"@ != "hash"@) by {
                assert("chainId"@.len() == 7 && "hash"@.len() == 4);
            }
            assert("chainId"@ != "height"@) by {
                assert("chainId"@.len() == 7 && "height"@.len() == 6);
            }
            assert("chain_id"@ != "hash"@) by {
                assert("chain_id"@.len() == 8 && "hash"@.len() == 4);
            }
            assert("chain_id"@ != "height"@) by {
                assert("chain_id"@.len() == 8 && "height"@.len() == 6);
            }
            assert("hash"@ != "height"@) by {
                assert("hash"@.len() == 4 && "height"@.len() == 6);
            }
            assert(fields_keys_distinct(s));
        }
    }
    d
}

/// The descriptor of `babylon.zoneconcierge.v1.Forks`.
pub open spec fn forks_desc(header: MessageDescV) -> MessageDescV {
    MessageDescV {
        fields: seq![
            field_v(
                "headers"@,
                "headers"@,
                FieldKindV::Message(indexed_header_desc(header)),
                Presence::Repeated,
                None,
            ),
        ],
    }
}

/// Builds the descriptor of `babylon.zoneconcierge.v1.Forks`.
pub fn forks_descriptor(header: &MessageDescriptor) -> (d: MessageDescriptor)
    ensures
        d@ == forks_desc(header@),
        msg_wf(header@) ==> msg_wf(forks_desc(header@)),
{
    let mut fields: Vec<FieldDescriptor> = Vec::new();
    fields.push(field("headers", "headers", FieldKind::Message(indexed_header_descriptor(header)), Presence::Repeated, None));
    let d = MessageDescriptor { fields };
    proof {
        lemma_fields_view(d.fields@);
        assert(d@.fields =~= forks_desc(header@).fields);
        if msg_wf(header@) {
                let s = forks_desc(header@).fields;
            assert forall|i: int| 0 <= i < s.len() implies field_wf(#[trigger] s[i]) by {
                assert(0 <= i < 1);
            }
            lemma_fields_wf_intro(s);
            reveal_strlit("headers");
            
            assert(fields_keys_distinct(s));
        }
    }
    d
}

/// The descriptor of `babylon.zoneconcierge.v1.ChainInfo`.
pub open spec fn chain_info_desc(header: MessageDescV) -> MessageDescV {
    MessageDescV {
        fields: seq![
            field_v(
                "chain_id"@,
                "chainId"@,
                FieldKindV::Str,
                Presence::Singular,
                None,
            ),
            field_v(
                "latest_header"@,
                "latestHeader"@,
                FieldKindV::Message(indexed_header_desc(header)),
                Presence::Optional,
                None,
            ),
            field_v(
                "latest_forks"@,
                "latestForks"@,
                FieldKindV::Message(forks_desc(header)),
                Presence::Optional,
                None,
            ),
            field_v(
                "timestamped_headers_count"@,
                "timestampedHeadersCount"@,
                FieldKindV::UInt64,
                Presence::Singular,
                None,
            ),
        ],
    }
}

/// Builds the descriptor of `babylon.zoneconcierge.v1.ChainInfo`.
pub fn chain_info_descriptor(header: &MessageDescriptor) -> (d: MessageDescriptor)
    ensures
        d@ == chain_info_desc(header@),
        msg_wf(header@) ==> msg_wf(chain_info_desc(header@)),
{
    let mut fields: Vec<FieldDescriptor> = Vec::new();
    fields.push(field("chain_id", "chainId", FieldKind::Str, Presence::Singular, None));
    fields.push(field("latest_header", "latestHeader", FieldKind::Message(indexed_header_descriptor(header)), Presence::Optional, None));
    fields.push(field("latest_forks", "latestForks", FieldKind::Message(forks_descriptor(header)), Presence::Optional, None));
    fields.push(field("timestamped_headers_count", "timestampedHeadersCount", FieldKind::UInt64, Presence::Singular, None));
    let d = MessageDescriptor { fields };
    proof {
        lemma_fields_view(d.fields@);
        assert(d@.fields =~= chain_info_desc(header@).fields);
        if msg_wf(header@) {
                let s = chain_info_desc(header@).fields;
            assert forall|i: int| 0 <= i < s.len() implies field_wf(#[trigger] s[i]) by {
                assert(0 <= i < 4);
            }
            lemma_fields_wf_intro(s);
            reveal_strlit("chainId");
            reveal_strlit("chain_id");
            reveal_strlit("latestForks");
            reveal_strlit("latestHeader");
            reveal_strlit("latest_forks");
            reveal_strlit("latest_header");
            reveal_strlit("timestampedHeadersCount");
            reveal_strlit("timestamped_headers_count");
            assert("chainId"@ != "chain_id"@) by {
                assert("chainId"@.len() == 7 && "chain_id"@.len() == 8);
            }
            assert("chainId"@ != "latestForks"@) by {
                assert("chainId"@.len() == 7 && "latestForks"@.len() == 11);
            }
            assert("chainId"@ != "latestHeader"@) by {
                assert("chainId"@.len() == 7 && "latestHeader"@.len() == 12);
            }
            assert("chainId"@ != "latest_forks"@) by {
                assert("chainId"@.len() == 7 && "latest_forks"@.len() == 12);
            }
            assert("chainId"@ != "latest_header"@) by {
                assert("chainId"@.len() == 7 && "latest_header"@.len() == 13);
            }
            assert("chainId"@ != "timestampedHeadersCount"@) by {
                assert("chainId"@.len() == 7 && "timestampedHeadersCount"@.len() == 23);
            }
            assert("chainId"@ != "timestamped_headers_count"@) by {
                assert("chainId"@.len() == 7 && "timestamped_headers_count"@.len() == 25);
            }
            assert("chain_id"@ != "latestForks"@) by {
                assert("chain_id"@.len() == 8 && "latestForks"@.len() == 11);
            }
            assert("chain_id"@ != "latestHeader"@) by {
                assert("chain_id"@.len() == 8 && "latestHeader"@.len() == 12);
            }
            assert("chain_id"@ != "latest_forks"@) by {
                assert("chain_id"@.len() == 8 && "latest_forks"@.len() == 12);
            }
            assert("chain_id"@ != "latest_header"@) by {
                assert("chain_id"@.len() == 8 && "latest_header"@.len() == 13);
            }
            assert("chain_id"@ != "timestampedHeadersCount"@) by {
                assert("chain_id"@.len() == 8 && "timestampedHeadersCount"@.len() == 23);
            }
            assert("chain_id"@ != "timestamped_headers_count"@) by {
                assert("chain_id"@.len() == 8 && "timestamped_headers_count"@.len() == 25);
            }
            assert("latestForks"@ != "latestHeader"@) by {
                assert("latestForks"@.len() == 11 && "latestHeader"@.len() == 12);
            }
            assert("latestForks"@ != "latest_forks"@) by {
                assert("latestForks"@.len() == 11 && "latest_forks"@.len() == 12);
            }
            assert("latestForks"@ != "latest_header"@) by {
                assert("latestForks"@.len() == 11 && "latest_header"@.len() == 13);
            }
            assert("latestForks"@ != "timestampedHeadersCount"@) by {
                assert("latestForks"@.len() == 11 && "timestampedHeadersCount"@.len() == 23);
            }
            assert("latestForks"@ != "timestamped_headers_count"@) by {
                assert("latestForks"@.len() == 11 && "timestamped_headers_count"@.len() == 25);
            }
            assert("latestHeader"@ != "latest_forks"@) by {
                assert("latestHeader"@[6] == 'H' && "latest_forks"@[6] == '_');
            }
            assert("latestHeader"@ != "latest_header"@) by {
                assert("latestHeader"@.len() == 12 && "latest_header"@.len() == 13);
            }
            assert("latestHeader"@ != "timestampedHeadersCount"@) by {
                assert("latestHeader"@.len() == 12 && "timestampedHeadersCount"@.len() == 23);
            }
            assert("latestHeader"@ != "timestamped_headers_count"@) by {
                assert("latestHeader"@.len() == 12 && "timestamped_headers_count"@.len() == 25);
            }
            assert("latest_forks"@ != "latest_header"@) by {
                assert("latest_forks"@.len() == 12 && "latest_header"@.len() == 13);
            }
            assert("latest_forks"@ != "timestampedHeadersCount"@) by {
                assert("latest_forks"@.len() == 12 && "timestampedHeadersCount"@.len() == 23);
            }
            assert("latest_forks"@ != "timestamped_headers_count"@) by {
                assert("latest_forks"@.len() == 12 && "timestamped_headers_count"@.len() == 25);
            }
            assert("latest_header"@ != "timestampedHeadersCount"@) by {
                assert("latest_header"@.len() == 13 && "timestampedHeadersCount"@.len() == 23);
            }
            assert("latest_header"@ != "timestamped_headers_count"@) by {
                assert("latest_header"@.len() == 13 && "timestamped_headers_count"@.len() == 25);
            }
            assert("timestampedHeadersCount"@ != "timestamped_headers_count"@) by {
                assert("timestampedHeadersCount"@.len() == 23 && "timestamped_headers_count"@.len() == 25);
            }
            assert(fields_keys_distinct(s));
        }
    }
    d
}

/// The descriptor of `babylon.zoneconcierge.v1.ProofEpochSealed`.
pub open spec fn proof_epoch_sealed_desc(validator_with_bls_key: MessageDescV, proof_ops: MessageDescV) -> MessageDescV {
    MessageDescV {
        fields: seq![
            field_v(
                "validator_set"@,
                "validatorSet"@,
                FieldKindV::Message(validator_with_bls_key),
                Presence::Repeated,
                None,
            ),
            field_v(
                "proof_epoch_info"@,
                "proofEpochInfo"@,
                FieldKindV::Message(proof_ops),
                Presence::Optional,
                None,
            ),
            field_v(
                "proof_epoch_val_set"@,
                "proofEpochValSet"@,
                FieldKindV::Message(proof_ops),
                Presence::Optional,
                None,
            ),
        ],
    }
}

/// Builds the descriptor of `babylon.zoneconcierge.v1.ProofEpochSealed`.
pub fn proof_epoch_sealed_descriptor(validator_with_bls_key: &MessageDescriptor, proof_ops: &MessageDescriptor) -> (d: MessageDescriptor)
    ensures
        d@ == proof_epoch_sealed_desc(validator_with_bls_key@, proof_ops@),
        msg_wf(validator_with_bls_key@) && msg_wf(proof_ops@) ==> msg_wf(proof_epoch_sealed_desc(validator_with_bls_key@, proof_ops@)),
{
    let mut fields: Vec<FieldDescriptor> = Vec::new();
    fields.push(field("validator_set", "validatorSet", FieldKind::Message(clone_descriptor(validator_with_bls_key)), Presence::Repeated, None));
    fields.push(field("proof_epoch_info", "proofEpochInfo", FieldKind::Message(clone_descriptor(proof_ops)), Presence::Optional, None));
    fields.push(field("proof_epoch_val_set", "proofEpochValSet", FieldKind::Message(clone_descriptor(proof_ops)), Presence::Optional, None));
    let d = MessageDescriptor { fields };
    proof {
        lemma_fields_view(d.fields@);
        assert(d@.fields =~= proof_epoch_sealed_desc(validator_with_bls_key@, proof_ops@).fields);
        if msg_wf(validator_with_bls_key@) && msg_wf(proof_ops@) {
                let s = proof_epoch_sealed_desc(validator_with_bls_key@, proof_ops@).fields;
            assert forall|i: int| 0 <= i < s.len() implies field_wf(#[trigger] s[i]) by {
                assert(0 <= i < 3);
            }
            lemma_fields_wf_intro(s);
            reveal_strlit("proofEpochInfo");
            reveal_strlit("proofEpochValSet");
            reveal_strlit("proof_epoch_info");
            reveal_strlit("proof_epoch_val_set");
            reveal_strlit("validatorSet");
            reveal_strlit("validator_set");
            assert("proofEpochInfo"@ != "proofEpochValSet"@) by {
                assert("proofEpochInfo"@.len() == 14 && "proofEpochValSet"@.len() == 16);
            }
            assert("proofEpochInfo"@ != "proof_epoch_info"@) by {
                assert("proofEpochInfo"@.len() == 14 && "proof_epoch_info"@.len() == 16);
            }
            assert("proofEpochInfo"@ != "proof_epoch_val_set"@) by {
                assert("proofEpochInfo"@.len() == 14 && "proof_epoch_val_set"@.len() == 19);
            }
            assert("proofEpochInfo"@ != "validatorSet"@) by {
                assert("proofEpochInfo"@.len() == 14 && "validatorSet"@.len() == 12);
            }
            assert("proofEpochInfo"@ != "validator_set"@) by {
                assert("proofEpochInfo"@.len() == 14 && "validator_set"@.len() == 13);
            }
            assert("proofEpochValSet"@ != "proof_epoch_info"@) by {
                assert("proofEpochValSet"@[5] == 'E' && "proof_epoch_info"@[5] == '_');
            }
            assert("proofEpochValSet"@ != "proof_epoch_val_set"@) by {
                assert("proofEpochValSet"@.len() == 16 && "proof_epoch_val_set"@.len() == 19);
            }
            assert("proofEpochValSet"@ != "validatorSet"@) by {
                assert("proofEpochValSet"@.len() == 16 && "validatorSet"@.len() == 12);
            }
            assert("proofEpochValSet"@ != "validator_set"@) by {
                assert("proofEpochValSet"@.len() == 16 && "validator_set"@.len() == 13);
            }
            assert("proof_epoch_info"@ != "proof_epoch_val_set"@) by {
                assert("proof_epoch_info"@.len() == 16 && "proof_epoch_val_set"@.len() == 19);
            }
            assert("proof_epoch_info"@ != "validatorSet"@) by {
                assert("proof_epoch_info"@.len() == 16 && "validatorSet"@.len() == 12);
            }
            assert("proof_epoch_info"@ != "validator_set"@) by {
                assert("proof_epoch_info"@.len() == 16 && "validator_set"@.len() == 13);
            }
            assert("proof_epoch_val_set"@ != "validatorSet"@) by {
                assert("proof_epoch_val_set"@.len() == 19 && "validatorSet"@.len() == 12);
            }
            assert("proof_epoch_val_set"@ != "validator_set"@) by {
                assert("proof_epoch_val_set"@.len() == 19 && "validator_set"@.len() == 13);
            }
            assert("validatorSet"@ != "validator_set"@) by {
                assert("validatorSet"@.len() == 12 && "validator_set"@.len() == 13);
            }
            assert(fields_keys_distinct(s));
        }
    }
    d
}

/// The descriptor of `babylon.zoneconcierge.v1.ProofFinalizedChainInfo`.
pub open spec fn proof_finalized_chain_info_desc(tx_proof: MessageDescV, merkle_proof: MessageDescV, epoch_sealed: MessageDescV) -> MessageDescV {
    MessageDescV {
        fields: seq![
            field_v(
                "proof_tx_in_block"@,
                "proofTxInBlock"@,
                FieldKindV::Message(tx_proof),
                Presence::Optional,
                None,
            ),
            field_v(
                "proof_header_in_epoch"@,
                "proofHeaderInEpoch"@,
                FieldKindV::Message(merkle_proof),
                Presence::Optional,
                None,
            ),
            field_v(
                "proof_epoch_sealed"@,
                "proofEpochSealed"@,
                FieldKindV::Message(epoch_sealed),
                Presence::Optional,
                None,
            ),
            field_v(
                "proof_epoch_submitted"@,
                "proofEpochSubmitted"@,
                FieldKindV::Message(transaction_info_desc()),
                Presence::Repeated,
                None,
            ),
        ],
    }
}

/// Builds the descriptor of `babylon.zoneconcierge.v1.ProofFinalizedChainInfo`.
pub fn proof_finalized_chain_info_descriptor(tx_proof: &MessageDescriptor, merkle_proof: &MessageDescriptor, epoch_sealed: &MessageDescriptor) -> (d: MessageDescriptor)
    ensures
        d@ == proof_finalized_chain_info_desc(tx_proof@, merkle_proof@, epoch_sealed@),
        msg_wf(tx_proof@) && msg_wf(merkle_proof@) && msg_wf(epoch_sealed@) ==> msg_wf(proof_finalized_chain_info_desc(tx_proof@, merkle_proof@, epoch_sealed@)),
{
    let mut fields: Vec<FieldDescriptor> = Vec::new();
    fields.push(field("proof_tx_in_block", "proofTxInBlock", FieldKind::Message(clone_descriptor(tx_proof)), Presence::Optional, None));
    fields.push(field("proof_header_in_epoch", "proofHeaderInEpoch", FieldKind::Message(clone_descriptor(merkle_proof)), Presence::Optional, None));
    fields.push(field("proof_epoch_sealed", "proofEpochSealed", FieldKind::Message(clone_descriptor(epoch_sealed)), Presence::Optional, None));
    fields.push(field("proof_epoch_submitted", "proofEpochSubmitted", FieldKind::Message(transaction_info_descriptor()), Presence::Repeated, None));
    let d = MessageDescriptor { fields };
    proof {
        lemma_fields_view(d.fields@);
        assert(d@.fields =~= proof_finalized_chain_info_desc(tx_proof@, merkle_proof@, epoch_sealed@).fields);
        if msg_wf(tx_proof@) && msg_wf(merkle_proof@) && msg_wf(epoch_sealed@) {
                let s = proof_finalized_chain_info_desc(tx_proof@, merkle_proof@, epoch_sealed@).fields;
            assert forall|i: int| 0 <= i < s.len() implies field_wf(#[trigger] s[i]) by {
                assert(0 <= i < 4);
            }
            lemma_fields_wf_intro(s);
            reveal_strlit("proofEpochSealed");
            reveal_strlit("proofEpochSubmitted");
            reveal_strlit("proofHeaderInEpoch");
            reveal_strlit("proofTxInBlock");
            reveal_strlit("proof_epoch_sealed");
            reveal_strlit("proof_epoch_submitted");
            reveal_strlit("proof_header_in_epoch");
            reveal_strlit("proof_tx_in_block");
            assert("proofEpochSealed"@ != "proofEpochSubmitted"@) by {
                assert("proofEpochSealed"@.len() == 16 && "proofEpochSubmitted"@.len() == 19);
            }
            assert("proofEpochSealed"@ != "proofHeaderInEpoch"@) by {
                assert("proofEpochSealed"@.len() == 16 && "proofHeaderInEpoch"@.len() == 18);
            }
            assert("proofEpochSealed"@ != "proofTxInBlock"@) by {
                assert("proofEpochSealed"@.len() == 16 && "proofTxInBlock"@.len() == 14);
            }
            assert("proofEpochSealed"@ != "proof_epoch_sealed"@) by {
                assert("proofEpochSealed"@.len() == 16 && "proof_epoch_sealed"@.len() == 18);
            }
            assert("proofEpochSealed"@ != "proof_epoch_submitted"@) by {
                assert("proofEpochSealed"@.len() == 16 && "proof_epoch_submitted"@.len() == 21);
            }
            assert("proofEpochSealed"@ != "proof_header_in_epoch"@) by {
                assert("proofEpochSealed"@.len() == 16 && "proof_header_in_epoch"@.len() == 21);
            }
            assert("proofEpochSealed"@ != "proof_tx_in_block"@) by {
                assert("proofEpochSealed"@.len() == 16 && "proof_tx_in_block"@.len() == 17);
            }
            assert("proofEpochSubmitted"@ != "proofHeaderInEpoch"@) by {
                assert("proofEpochSubmitted"@.len() == 19 && "proofHeaderInEpoch"@.len() == 18);
            }
            assert("proofEpochSubmitted"@ != "proofTxInBlock"@) by {
                assert("proofEpochSubmitted"@.len() == 19 && "proofTxInBlock"@.len() == 14);
            }
            assert("proofEpochSubmitted"@ != "proof_epoch_sealed"@) by {
                assert("proofEpochSubmitted"@.len() == 19 && "proof_epoch_sealed"@.len() == 18);
            }
            assert("proofEpochSubmitted"@ != "proof_epoch_submitted"@) by {
                assert("proofEpochSubmitted"@.len() == 19 && "proof_epoch_submitted"@.len() == 21);
            }
            assert("proofEpochSubmitted"@ != "proof_header_in_epoch"@) by {
                assert("proofEpochSubmitted"@.len() == 19 && "proof_header_in_epoch"@.len() == 21);
            }
            assert("proofEpochSubmitted"@ != "proof_tx_in_block"@) by {
                assert("proofEpochSubmitted"@.len() == 19 && "proof_tx_in_block"@.len() == 17);
            }
            assert("proofHeaderInEpoch"@ != "proofTxInBlock"@) by {
                assert("proofHeaderInEpoch"@.len() == 18 && "proofTxInBlock"@.len() == 14);
            }
            assert("proofHeaderInEpoch"@ != "proof_epoch_sealed"@) by {
                assert("proofHeaderInEpoch"@[5] == 'H' && "proof_epoch_sealed"@[5] == '_');
            }
            assert("proofHeaderInEpoch"@ != "proof_epoch_submitted"@) by {
                assert("proofHeaderInEpoch"@.len() == 18 && "proof_epoch_submitted"@.len() == 21);
            }
            assert("proofHeaderInEpoch"@ != "proof_header_in_epoch"@) by {
                assert("proofHeaderInEpoch"@.len() == 18 && "proof_header_in_epoch"@.len() == 21);
            }
            assert("proofHeaderInEpoch"@ != "proof_tx_in_block"@) by {
                assert("proofHeaderInEpoch"@.len() == 18 && "proof_tx_in_block"@.len() == 17);
            }
            assert("proofTxInBlock"@ != "proof_epoch_sealed"@) by {
                assert("proofTxInBlock"@.len() == 14 && "proof_epoch_sealed"@.len() == 18);
            }
            assert("proofTxInBlock"@ != "proof_epoch_submitted"@) by {
                assert("proofTxInBlock"@.len() == 14 && "proof_epoch_submitted"@.len() == 21);
            }
            assert("proofTxInBlock"@ != "proof_header_in_epoch"@) by {
                assert("proofTxInBlock"@.len() == 14 && "proof_header_in_epoch"@.len() == 21);
            }
            assert("proofTxInBlock"@ != "proof_tx_in_block"@) by {
                assert("proofTxInBlock"@.len() == 14 && "proof_tx_in_block"@.len() == 17);
            }
            assert("proof_epoch_sealed"@ != "proof_epoch_submitted"@) by {
                assert("proof_epoch_sealed"@.len() == 18 && "proof_epoch_submitted"@.len() == 21);
            }
            assert("proof_epoch_sealed"@ != "proof_header_in_epoch"@) by {
                assert("proof_epoch_sealed"@.len() == 18 && "proof_header_in_epoch"@.len() == 21);
            }
            assert("proof_epoch_sealed"@ != "proof_tx_in_block"@) by {
                assert("proof_epoch_sealed"@.len() == 18 && "proof_tx_in_block"@.len() == 17);
            }
            assert("proof_epoch_submitted"@ != "proof_header_in_epoch"@) by {
                assert("proof_epoch_submitted"@[6] == 'e' && "proof_header_in_epoch"@[6] == 'h');
            }
            assert("proof_epoch_submitted"@ != "proof_tx_in_block"@) by {
                assert("proof_epoch_submitted"@.len() == 21 && "proof_tx_in_block"@.len() == 17);
            }
            assert("proof_header_in_epoch"@ != "proof_tx_in_block"@) by {
                assert("proof_header_in_epoch"@.len() == 21 && "proof_tx_in_block"@.len() == 17);
            }
            assert(fields_keys_distinct(s));
        }
    }
    d
}

} // verus!
