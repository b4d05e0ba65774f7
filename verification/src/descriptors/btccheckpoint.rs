//! Descriptor tables for the `babylon.btccheckpoint.v1` message types.

use vstd::prelude::*;

use crate::descriptors::{enum_entry, field, field_v};
use crate::schema::{
    fields_keys_distinct, field_wf, lemma_fields_view, lemma_fields_wf_intro, msg_wf, EnumDescriptor, EnumDescV, EnumEntry, EnumEntryV, FieldDescriptor, FieldKind, FieldKindV, MessageDescriptor, MessageDescV, Presence,
};

verus! {

broadcast use vstd::seq::group_seq_axioms, vstd::std_specs::vec::group_vec_axioms;

/// The enum table of `babylon.btccheckpoint.v1.BtcStatus`.
pub open spec fn btc_status_desc() -> EnumDescV {
    EnumDescV {
        entries: seq![
            EnumEntryV { name: "EPOCH_STATUS_SUBMITTED"@, number: 0 },
            EnumEntryV { name: "EPOCH_STATUS_CONFIRMED"@, number: 1 },
            EnumEntryV { name: "EPOCH_STATUS_FINALIZED"@, number: 2 },
        ],
    }
}

/// Builds the enum table of `babylon.btccheckpoint.v1.BtcStatus`.
pub fn btc_status_table() -> (e: EnumDescriptor)
    ensures
        e@ == btc_status_desc(),
        btc_status_desc().wf(),
{
    let mut entries: Vec<EnumEntry> = Vec::new();
    entries.push(enum_entry("EPOCH_STATUS_SUBMITTED", 0));
    entries.push(enum_entry("EPOCH_STATUS_CONFIRMED", 1));
    entries.push(enum_entry("EPOCH_STATUS_FINALIZED", 2));
    let e = EnumDescriptor { entries };
    proof {
        assert(e@.entries =~= btc_status_desc().entries);
        reveal_strlit("EPOCH_STATUS_SUBMITTED");
        reveal_strlit("EPOCH_STATUS_CONFIRMED");
        reveal_strlit("EPOCH_STATUS_FINALIZED");
        assert("EPOCH_STATUS_CONFIRMED"@ != "EPOCH_STATUS_FINALIZED"@) by {
                assert("EPOCH_STATUS_CONFIRMED"@[13] == 'C' && "EPOCH_STATUS_FINALIZED"@[13] == 'F');
            }
        assert("EPOCH_STATUS_CONFIRMED"@ != "EPOCH_STATUS_SUBMITTED"@) by {
                assert("EPOCH_STATUS_CONFIRMED"@[13] == 'C' && "EPOCH_STATUS_SUBMITTED"@[13] == 'S');
            }
        assert("EPOCH_STATUS_FINALIZED"@ != "EPOCH_STATUS_SUBMITTED"@) by {
                assert("EPOCH_STATUS_FINALIZED"@[13] == 'F' && "EPOCH_STATUS_SUBMITTED"@[13] == 'S');
            }
        assert(btc_status_desc().entries[0].number == 0);
        assert(btc_status_desc().wf());
    }
    e
}

/// The descriptor of `babylon.btccheckpoint.v1.CheckpointAddresses`.
pub open spec fn checkpoint_addresses_desc() -> MessageDescV {
    MessageDescV {
        fields: seq![
            field_v(
                "submitter"@,
                "submitter"@,
                FieldKindV::Bytes,
                Presence::Singular,
                None,
            ),
            field_v(
                "reporter"@,
                "reporter"@,
                FieldKindV::Bytes,
                Presence::Singular,
                None,
            ),
        ],
    }
}

/// Builds the descriptor of `babylon.btccheckpoint.v1.CheckpointAddresses`.
pub fn checkpoint_addresses_descriptor() -> (d: MessageDescriptor)
    ensures
        d@ == checkpoint_addresses_desc(),
        msg_wf(checkpoint_addresses_desc()),
{
    let mut fields: Vec<FieldDescriptor> = Vec::new();
    fields.push(field("submitter", "submitter", FieldKind::Bytes, Presence::Singular, None));
    fields.push(field("reporter", "reporter", FieldKind::Bytes, Presence::Singular, None));
    let d = MessageDescriptor { fields };
    proof {
        lemma_fields_view(d.fields@);
        assert(d@.fields =~= checkpoint_addresses_desc().fields);
                let s = checkpoint_addresses_desc().fields;
            assert forall|i: int| 0 <= i < s.len() implies field_wf(#[trigger] s[i]) by {
                assert(0 <= i < 2);
            }
            lemma_fields_wf_intro(s);
            reveal_strlit("reporter");
            reveal_strlit("submitter");
            assert("reporter"@ != "submitter"@) by {
                assert("reporter"@.len() == 8 && "submitter"@.len() == 9);
            }
            assert(fields_keys_distinct(s));
    }
    d
}

/// The descriptor of `babylon.btccheckpoint.v1.TransactionKey`.
pub open spec fn transaction_key_desc() -> MessageDescV {
    MessageDescV {
        fields: seq![
            field_v(
                "index"@,
                "index"@,
                FieldKindV::UInt32,
                Presence::Singular,
                None,
            ),
            field_v(
                "hash"@,
                "hash"@,
                FieldKindV::Bytes,
                Presence::Singular,
                None,
            ),
        ],
    }
}

/// Builds the descriptor of `babylon.btccheckpoint.v1.TransactionKey`.
pub fn transaction_key_descriptor() -> (d: MessageDescriptor)
    ensures
        d@ == transaction_key_desc(),
        msg_wf(transaction_key_desc()),
{
    let mut fields: Vec<FieldDescriptor> = Vec::new();
    fields.push(field("index", "index", FieldKind::UInt32, Presence::Singular, None));
    fields.push(field("hash", "hash", FieldKind::Bytes, Presence::Singular, None));
    let d = MessageDescriptor { fields };
    proof {
        lemma_fields_view(d.fields@);
        assert(d@.fields =~= transaction_key_desc().fields);
                let s = transaction_key_desc().fields;
            assert forall|i: int| 0 <= i < s.len() implies field_wf(#[trigger] s[i]) by {
                assert(0 <= i < 2);
            }
            lemma_fields_wf_intro(s);
            reveal_strlit("hash");
            reveal_strlit("index");
            assert("hash"@ != "index"@) by {
                assert("hash"@.len() == 4 && "index"@.len() == 5);
            }
            assert(fields_keys_distinct(s));
    }
    d
}

/// The descriptor of `babylon.btccheckpoint.v1.TransactionInfo`.
pub open spec fn transaction_info_desc() -> MessageDescV {
    MessageDescV {
        fields: seq![
            field_v(
                "key"@,
                "key"@,
                FieldKindV::Message(transaction_key_desc()),
                Presence::Optional,
                None,
            ),
            field_v(
                "transaction"@,
                "transaction"@,
                FieldKindV::Bytes,
                Presence::Singular,
                None,
            ),
            field_v(
                "proof"@,
                "proof"@,
                FieldKindV::Bytes,
                Presence::Singular,
                None,
            ),
        ],
    }
}

/// Builds the descriptor of `babylon.btccheckpoint.v1.TransactionInfo`.
pub fn transaction_info_descriptor() -> (d: MessageDescriptor)
    ensures
        d@ == transaction_info_desc(),
        msg_wf(transaction_info_desc()),
{
    let mut fields: Vec<FieldDescriptor> = Vec::new();
    fields.push(field("key", "key", FieldKind::Message(transaction_key_descriptor()), Presence::Optional, None));
    fields.push(field("transaction", "transaction", FieldKind::Bytes, Presence::Singular, None));
    fields.push(field("proof", "proof", FieldKind::Bytes, Presence::Singular, None));
    let d = MessageDescriptor { fields };
    proof {
        lemma_fields_view(d.fields@);
        assert(d@.fields =~= transaction_info_desc().fields);
                let s = transaction_info_desc().fields;
            assert forall|i: int| 0 <= i < s.len() implies field_wf(#[trigger] s[i]) by {
                assert(0 <= i < 3);
            }
            lemma_fields_wf_intro(s);
            reveal_strlit("key");
            reveal_strlit("proof");
            reveal_strlit("transaction");
            assert("key"@ != "proof"@) by {
                assert("key"@.len() == 3 && "proof"@.len() == 5);
            }
            assert("key"@ != "transaction"@) by {
                assert("key"@.len() == 3 && "transaction"@.len() == 11);
            }
            assert("proof"@ != "transaction"@) by {
                assert("proof"@.len() == 5 && "transaction"@.len() == 11);
            }
            assert(fields_keys_distinct(s));
    }
    d
}

/// The descriptor of `babylon.btccheckpoint.v1.BtcCheckpointInfo`.
pub open spec fn btc_checkpoint_info_desc() -> MessageDescV {
    MessageDescV {
        fields: seq![
            field_v(
                "epoch_number"@,
                "epochNumber"@,
                FieldKindV::UInt64,
                Presence::Singular,
                None,
            ),
            field_v(
                "earliest_btc_block_number"@,
                "earliestBtcBlockNumber"@,
                FieldKindV::UInt64,
                Presence::Singular,
                None,
            ),
            field_v(
                "earliest_btc_block_hash"@,
                "earliestBtcBlockHash"@,
                FieldKindV::Bytes,
                Presence::Singular,
                None,
            ),
            field_v(
                "earliest_btc_block_txs"@,
                "earliestBtcBlockTxs"@,
                FieldKindV::Message(transaction_info_desc()),
                Presence::Repeated,
                None,
            ),
            field_v(
                "vigilante_address_list"@,
                "vigilanteAddressList"@,
                FieldKindV::Message(checkpoint_addresses_desc()),
                Presence::Repeated,
                None,
            ),
        ],
    }
}

/// Builds the descriptor of `babylon.btccheckpoint.v1.BtcCheckpointInfo`.
pub fn btc_checkpoint_info_descriptor() -> (d: MessageDescriptor)
    ensures
        d@ == btc_checkpoint_info_desc(),
        msg_wf(btc_checkpoint_info_desc()),
{
    let mut fields: Vec<FieldDescriptor> = Vec::new();
    fields.push(field("epoch_number", "epochNumber", FieldKind::UInt64, Presence::Singular, None));
    fields.push(field("earliest_btc_block_number", "earliestBtcBlockNumber", FieldKind::UInt64, Presence::Singular, None));
    fields.push(field("earliest_btc_block_hash", "earliestBtcBlockHash", FieldKind::Bytes, Presence::Singular, None));
    fields.push(field("earliest_btc_block_txs", "earliestBtcBlockTxs", FieldKind::Message(transaction_info_descriptor()), Presence::Repeated, None));
    fields.push(field("vigilante_address_list", "vigilanteAddressList", FieldKind::Message(checkpoint_addresses_descriptor()), Presence::Repeated, None));
    let d = MessageDescriptor { fields };
    proof {
        lemma_fields_view(d.fields@);
        assert(d@.fields =~= btc_checkpoint_info_desc().fields);
                let s = btc_checkpoint_info_desc().fields;
            assert forall|i: int| 0 <= i < s.len() implies field_wf(#[trigger] s[i]) by {
                assert(0 <= i < 5);
            }
            lemma_fields_wf_intro(s);
            reveal_strlit("earliestBtcBlockHash");
            reveal_strlit("earliestBtcBlockNumber");
            reveal_strlit("earliestBtcBlockTxs");
            reveal_strlit("earliest_btc_block_hash");
            reveal_strlit("earliest_btc_block_number");
            reveal_strlit("earliest_btc_block_txs");
            reveal_strlit("epochNumber");
            reveal_strlit("epoch_number");
            reveal_strlit("vigilanteAddressList");
            reveal_strlit("vigilante_address_list");
            assert("earliestBtcBlockHash"@ != "earliestBtcBlockNumber"@) by {
                assert("earliestBtcBlockHash"@.len() == 20 && "earliestBtcBlockNumber"@.len() == 22);
            }
            assert("earliestBtcBlockHash"@ != "earliestBtcBlockTxs"@) by {
                assert("earliestBtcBlockHash"@.len() == 20 && "earliestBtcBlockTxs"@.len() == 19);
            }
            assert("earliestBtcBlockHash"@ != "earliest_btc_block_hash"@) by {
                assert("earliestBtcBlockHash"@.len() == 20 && "earliest_btc_block_hash"@.len() == 23);
            }
            assert("earliestBtcBlockHash"@ != "earliest_btc_block_number"@) by {
                assert("earliestBtcBlockHash"@.len() == 20 && "earliest_btc_block_number"@.len() == 25);
            }
            assert("earliestBtcBlockHash"@ != "earliest_btc_block_txs"@) by {
                assert("earliestBtcBlockHash"@.len() == 20 && "earliest_btc_block_txs"@.len() == 22);
            }
            assert("earliestBtcBlockHash"@ != "epochNumber"@) by {
                assert("earliestBtcBlockHash"@.len() == 20 && "epochNumber"@.len() == 11);
            }
            assert("earliestBtcBlockHash"@ != "epoch_number"@) by {
                assert("earliestBtcBlockHash"@.len() == 20 && "epoch_number"@.len() == 12);
            }
            assert("earliestBtcBlockHash"@ != "vigilanteAddressList"@) by {
                assert("earliestBtcBlockHash"@[0] == 'e' && "vigilanteAddressList"@[0] == 'v');
            }
            assert("earliestBtcBlockHash"@ != "vigilante_address_list"@) by {
                assert("earliestBtcBlockHash"@.len() == 20 && "vigilante_address_list"@.len() == 22);
            }
            assert("earliestBtcBlockNumber"@ != "earliestBtcBlockTxs"@) by {
                assert("earliestBtcBlockNumber"@.len() == 22 && "earliestBtcBlockTxs"@.len() == 19);
            }
            assert("earliestBtcBlockNumber"@ != "earliest_btc_block_hash"@) by {
                assert("earliestBtcBlockNumber"@.len() == 22 && "earliest_btc_block_hash"@.len() == 23);
            }
            assert("earliestBtcBlockNumber"@ != "earliest_btc_block_number"@) by {
                assert("earliestBtcBlockNumber"@.len() == 22 && "earliest_btc_block_number"@.len() == 25);
            }
            assert("earliestBtcBlockNumber"@ != "earliest_btc_block_txs"@) by {
                assert("earliestBtcBlockNumber"@[8] == 'B' && "earliest_btc_block_txs"@[8] == '_');
            }
            assert("earliestBtcBlockNumber"@ != "epochNumber"@) by {
                assert("earliestBtcBlockNumber"@.len() == 22 && "epochNumber"@.len() == 11);
            }
            assert("earliestBtcBlockNumber"@ != "epoch_number"@) by {
                assert("earliestBtcBlockNumber"@.len() == 22 && "epoch_number"@.len() == 12);
            }
            assert("earliestBtcBlockNumber"@ != "vigilanteAddressList"@) by {
                assert("earliestBtcBlockNumber"@.len() == 22 && "vigilanteAddressList"@.len() == 20);
            }
            assert("earliestBtcBlockNumber"@ != "vigilante_address_list"@) by {
                assert("earliestBtcBlockNumber"@[0] == 'e' && "vigilante_address_list"@[0] == 'v');
            }
            assert("earliestBtcBlockTxs"@ != "earliest_btc_block_hash"@) by {
                assert("earliestBtcBlockTxs"@.len() == 19 && "earliest_btc_block_hash"@.len() == 23);
            }
            assert("earliestBtcBlockTxs"@ != "earliest_btc_block_number"@) by {
                assert("earliestBtcBlockTxs"@.len() == 19 && "earliest_btc_block_number"@.len() == 25);
            }
            assert("earliestBtcBlockTxs"@ != "earliest_btc_block_txs"@) by {
                assert("earliestBtcBlockTxs"@.len() == 19 && "earliest_btc_block_txs"@.len() == 22);
            }
            assert("earliestBtcBlockTxs"@ != "epochNumber"@) by {
                assert("earliestBtcBlockTxs"@.len() == 19 && "epochNumber"@.len() == 11);
            }
            assert("earliestBtcBlockTxs"@ != "epoch_number"@) by {
                assert("earliestBtcBlockTxs"@.len() == 19 && "epoch_number"@.len() == 12);
            }
            assert("earliestBtcBlockTxs"@ != "vigilanteAddressList"@) by {
                assert("earliestBtcBlockTxs"@.len() == 19 && "vigilanteAddressList"@.len() == 20);
            }
            assert("earliestBtcBlockTxs"@ != "vigilante_address_list"@) by {
                assert("earliestBtcBlockTxs"@.len() == 19 && "vigilante_address_list"@.len() == 22);
            }
            assert("earliest_btc_block_hash"@ != "earliest_btc_block_number"@) by {
                assert("earliest_btc_block_hash"@.len() == 23 && "earliest_btc_block_number"@.len() == 25);
            }
            assert("earliest_btc_block_hash"@ != "earliest_btc_block_txs"@) by {
                assert("earliest_btc_block_hash"@.len() == 23 && "earliest_btc_block_txs"@.len() == 22);
            }
            assert("earliest_btc_block_hash"@ != "epochNumber"@) by {
                assert("earliest_btc_block_hash"@.len() == 23 && "epochNumber"@.len() == 11);
            }
            assert("earliest_btc_block_hash"@ != "epoch_number"@) by {
                assert("earliest_btc_block_hash"@.len() == 23 && "epoch_number"@.len() == 12);
            }
            assert("earliest_btc_block_hash"@ != "vigilanteAddressList"@) by {
                assert("earliest_btc_block_hash"@.len() == 23 && "vigilanteAddressList"@.len() == 20);
            }
            assert("earliest_btc_block_hash"@ != "vigilante_address_list"@) by {
                assert("earliest_btc_block_hash"@.len() == 23 && "vigilante_address_list"@.len() == 22);
            }
            assert("earliest_btc_block_number"@ != "earliest_btc_block_txs"@) by {
                assert("earliest_btc_block_number"@.len() == 25 && "earliest_btc_block_txs"@.len() == 22);
            }
            assert("earliest_btc_block_number"@ != "epochNumber"@) by {
                assert("earliest_btc_block_number"@.len() == 25 && "epochNumber"@.len() == 11);
            }
            assert("earliest_btc_block_number"@ != "epoch_number"@) by {
                assert("earliest_btc_block_number"@.len() == 25 && "epoch_number"@.len() == 12);
            }
            assert("earliest_btc_block_number"@ != "vigilanteAddressList"@) by {
                assert("earliest_btc_block_number"@.len() == 25 && "vigilanteAddressList"@.len() == 20);
            }
            assert("earliest_btc_block_number"@ != "vigilante_address_list"@) by {
                assert("earliest_btc_block_number"@.len() == 25 && "vigilante_address_list"@.len() == 22);
            }
            assert("earliest_btc_block_txs"@ != "epochNumber"@) by {
                assert("earliest_btc_block_txs"@.len() == 22 && "epochNumber"@.len() == 11);
            }
            assert("earliest_btc_block_txs"@ != "epoch_number"@) by {
                assert("earliest_btc_block_txs"@.len() == 22 && "epoch_number"@.len() == 12);
            }
            assert("earliest_btc_block_txs"@ != "vigilanteAddressList"@) by {
                assert("earliest_btc_block_txs"@.len() == 22 && "vigilanteAddressList"@.len() == 20);
            }
            assert("earliest_btc_block_txs"@ != "vigilante_address_list"@) by {
                assert("earliest_btc_block_txs"@[0] == 'e' && "vigilante_address_list"@[0] == 'v');
            }
            assert("epochNumber"@ != "epoch_number"@) by {
                assert("epochNumber"@.len() == 11 && "epoch_number"@.len() == 12);
            }
            assert("epochNumber"@ != "vigilanteAddressList"@) by {
                assert("epochNumber"@.len() == 11 && "vigilanteAddressList"@.len() == 20);
            }
            assert("epochNumber"@ != "vigilante_address_list"@) by {
                assert("epochNumber"@.len() == 11 && "vigilante_address_list"@.len() == 22);
            }
            assert("epoch_number"@ != "vigilanteAddressList"@) by {
                assert("epoch_number"@.len() == 12 && "vigilanteAddressList"@.len() == 20);
            }
            assert("epoch_number"@ != "vigilante_address_list"@) by {
                assert("epoch_number"@.len() == 12 && "vigilante_address_list"@.len() == 22);
            }
            assert("vigilanteAddressList"@ != "vigilante_address_list"@) by {
                assert("vigilanteAddressList"@.len() == 20 && "vigilante_address_list"@.len() == 22);
            }
            assert(fields_keys_distinct(s));
    }
    d
}

/// The descriptor of `babylon.btccheckpoint.v1.BtcSpvProof`.
pub open spec fn btc_spv_proof_desc() -> MessageDescV {
    MessageDescV {
        fields: seq![
            field_v(
                "btc_transaction"@,
                "btcTransaction"@,
                FieldKindV::Bytes,
                Presence::Singular,
                None,
            ),
            field_v(
                "btc_transaction_index"@,
                "btcTransactionIndex"@,
                FieldKindV::UInt32,
                Presence::Singular,
                None,
            ),
            field_v(
                "merkle_nodes"@,
                "merkleNodes"@,
                FieldKindV::Bytes,
                Presence::Singular,
                None,
            ),
            field_v(
                "confirming_btc_header"@,
                "confirmingBtcHeader"@,
                FieldKindV::Bytes,
                Presence::Singular,
                None,
            ),
        ],
    }
}

/// Builds the descriptor of `babylon.btccheckpoint.v1.BtcSpvProof`.
pub fn btc_spv_proof_descriptor() -> (d: MessageDescriptor)
    ensures
        d@ == btc_spv_proof_desc(),
        msg_wf(btc_spv_proof_desc()),
{
    let mut fields: Vec<FieldDescriptor> = Vec::new();
    fields.push(field("btc_transaction", "btcTransaction", FieldKind::Bytes, Presence::Singular, None));
    fields.push(field("btc_transaction_index", "btcTransactionIndex", FieldKind::UInt32, Presence::Singular, None));
    fields.push(field("merkle_nodes", "merkleNodes", FieldKind::Bytes, Presence::Singular, None));
    fields.push(field("confirming_btc_header", "confirmingBtcHeader", FieldKind::Bytes, Presence::Singular, None));
    let d = MessageDescriptor { fields };
    proof {
        lemma_fields_view(d.fields@);
        assert(d@.fields =~= btc_spv_proof_desc().fields);
                let s = btc_spv_proof_desc().fields;
            assert forall|i: int| 0 <= i < s.len() implies field_wf(#[trigger] s[i]) by {
                assert(0 <= i < 4);
            }
            lemma_fields_wf_intro(s);
            reveal_strlit("btcTransaction");
            reveal_strlit("btcTransactionIndex");
            reveal_strlit("btc_transaction");
            reveal_strlit("btc_transaction_index");
            reveal_strlit("confirmingBtcHeader");
            reveal_strlit("confirming_btc_header");
            reveal_strlit("merkleNodes");
            reveal_strlit("merkle_nodes");
            assert("btcTransaction"@ != "btcTransactionIndex"@) by {
                assert("btcTransaction"@.len() == 14 && "btcTransactionIndex"@.len() == 19);
            }
            assert("btcTransaction"@ != "btc_transaction"@) by {
                assert("btcTransaction"@.len() == 14 && "btc_transaction"@.len() == 15);
            }
            assert("btcTransaction"@ != "btc_transaction_index"@) by {
                assert("btcTransaction"@.len() == 14 && "btc_transaction_index"@.len() == 21);
            }
            assert("btcTransaction"@ != "confirmingBtcHeader"@) by {
                assert("btcTransaction"@.len() == 14 && "confirmingBtcHeader"@.len() == 19);
            }
            assert("btcTransaction"@ != "confirming_btc_header"@) by {
                assert("btcTransaction"@.len() == 14 && "confirming_btc_header"@.len() == 21);
            }
            assert("btcTransaction"@ != "merkleNodes"@) by {
                assert("btcTransaction"@.len() == 14 && "merkleNodes"@.len() == 11);
            }
            assert("btcTransaction"@ != "merkle_nodes"@) by {
                assert("btcTransaction"@.len() == 14 && "merkle_nodes"@.len() == 12);
            }
            assert("btcTransactionIndex"@ != "btc_transaction"@) by {
                assert("btcTransactionIndex"@.len() == 19 && "btc_transaction"@.len() == 15);
            }
            assert("btcTransactionIndex"@ != "btc_transaction_index"@) by {
                assert("btcTransactionIndex"@.len() == 19 && "btc_transaction_index"@.len() == 21);
            }
            assert("btcTransactionIndex"@ != "confirmingBtcHeader"@) by {
                assert("btcTransactionIndex"@[0] == 'b' && "confirmingBtcHeader"@[0] == 'c');
            }
            assert("btcTransactionIndex"@ != "confirming_btc_header"@) by {
                assert("btcTransactionIndex"@.len() == 19 && "confirming_btc_header"@.len() == 21);
            }
            assert("btcTransactionIndex"@ != "merkleNodes"@) by {
                assert("btcTransactionIndex"@.len() == 19 && "merkleNodes"@.len() == 11);
            }
            assert("btcTransactionIndex"@ != "merkle_nodes"@) by {
                assert("btcTransactionIndex"@.len() == 19 && "merkle_nodes"@.len() == 12);
            }
            assert("btc_transaction"@ != "btc_transaction_index"@) by {
                assert("btc_transaction"@.len() == 15 && "btc_transaction_index"@.len() == 21);
            }
            assert("btc_transaction"@ != "confirmingBtcHeader"@) by {
                assert("btc_transaction"@.len() == 15 && "confirmingBtcHeader"@.len() == 19);
            }
            assert("btc_transaction"@ != "confirming_btc_header"@) by {
                assert("btc_transaction"@.len() == 15 && "confirming_btc_header"@.len() == 21);
            }
            assert("btc_transaction"@ != "merkleNodes"@) by {
                assert("btc_transaction"@.len() == 15 && "merkleNodes"@.len() == 11);
            }
            assert("btc_transaction"@ != "merkle_nodes"@) by {
                assert("btc_transaction"@.len() == 15 && "merkle_nodes"@.len() == 12);
            }
            assert("btc_transaction_index"@ != "confirmingBtcHeader"@) by {
                assert("btc_transaction_index"@.len() == 21 && "confirmingBtcHeader"@.len() == 19);
            }
            assert("btc_transaction_index"@ != "confirming_btc_header"@) by {
                assert("btc_transaction_index"@[0] == 'b' && "confirming_btc_header"@[0] == 'c');
            }
            assert("btc_transaction_index"@ != "merkleNodes"@) by {
                assert("btc_transaction_index"@.len() == 21 && "merkleNodes"@.len() == 11);
            }
            assert("btc_transaction_index"@ != "merkle_nodes"@) by {
                assert("btc_transaction_index"@.len() == 21 && "merkle_nodes"@.len() == 12);
            }
            assert("confirmingBtcHeader"@ != "confirming_btc_header"@) by {
                assert("confirmingBtcHeader"@.len() == 19 && "confirming_btc_header"@.len() == 21);
            }
            assert("confirmingBtcHeader"@ != "merkleNodes"@) by {
                assert("confirmingBtcHeader"@.len() == 19 && "merkleNodes"@.len() == 11);
            }
            assert("confirmingBtcHeader"@ != "merkle_nodes"@) by {
                assert("confirmingBtcHeader"@.len() == 19 && "merkle_nodes"@.len() == 12);
            }
            assert("confirming_btc_header"@ != "merkleNodes"@) by {
                assert("confirming_btc_header"@.len() == 21 && "merkleNodes"@.len() == 11);
            }
            assert("confirming_btc_header"@ != "merkle_nodes"@) by {
                assert("confirming_btc_header"@.len() == 21 && "merkle_nodes"@.len() == 12);
            }
            assert("merkleNodes"@ != "merkle_nodes"@) by {
                assert("merkleNodes"@.len() == 11 && "merkle_nodes"@.len() == 12);
            }
            assert(fields_keys_distinct(s));
    }
    d
}

/// The descriptor of `babylon.btccheckpoint.v1.SubmissionKey`.
pub open spec fn submission_key_desc() -> MessageDescV {
    MessageDescV {
        fields: seq![
            field_v(
                "key"@,
                "key"@,
                FieldKindV::Message(transaction_key_desc()),
                Presence::Repeated,
                None,
            ),
        ],
    }
}

/// Builds the descriptor of `babylon.btccheckpoint.v1.SubmissionKey`.
pub fn submission_key_descriptor() -> (d: MessageDescriptor)
    ensures
        d@ == submission_key_desc(),
        msg_wf(submission_key_desc()),
{
    let mut fields: Vec<FieldDescriptor> = Vec::new();
    fields.push(field("key", "key", FieldKind::Message(transaction_key_descriptor()), Presence::Repeated, None));
    let d = MessageDescriptor { fields };
    proof {
        lemma_fields_view(d.fields@);
        assert(d@.fields =~= submission_key_desc().fields);
                let s = submission_key_desc().fields;
            assert forall|i: int| 0 <= i < s.len() implies field_wf(#[trigger] s[i]) by {
                assert(0 <= i < 1);
            }
            lemma_fields_wf_intro(s);
            reveal_strlit("key");
            
            assert(fields_keys_distinct(s));
    }
    d
}

/// The descriptor of `babylon.btccheckpoint.v1.EpochData`.
pub open spec fn epoch_data_desc() -> MessageDescV {
    MessageDescV {
        fields: seq![
            field_v(
                "key"@,
                "key"@,
                FieldKindV::Message(submission_key_desc()),
                Presence::Repeated,
                None,
            ),
            field_v(
                "status"@,
                "status"@,
                FieldKindV::Enum(btc_status_desc()),
                Presence::Singular,
                None,
            ),
        ],
    }
}

/// Builds the descriptor of `babylon.btccheckpoint.v1.EpochData`.
pub fn epoch_data_descriptor() -> (d: MessageDescriptor)
    ensures
        d@ == epoch_data_desc(),
        msg_wf(epoch_data_desc()),
{
    let mut fields: Vec<FieldDescriptor> = Vec::new();
    fields.push(field("key", "key", FieldKind::Message(submission_key_descriptor()), Presence::Repeated, None));
    fields.push(field("status", "status", FieldKind::Enum(btc_status_table()), Presence::Singular, None));
    let d = MessageDescriptor { fields };
    proof {
        lemma_fields_view(d.fields@);
        assert(d@.fields =~= epoch_data_desc().fields);
                let s = epoch_data_desc().fields;
            assert forall|i: int| 0 <= i < s.len() implies field_wf(#[trigger] s[i]) by {
                assert(0 <= i < 2);
            }
            lemma_fields_wf_intro(s);
            reveal_strlit("key");
            reveal_strlit("status");
            assert("key"@ != "status"@) by {
                assert("key"@.len() == 3 && "status"@.len() == 6);
            }
            assert(fields_keys_distinct(s));
    }
    d
}

/// The descriptor of `babylon.btccheckpoint.v1.SubmissionData`.
pub open spec fn submission_data_desc() -> MessageDescV {
    MessageDescV {
        fields: seq![
            field_v(
                "vigilante_addresses"@,
                "vigilanteAddresses"@,
                FieldKindV::Message(checkpoint_addresses_desc()),
                Presence::Optional,
                None,
            ),
            field_v(
                "txs_info"@,
                "txsInfo"@,
                FieldKindV::Message(transaction_info_desc()),
                Presence::Repeated,
                None,
            ),
            field_v(
                "epoch"@,
                "epoch"@,
                FieldKindV::UInt64,
                Presence::Singular,
                None,
            ),
        ],
    }
}

/// Builds the descriptor of `babylon.btccheckpoint.v1.SubmissionData`.
pub fn submission_data_descriptor() -> (d: MessageDescriptor)
    ensures
        d@ == submission_data_desc(),
        msg_wf(submission_data_desc()),
{
    let mut fields: Vec<FieldDescriptor> = Vec::new();
    fields.push(field("vigilante_addresses", "vigilanteAddresses", FieldKind::Message(checkpoint_addresses_descriptor()), Presence::Optional, None));
    fields.push(field("txs_info", "txsInfo", FieldKind::Message(transaction_info_descriptor()), Presence::Repeated, None));
    fields.push(field("epoch", "epoch", FieldKind::UInt64, Presence::Singular, None));
    let d = MessageDescriptor { fields };
    proof {
        lemma_fields_view(d.fields@);
        assert(d@.fields =~= submission_data_desc().fields);
                let s = submission_data_desc().fields;
            assert forall|i: int| 0 <= i < s.len() implies field_wf(#[trigger] s[i]) by {
                assert(0 <= i < 3);
            }
            lemma_fields_wf_intro(s);
            reveal_strlit("epoch");
            reveal_strlit("txsInfo");
            reveal_strlit("txs_info");
            reveal_strlit("vigilanteAddresses");
            reveal_strlit("vigilante_addresses");
            assert("epoch"@ != "txsInfo"@) by {
                assert("epoch"@.len() == 5 && "txsInfo"@.len() == 7);
            }
            assert("epoch"@ != "txs_info"@) by {
                assert("epoch"@.len() == 5 && "txs_info"@.len() == 8);
            }
            assert("epoch"@ != "vigilanteAddresses"@) by {
                assert("epoch"@.len() == 5 && "vigilanteAddresses"@.len() == 18);
            }
            assert("epoch"@ != "vigilante_addresses"@) by {
                assert("epoch"@.len() == 5 && "vigilante_addresses"@.len() == 19);
            }
            assert("txsInfo"@ != "txs_info"@) by {
                assert("txsInfo"@.len() == 7 && "txs_info"@.len() == 8);
            }
            assert("txsInfo"@ != "vigilanteAddresses"@) by {
                assert("txsInfo"@.len() == 7 && "vigilanteAddresses"@.len() == 18);
            }
            assert("txsInfo"@ != "vigilante_addresses"@) by {
                assert("txsInfo"@.len() == 7 && "vigilante_addresses"@.len() == 19);
            }
            assert("txs_info"@ != "vigilanteAddresses"@) by {
                assert("txs_info"@.len() == 8 && "vigilanteAddresses"@.len() == 18);
            }
            assert("txs_info"@ != "vigilante_addresses"@) by {
                assert("txs_info"@.len() == 8 && "vigilante_addresses"@.len() == 19);
            }
            assert("vigilanteAddresses"@ != "vigilante_addresses"@) by {
                assert("vigilanteAddresses"@.len() == 18 && "vigilante_addresses"@.len() == 19);
            }
            assert(fields_keys_distinct(s));
    }
    d
}

} // verus!
