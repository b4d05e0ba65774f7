use babylon_json_codec::decode::decode;
use babylon_json_codec::descriptors::btccheckpoint::btc_status_table;
use babylon_json_codec::descriptors::btclightclient::btc_header_info_descriptor;
use babylon_json_codec::descriptors::checkpointing::{
    checkpoint_status_table, raw_checkpoint_descriptor,
};
use babylon_json_codec::descriptors::epoching::{
    bond_state_table, epoch_descriptor, queued_message_descriptor, validator_descriptor,
};
use babylon_json_codec::encode::encode;
use babylon_json_codec::errors::DecodeError;
use babylon_json_codec::json::Json;
use babylon_json_codec::msg::{GetCurrentEpochResponse, InstantiateMsg, QueryMsg};
use babylon_json_codec::query::{BabylonQuery, CurrentEpochResponse};
use babylon_json_codec::schema::MessageDescriptor;
use babylon_json_codec::value::{new_instance, set_field, Value};

fn obj(entries: Vec<(&str, Json)>) -> Json {
    Json::Obj(entries.into_iter().map(|(k, v)| (k.to_string(), v)).collect())
}

fn jstr(s: &str) -> Json {
    Json::Str(s.to_string())
}

/// Stands in for a proto type defined outside the supported packages.
fn external_desc() -> MessageDescriptor {
    MessageDescriptor { fields: vec![] }
}

#[test]
fn btc_header_info_encoding() {
    let d = btc_header_info_descriptor();
    let mut inst = new_instance(&d);
    set_field(&mut inst, &d, 0, Value::Bytes(vec![0xde, 0xad]));
    set_field(&mut inst, &d, 2, Value::U64(123456));
    let j = encode(&inst, &d).unwrap();
    assert_eq!(
        j,
        obj(vec![("header", jstr("3q0=")), ("height", jstr("123456"))])
    );
    assert_eq!(decode(&j, &d, true).unwrap(), inst);
}

#[test]
fn epoch_encoding_in_declaration_order() {
    let header = external_desc();
    let d = epoch_descriptor(&header);
    let mut inst = new_instance(&d);
    set_field(&mut inst, &d, 0, Value::U64(7));
    set_field(&mut inst, &d, 1, Value::U64(100));
    set_field(&mut inst, &d, 4, Value::Bytes(vec![0x01]));
    let j = encode(&inst, &d).unwrap();
    assert_eq!(
        j,
        obj(vec![
            ("epochNumber", jstr("7")),
            ("currentEpochInterval", jstr("100")),
            ("appHashRoot", jstr("AQ==")),
        ])
    );
    assert_eq!(decode(&j, &d, true).unwrap(), inst);
}

#[test]
fn raw_checkpoint_dual_casing() {
    let d = raw_checkpoint_descriptor();
    let snake = obj(vec![
        ("epoch_num", jstr("3")),
        ("last_commit_hash", jstr("AQID")),
    ]);
    let camel = obj(vec![
        ("epochNum", jstr("3")),
        ("lastCommitHash", jstr("AQID")),
    ]);
    assert_eq!(
        decode(&snake, &d, true).unwrap(),
        decode(&camel, &d, true).unwrap()
    );
}

#[test]
fn validator_negative_power() {
    let d = validator_descriptor();
    let mut inst = new_instance(&d);
    set_field(&mut inst, &d, 1, Value::I64(-5));
    let j = encode(&inst, &d).unwrap();
    assert_eq!(j, obj(vec![("power", jstr("-5"))]));
    assert_eq!(decode(&j, &d, true).unwrap(), inst);
}

#[test]
fn queued_message_oneof_exclusive_on_decode() {
    let ext = external_desc();
    let d = queued_message_descriptor(&ext, &ext, &ext, &ext, &ext);
    let j = obj(vec![
        ("msgDelegate", obj(vec![])),
        ("msgUndelegate", obj(vec![])),
    ]);
    assert_eq!(
        decode(&j, &d, true).unwrap_err(),
        DecodeError::DuplicateField("msgUndelegate".to_string())
    );
}

#[test]
fn queued_message_set_field_clears_sibling() {
    let ext = external_desc();
    let d = queued_message_descriptor(&ext, &ext, &ext, &ext, &ext);
    let mut inst = new_instance(&d);
    let sub = new_instance(&external_desc());
    set_field(&mut inst, &d, 5, Value::Msg(sub));
    let sub2 = new_instance(&external_desc());
    set_field(&mut inst, &d, 6, Value::Msg(sub2));
    // only the second member of the oneof is still set
    assert!(inst.slots[5].is_none());
    assert!(inst.slots[6].is_some());
    let j = encode(&inst, &d).unwrap();
    assert_eq!(j, obj(vec![("msgUndelegate", obj(vec![]))]));
}

#[test]
fn enum_tables_have_default_zero() {
    assert_eq!(btc_status_table().entries[0].numeric_value, 0);
    assert_eq!(
        btc_status_table().entries[0].symbolic_name,
        "EPOCH_STATUS_SUBMITTED"
    );
    assert_eq!(checkpoint_status_table().entries.len(), 5);
    assert_eq!(bond_state_table().entries[4].symbolic_name, "REMOVED");
}

#[test]
fn binding_shapes() {
    assert_eq!(BabylonQuery::current_epoch(), BabylonQuery::Epoch {});
    let r = CurrentEpochResponse { epoch: 43 };
    assert_eq!(r.epoch, 43);
    let m = InstantiateMsg { reflect_code_id: 17 };
    assert_eq!(m.reflect_code_id, 17);
    assert_eq!(QueryMsg::GetCurrentEpoch, QueryMsg::GetCurrentEpoch);
    let g = GetCurrentEpochResponse { epoch: 43 };
    assert_eq!(g.epoch, 43);
}
