use babylon_json_codec::decode::decode;
use babylon_json_codec::encode::encode;
use babylon_json_codec::errors::DecodeError;
use babylon_json_codec::json::Json;
use babylon_json_codec::schema::{
    lookup_field, EnumDescriptor, EnumEntry, FieldDescriptor, FieldKind, MapKeyKind, MapValKind,
    MessageDescriptor, Presence,
};
use babylon_json_codec::value::{new_instance, set_field, Instance, MapKey, Value};

fn fld(name: &str, json_name: &str, kind: FieldKind, presence: Presence) -> FieldDescriptor {
    FieldDescriptor {
        name: name.to_string(),
        json_name: json_name.to_string(),
        kind,
        presence,
        oneof_group: None,
    }
}

fn status_enum() -> EnumDescriptor {
    EnumDescriptor {
        entries: vec![
            EnumEntry { symbolic_name: "UNSPECIFIED".to_string(), numeric_value: 0 },
            EnumEntry { symbolic_name: "CONFIRMED".to_string(), numeric_value: 1 },
            EnumEntry { symbolic_name: "FINALIZED".to_string(), numeric_value: 2 },
        ],
    }
}

/// A small message exercising every scalar rendering.
fn sample_desc() -> MessageDescriptor {
    MessageDescriptor {
        fields: vec![
            fld("epoch_number", "epochNumber", FieldKind::UInt64, Presence::Singular),
            fld("height", "height", FieldKind::Int64, Presence::Singular),
            fld("tag", "tag", FieldKind::Str, Presence::Singular),
            fld("hash", "hash", FieldKind::Bytes, Presence::Singular),
            fld("status", "status", FieldKind::Enum(status_enum()), Presence::Singular),
            fld("active", "active", FieldKind::Bool, Presence::Singular),
            fld("weight", "weight", FieldKind::UInt32, Presence::Singular),
        ],
    }
}

fn obj(entries: Vec<(&str, Json)>) -> Json {
    Json::Obj(entries.into_iter().map(|(k, v)| (k.to_string(), v)).collect())
}

fn jstr(s: &str) -> Json {
    Json::Str(s.to_string())
}

#[test]
fn default_suppression_empty_object() {
    let d = sample_desc();
    let inst = new_instance(&d);
    let j = encode(&inst, &d).unwrap();
    assert_eq!(j, Json::Obj(vec![]));
}

#[test]
fn u64_fidelity_max_value() {
    let d = sample_desc();
    let mut inst = new_instance(&d);
    set_field(&mut inst, &d, 0, Value::U64(18446744073709551615));
    let j = encode(&inst, &d).unwrap();
    assert_eq!(j, obj(vec![("epochNumber", jstr("18446744073709551615"))]));
    let back = decode(&j, &d, true).unwrap();
    assert_eq!(back, inst);
    // the same value supplied as a JSON number decodes identically
    let j2 = obj(vec![("epochNumber", Json::Num(18446744073709551615))]);
    assert_eq!(decode(&j2, &d, true).unwrap(), inst);
}

#[test]
fn i64_negative_rendering() {
    let d = sample_desc();
    let mut inst = new_instance(&d);
    set_field(&mut inst, &d, 1, Value::I64(-9223372036854775808));
    let j = encode(&inst, &d).unwrap();
    assert_eq!(j, obj(vec![("height", jstr("-9223372036854775808"))]));
    assert_eq!(decode(&j, &d, true).unwrap(), inst);
}

#[test]
fn enum_fidelity_symbolic_and_numeric() {
    let d = sample_desc();
    let mut inst = new_instance(&d);
    set_field(&mut inst, &d, 4, Value::EnumNum(2));
    let j = encode(&inst, &d).unwrap();
    assert_eq!(j, obj(vec![("status", jstr("FINALIZED"))]));
    let from_name = decode(&obj(vec![("status", jstr("FINALIZED"))]), &d, true).unwrap();
    let from_number = decode(&obj(vec![("status", Json::Num(2))]), &d, true).unwrap();
    assert_eq!(from_name, inst);
    assert_eq!(from_number, inst);
}

#[test]
fn bytes_fidelity_base64() {
    let d = sample_desc();
    let mut inst = new_instance(&d);
    set_field(&mut inst, &d, 3, Value::Bytes(vec![0x01, 0x02, 0x03]));
    let j = encode(&inst, &d).unwrap();
    assert_eq!(j, obj(vec![("hash", jstr("AQID"))]));
    assert_eq!(decode(&obj(vec![("hash", jstr("AQID"))]), &d, true).unwrap(), inst);
}

#[test]
fn base64_padding_lengths() {
    let d = sample_desc();
    for bytes in [vec![0xff], vec![0xff, 0xee], vec![0xff, 0xee, 0xdd], vec![
        0xff, 0xee, 0xdd, 0xcc,
    ]] {
        let mut inst = new_instance(&d);
        set_field(&mut inst, &d, 3, Value::Bytes(bytes.clone()));
        let j = encode(&inst, &d).unwrap();
        let back = decode(&j, &d, true).unwrap();
        assert_eq!(back, inst, "bytes {:?}", bytes);
    }
}

#[test]
fn dual_casing_accepted() {
    let d = sample_desc();
    let snake = decode(&obj(vec![("epoch_number", jstr("5"))]), &d, true).unwrap();
    let camel = decode(&obj(vec![("epochNumber", jstr("5"))]), &d, true).unwrap();
    assert_eq!(snake, camel);
    let mut expected = new_instance(&d);
    set_field(&mut expected, &d, 0, Value::U64(5));
    assert_eq!(snake, expected);
}

#[test]
fn duplicate_both_spellings_rejected() {
    let d = sample_desc();
    let j = obj(vec![("epoch_number", jstr("5")), ("epochNumber", jstr("6"))]);
    let e = decode(&j, &d, true).unwrap_err();
    assert_eq!(e, DecodeError::DuplicateField("epochNumber".to_string()));
    // lenient mode rejects it just the same
    let e2 = decode(&j, &d, false).unwrap_err();
    assert_eq!(e2, DecodeError::DuplicateField("epochNumber".to_string()));
}

#[test]
fn unknown_field_strict_vs_lenient() {
    let d = sample_desc();
    let j = obj(vec![("mystery", jstr("5"))]);
    let e = decode(&j, &d, true).unwrap_err();
    assert_eq!(e, DecodeError::UnknownField("mystery".to_string()));
    let ok = decode(&j, &d, false).unwrap();
    assert_eq!(ok, new_instance(&d));
}

#[test]
fn invalid_number_rejected() {
    let d = sample_desc();
    for bad in ["", "12x", "0x12", " 1", "18446744073709551616"] {
        let j = obj(vec![("epoch_number", jstr(bad))]);
        let e = decode(&j, &d, true).unwrap_err();
        assert_eq!(e, DecodeError::InvalidNumber("epochNumber".to_string()), "input {:?}", bad);
    }
    let j = obj(vec![("epoch_number", Json::Num(-1))]);
    assert_eq!(
        decode(&j, &d, true).unwrap_err(),
        DecodeError::InvalidNumber("epochNumber".to_string())
    );
    let j = obj(vec![("weight", Json::Num(4294967296))]);
    assert_eq!(
        decode(&j, &d, true).unwrap_err(),
        DecodeError::InvalidNumber("weight".to_string())
    );
}

#[test]
fn invalid_bytes_rejected() {
    let d = sample_desc();
    for bad in ["AQI", "AQID==", "A===", "????"] {
        let j = obj(vec![("hash", jstr(bad))]);
        let e = decode(&j, &d, true).unwrap_err();
        assert_eq!(e, DecodeError::InvalidBytes("hash".to_string()), "input {:?}", bad);
    }
}

#[test]
fn unknown_enum_value_rejected() {
    let d = sample_desc();
    let j = obj(vec![("status", jstr("SOMETHING"))]);
    assert_eq!(
        decode(&j, &d, true).unwrap_err(),
        DecodeError::UnknownEnumValue("status".to_string())
    );
    let j = obj(vec![("status", Json::Num(7))]);
    assert_eq!(
        decode(&j, &d, true).unwrap_err(),
        DecodeError::UnknownEnumValue("status".to_string())
    );
    // encoding a number the table does not name fails too
    let mut inst = new_instance(&d);
    set_field(&mut inst, &d, 4, Value::EnumNum(9));
    assert!(encode(&inst, &d).is_err());
}

#[test]
fn type_mismatch_rejected() {
    let d = sample_desc();
    let j = obj(vec![("tag", Json::Num(3))]);
    assert_eq!(
        decode(&j, &d, true).unwrap_err(),
        DecodeError::TypeMismatch("tag".to_string())
    );
    let j = obj(vec![("active", jstr("true"))]);
    assert_eq!(
        decode(&j, &d, true).unwrap_err(),
        DecodeError::TypeMismatch("active".to_string())
    );
    // null is not a valid rendering of any field
    let j = obj(vec![("tag", Json::Null)]);
    assert_eq!(
        decode(&j, &d, true).unwrap_err(),
        DecodeError::TypeMismatch("tag".to_string())
    );
    // a non-object at the top is a type mismatch with an empty path
    assert_eq!(
        decode(&Json::Num(1), &d, true).unwrap_err(),
        DecodeError::TypeMismatch(String::new())
    );
}

#[test]
fn optional_zero_is_emitted() {
    let d = MessageDescriptor {
        fields: vec![
            fld("count", "count", FieldKind::UInt32, Presence::Optional),
            fld("total", "total", FieldKind::UInt32, Presence::Singular),
        ],
    };
    let mut inst = new_instance(&d);
    set_field(&mut inst, &d, 0, Value::U32(0));
    let j = encode(&inst, &d).unwrap();
    assert_eq!(j, obj(vec![("count", Json::Num(0))]));
    assert_eq!(decode(&j, &d, true).unwrap(), inst);
}

#[test]
fn repeated_field_round_trip() {
    let d = MessageDescriptor {
        fields: vec![fld("heights", "heights", FieldKind::UInt64, Presence::Repeated)],
    };
    let mut inst = new_instance(&d);
    set_field(
        &mut inst,
        &d,
        0,
        Value::List(vec![Value::U64(1), Value::U64(0), Value::U64(18446744073709551615)]),
    );
    let j = encode(&inst, &d).unwrap();
    assert_eq!(
        j,
        obj(vec![(
            "heights",
            Json::Arr(vec![jstr("1"), jstr("0"), jstr("18446744073709551615")]),
        )])
    );
    assert_eq!(decode(&j, &d, true).unwrap(), inst);
}

#[test]
fn map_field_round_trip() {
    let d = MessageDescriptor {
        fields: vec![fld(
            "balances",
            "balances",
            FieldKind::Mapping(MapKeyKind::Str, MapValKind::UInt64),
            Presence::Singular,
        )],
    };
    let mut inst = new_instance(&d);
    set_field(
        &mut inst,
        &d,
        0,
        Value::MapEntries(vec![
            (MapKey::Str("alice".to_string()), Value::U64(7)),
            (MapKey::Str("bob".to_string()), Value::U64(0)),
        ]),
    );
    let j = encode(&inst, &d).unwrap();
    assert_eq!(
        j,
        obj(vec![(
            "balances",
            obj(vec![("alice", jstr("7")), ("bob", jstr("0"))]),
        )])
    );
    assert_eq!(decode(&j, &d, true).unwrap(), inst);
}

#[test]
fn map_integer_keys_round_trip() {
    let d = MessageDescriptor {
        fields: vec![fld(
            "by_epoch",
            "byEpoch",
            FieldKind::Mapping(MapKeyKind::UInt64, MapValKind::Str),
            Presence::Singular,
        )],
    };
    let mut inst = new_instance(&d);
    set_field(
        &mut inst,
        &d,
        0,
        Value::MapEntries(vec![(MapKey::U64(42), Value::Str("sealed".to_string()))]),
    );
    let j = encode(&inst, &d).unwrap();
    assert_eq!(j, obj(vec![("byEpoch", obj(vec![("42", jstr("sealed"))]))]));
    assert_eq!(decode(&j, &d, true).unwrap(), inst);
}

#[test]
fn nested_message_round_trip_and_path() {
    let inner = MessageDescriptor {
        fields: vec![fld("height", "height", FieldKind::UInt64, Presence::Singular)],
    };
    let d = MessageDescriptor {
        fields: vec![
            fld("name", "name", FieldKind::Str, Presence::Singular),
            fld(
                "last_header",
                "lastHeader",
                FieldKind::Message(inner),
                Presence::Optional,
            ),
        ],
    };
    let inner2 = MessageDescriptor {
        fields: vec![fld("height", "height", FieldKind::UInt64, Presence::Singular)],
    };
    let mut sub = new_instance(&inner2);
    set_field(&mut sub, &inner2, 0, Value::U64(99));
    let mut inst = new_instance(&d);
    set_field(&mut inst, &d, 0, Value::Str("chain".to_string()));
    set_field(&mut inst, &d, 1, Value::Msg(sub));
    let j = encode(&inst, &d).unwrap();
    assert_eq!(
        j,
        obj(vec![
            ("name", jstr("chain")),
            ("lastHeader", obj(vec![("height", jstr("99"))])),
        ])
    );
    assert_eq!(decode(&j, &d, true).unwrap(), inst);
    // a nested error keeps the dotted path
    let bad = obj(vec![("lastHeader", obj(vec![("height", jstr("nope"))]))]);
    assert_eq!(
        decode(&bad, &d, true).unwrap_err(),
        DecodeError::InvalidNumber("lastHeader.height".to_string())
    );
}

#[test]
fn key_order_does_not_matter_for_decoding() {
    let d = sample_desc();
    let j1 = obj(vec![("epochNumber", jstr("3")), ("tag", jstr("a"))]);
    let j2 = obj(vec![("tag", jstr("a")), ("epochNumber", jstr("3"))]);
    assert_eq!(decode(&j1, &d, true).unwrap(), decode(&j2, &d, true).unwrap());
}

#[test]
fn lookup_field_accepts_both_spellings_only() {
    let d = sample_desc();
    assert_eq!(lookup_field(&d, "epoch_number"), Some(0));
    assert_eq!(lookup_field(&d, "epochNumber"), Some(0));
    assert_eq!(lookup_field(&d, "EPOCH_NUMBER"), None);
    assert_eq!(lookup_field(&d, "epochnumber"), None);
    assert_eq!(lookup_field(&d, "status"), Some(4));
}
