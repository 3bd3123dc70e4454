use hiroz::dynamic::error::DynamicError;
use hiroz::dynamic::loader::{
    load_schema, msg_file_places, parsed_message_to_schema, search_path_entries, split_msg_type,
    ArrayType, KnownFile,
    LoadStep, MsgFile, ParsedField, ParsedFieldType, ParsedMessage, SearchEntry,
};
use hiroz::dynamic::registry::{get_schema, has_schema, register_schema, SchemaRegistry};
use hiroz::dynamic::message::DynamicMessageBuilder;
use hiroz::dynamic::schema::{
    messages_equal, values_equal, DynamicMessage, DynamicValue, FieldType, MessageSchema,
};
use hiroz::dynamic::serialization::cdr::{
    deserialize_cdr, mismatch_message, serialize_cdr, serialize_cdr_to_zbuf,
};
use hiroz::dynamic::type_info::{
    dds_type_name_from_schema, ros_type_name_from_dds, schema_hash, schema_type_info,
    schema_type_info_with_hash, TypeHash,
};
use hiroz::dynamic::validate::{
    schemas_match, validate_message, validate_value, validate_value_inner, ValidationBudget, MAX_DYNAMIC_DEPTH,
    MAX_DYNAMIC_VALUES,
};
use std::sync::Arc;

fn schema(field_type: FieldType) -> Arc<MessageSchema> {
    MessageSchema::builder("test_msgs/msg/Wide")
        .field("data", field_type)
        .build()
        .unwrap()
}

fn message(field_type: FieldType, value: DynamicValue) -> DynamicMessage {
    let schema = schema(field_type);
    let mut message = DynamicMessage::new(&schema);
    message.set_dynamic("data", value).unwrap();
    message
}

fn cdr_words(big_endian: bool, words: &[u32]) -> Vec<u8> {
    let mut bytes = if big_endian {
        vec![0x00, 0x00, 0x00, 0x00]
    } else {
        vec![0x00, 0x01, 0x00, 0x00]
    };
    for word in words {
        bytes.extend(if big_endian {
            word.to_be_bytes()
        } else {
            word.to_le_bytes()
        });
    }
    bytes
}

fn decode_hex(value: &str) -> Vec<u8> {
    value
        .as_bytes()
        .chunks_exact(2)
        .map(|pair| {
            let text = std::str::from_utf8(pair).unwrap();
            u8::from_str_radix(text, 16).unwrap()
        })
        .collect()
}

fn shared_schema(depth: usize) -> Arc<MessageSchema> {
    let mut schema = MessageSchema::builder("test_msgs/msg/Shared0").build().unwrap();
    for level in 1..=depth {
        schema = MessageSchema::builder(&format!("test_msgs/msg/Shared{level}"))
            .field("left", FieldType::Message(schema.clone()))
            .field("right", FieldType::Message(schema))
            .build()
            .unwrap();
    }
    schema
}

#[test]
fn structural_schema_comparison_has_a_work_budget() {
    let expected = shared_schema(24);
    let actual = shared_schema(24);
    let message = DynamicMessage::from_values(&actual, Vec::new());
    let mut budget = ValidationBudget { remaining: 64 };
    assert!(matches!(
        schemas_match(&expected, message.schema(), 0, &mut budget),
        Err(DynamicError::ResourceLimitExceeded(_))
    ));
}

#[test]
fn one_schema_equals_itself_at_no_further_cost() {
    let s = shared_schema(24);
    let mut budget = ValidationBudget { remaining: 1 };
    assert_eq!(schemas_match(&s, &s, 0, &mut budget), Ok(true));
    assert_eq!(budget.remaining, 0);
    assert!(matches!(
        schemas_match(&s, &s, 0, &mut budget),
        Err(DynamicError::ResourceLimitExceeded(text))
            if text == "message contains more than 1000000 values"
    ));
    assert!(matches!(
        schemas_match(&s, &s, MAX_DYNAMIC_DEPTH + 1, &mut budget),
        Err(DynamicError::ResourceLimitExceeded(text)) if text == "nesting exceeds 128 levels"
    ));
    assert_eq!(MAX_DYNAMIC_VALUES, 1_000_000);
}

#[test]
fn mismatch_diagnostic_does_not_format_nested_schema() {
    let expected = shared_schema(MAX_DYNAMIC_DEPTH + 1);
    let error = validate_value(
        &FieldType::Message(expected),
        &DynamicValue::String("wrong".into()),
        "child",
    )
    .unwrap_err();
    assert!(matches!(
        error,
        DynamicError::TypeMismatch { path, expected }
            if path == "child" && expected.starts_with("message test_msgs/msg/Shared")
    ));
}

#[test]
fn ros_rclpy_wstring_fixtures_decode() {
    let fixtures = [
        ("", "000100000000000000000000"),
        ("A水", "000100000200000041000000346c000065733a3a"),
        (
            "A😀水",
            "0001000004000000410000003dd8000000de0000346c00003a646473",
        ),
    ];
    let schema = schema(FieldType::WString);
    for (expected, hex) in fixtures {
        let bytes = decode_hex(hex);
        let decoded = deserialize_cdr(&bytes, &schema).unwrap();
        assert_eq!(decoded.get::<String>("data").unwrap(), expected);
    }
}

#[test]
fn wstring_encoding_matches_ros_field_bytes() {
    for (text, units) in [
        ("", vec![]),
        ("A水", vec![0x41, 0x6c34]),
        ("A😀水", vec![0x41, 0xd83d, 0xde00, 0x6c34]),
    ] {
        let value = message(FieldType::WString, DynamicValue::String(text.into()));
        let expected = cdr_words(
            false,
            &std::iter::once(units.len() as u32)
                .chain(units)
                .collect::<Vec<_>>(),
        );
        assert_eq!(serialize_cdr(&value).unwrap(), expected);
    }
}

#[test]
fn wstring_decodes_big_endian_fixture_bytes() {
    let bytes = cdr_words(false, &[4, 0x41, 0xd83d, 0xde00, 0x6c34]);
    let big_endian = cdr_words(true, &[4, 0x41, 0xd83d, 0xde00, 0x6c34]);
    let schema = schema(FieldType::WString);
    let little = deserialize_cdr(&bytes, &schema).unwrap();
    let big = deserialize_cdr(&big_endian, &schema).unwrap();
    assert_eq!(little.get::<String>("data").unwrap(), "A😀水");
    assert_eq!(big.get::<String>("data").unwrap(), "A😀水");
}

#[test]
fn bounded_wstring_counts_utf16_units() {
    let accepted = message(
        FieldType::BoundedWString(2),
        DynamicValue::String("😀".into()),
    );
    assert!(serialize_cdr(&accepted).is_ok());

    let schema = schema(FieldType::BoundedWString(2));
    let mut rejected = DynamicMessage::new(&schema);
    assert!(matches!(
        rejected.set("data", "😀a"),
        Err(DynamicError::BoundExceeded { max: 2, actual: 3 })
    ));

    let over_bound = cdr_words(false, &[3, 0xd83d, 0xde00, 0x61]);
    assert!(matches!(
        deserialize_cdr(&over_bound, &schema),
        Err(DynamicError::BoundExceeded { max: 2, actual: 3 })
    ));
}

#[test]
fn wstring_arrays_and_sequences_roundtrip() {
    let schema = MessageSchema::builder("test_msgs/msg/WideCollections")
        .field("fixed", FieldType::Array(Box::new(FieldType::WString), 2))
        .field(
            "bounded",
            FieldType::BoundedSequence(Box::new(FieldType::BoundedWString(2)), 2),
        )
        .field("values", FieldType::Sequence(Box::new(FieldType::WString)))
        .build()
        .unwrap();
    let mut original = DynamicMessage::new(&schema);
    original
        .set_dynamic(
            "fixed",
            DynamicValue::Array(vec![
                DynamicValue::String("A".into()),
                DynamicValue::String("水".into()),
            ]),
        )
        .unwrap();
    original
        .set_dynamic(
            "bounded",
            DynamicValue::Array(vec![DynamicValue::String("😀".into())]),
        )
        .unwrap();
    original
        .set_dynamic(
            "values",
            DynamicValue::Array(vec![
                DynamicValue::String(String::new()),
                DynamicValue::String("A😀水".into()),
            ]),
        )
        .unwrap();

    let bytes = serialize_cdr(&original).unwrap();
    let decoded = deserialize_cdr(&bytes, &schema).unwrap();
    assert_eq!(decoded.values(), original.values());
    assert_eq!(decoded, original);
}

#[test]
fn malformed_wstrings_are_rejected_before_allocation() {
    let schema = schema(FieldType::WString);
    let valid = cdr_words(false, &[2, 0xd83d, 0xde00]);
    for end in 0..valid.len() {
        assert!(deserialize_cdr(&valid[..end], &schema).is_err());
    }
    for words in [
        vec![1, 0x1_0000],
        vec![1, 0xd800],
        vec![1, 0xdc00],
        vec![2, 0xd800, 0x41],
    ] {
        assert!(deserialize_cdr(&cdr_words(false, &words), &schema).is_err());
        assert!(deserialize_cdr(&cdr_words(true, &words), &schema).is_err());
    }
    assert!(deserialize_cdr(&cdr_words(false, &[u32::MAX]), &schema).is_err());
    assert!(deserialize_cdr(&cdr_words(true, &[u32::MAX]), &schema).is_err());
}

#[test]
fn native_wchar_uses_the_ros_fast_cdr_u16_wire_width() {
    let value = message(FieldType::WChar, DynamicValue::Uint16(0x6c34));
    assert_eq!(serialize_cdr(&value).unwrap(), [0, 1, 0, 0, 0x34, 0x6c]);

    let schema = schema(FieldType::WChar);
    let decoded = deserialize_cdr(&[0, 0, 0, 0, 0x6c, 0x34], &schema).unwrap();
    assert_eq!(decoded.get::<u16>("data").unwrap(), 0x6c34);
}

fn wide_unit_error(words: &[u32]) -> DynamicError {
    deserialize_cdr(&cdr_words(false, words), &schema(FieldType::WString)).unwrap_err()
}

#[test]
fn decoding_errors_say_what_is_wrong() {
    assert_eq!(
        wide_unit_error(&[1, 0x1_0000]),
        DynamicError::DeserializationError(
            "wide string code unit exceeds uint16: 0x10000".to_string()
        )
    );
    assert_eq!(
        wide_unit_error(&[1, 0xd800]),
        DynamicError::DeserializationError(
            "invalid UTF-16 wide string: invalid utf-16: lone surrogate found".to_string()
        )
    );
    assert_eq!(
        wide_unit_error(&[2, 0x41]),
        DynamicError::DeserializationError(
            "wide string length exceeds remaining payload".to_string()
        )
    );
    let s = schema(FieldType::Uint32);
    assert_eq!(
        deserialize_cdr(&[0, 1], &s).unwrap_err(),
        DynamicError::DeserializationError("CDR data too short for header".to_string())
    );
    assert_eq!(
        deserialize_cdr(&[0, 3, 0, 0], &s).unwrap_err(),
        DynamicError::DeserializationError(
            "Unsupported CDR encapsulation identifier: [0, 3]".to_string()
        )
    );
    assert_eq!(
        deserialize_cdr(&[0, 1, 0, 0, 1, 2, 3], &s).unwrap_err(),
        DynamicError::DeserializationError("unexpected end of CDR data".to_string())
    );
    let text = schema(FieldType::String);
    assert_eq!(
        deserialize_cdr(&[0, 1, 0, 0, 2, 0, 0, 0, 0xff, 0], &text).unwrap_err(),
        DynamicError::DeserializationError("invalid UTF-8 in CDR string".to_string())
    );
}

fn everything() -> Arc<MessageSchema> {
    let point = MessageSchema::builder("geometry_msgs/msg/Point")
        .field("x", FieldType::Float64)
        .field("tag", FieldType::Int8)
        .build()
        .unwrap();
    MessageSchema::builder("test_msgs/msg/All")
        .field("flag", FieldType::Bool)
        .field("a", FieldType::Int16)
        .field("b", FieldType::Int32)
        .field("c", FieldType::Int64)
        .field("d", FieldType::Uint64)
        .field("e", FieldType::Float32)
        .field("name", FieldType::BoundedString(5))
        .field("bytes", FieldType::Sequence(Box::new(FieldType::Byte)))
        .field("point", FieldType::Message(point))
        .field_with_default("n", FieldType::Uint32, DynamicValue::Uint32(7))
        .build()
        .unwrap()
}

#[test]
fn the_encoding_aligns_each_number_to_its_size() {
    let schema = everything();
    let mut m = DynamicMessage::new(&schema);
    assert_eq!(m.get::<u32>("n").unwrap(), 7);
    m.set("flag", true).unwrap();
    m.set("a", -2i16).unwrap();
    m.set("b", -3i32).unwrap();
    m.set("c", -4i64).unwrap();
    m.set("d", 0x0102_0304_0506_0708u64).unwrap();
    m.set_dynamic("e", DynamicValue::Float32(1.5f32.to_bits())).unwrap();
    m.set("name", "ab").unwrap();
    m.set_dynamic("bytes", DynamicValue::Bytes(vec![9, 8])).unwrap();
    m.set_dynamic("point.x", DynamicValue::Float64(2.0f64.to_bits())).unwrap();
    m.set("point.tag", -1i8).unwrap();
    assert!(validate_message(&m).is_ok());
    let mut expected = vec![0, 1, 0, 0];
    expected.extend([1, 0]);
    expected.extend((-2i16).to_le_bytes());
    expected.extend((-3i32).to_le_bytes());
    expected.extend((-4i64).to_le_bytes());
    expected.extend(0x0102_0304_0506_0708u64.to_le_bytes());
    expected.extend(1.5f32.to_le_bytes());
    expected.extend([3, 0, 0, 0, b'a', b'b', 0, 0]);
    expected.extend([2, 0, 0, 0, 9, 8, 0, 0, 0, 0]);
    expected.truncate(4 + 24 + 4 + 8 + 6);
    while (expected.len() - 4) % 8 != 0 {
        expected.push(0);
    }
    expected.extend(2.0f64.to_le_bytes());
    expected.push(0xff);
    expected.extend([0, 0, 0, 7, 0, 0, 0]);
    let bytes = serialize_cdr(&m).unwrap();
    assert_eq!(bytes, expected);
    let back = deserialize_cdr(&bytes, &schema).unwrap();
    assert_eq!(back, m);
    assert_eq!(back.get::<i8>("point.tag").unwrap(), -1);
    let buffer = serialize_cdr_to_zbuf(&m).unwrap();
    let mut seen = Vec::new();
    for slice in buffer.zslices() {
        seen.extend_from_slice(slice.as_slice());
    }
    assert_eq!(seen, bytes);
}

#[test]
fn values_that_have_no_encoding_are_refused() {
    let bounded = FieldType::BoundedSequence(Box::new(FieldType::Uint8), 4);
    let m = message(bounded, DynamicValue::Bytes(vec![1, 2]));
    match serialize_cdr(&m) {
        Err(DynamicError::SerializationError(text)) => {
            assert_eq!(
                text,
                "Type mismatch: cannot serialize Bytes([1, 2]) as BoundedSequence(Uint8, 4)"
            );
            assert_eq!(
                mismatch_message("Bytes([1, 2])", "BoundedSequence(Uint8, 4)"),
                text
            );
        }
        other => panic!("{other:?}"),
    }
    let s = schema(FieldType::BoundedWString(1));
    let mut m = DynamicMessage::new(&s);
    m.values_mut()[0] = DynamicValue::String("ab".to_string());
    assert_eq!(
        serialize_cdr(&m),
        Err(DynamicError::BoundExceeded { max: 1, actual: 2 })
    );
}

#[test]
fn reading_and_writing_fields() {
    let schema = everything();
    let mut m = DynamicMessage::new(&schema);
    assert_eq!(m.field_count(), 10);
    assert_eq!(m.schema_arc().full_name, "test_msgs/msg/All");
    assert_eq!(m.iter()[1].0, "a");
    assert_eq!(
        m.get::<u8>("missing"),
        Err(DynamicError::FieldNotFound("missing".to_string()))
    );
    assert_eq!(
        m.get::<u8>("a.b"),
        Err(DynamicError::NotAMessage("a".to_string()))
    );
    assert_eq!(
        m.get::<String>("a"),
        Err(DynamicError::TypeMismatch {
            path: "a".to_string(),
            expected: "alloc::string::String".to_string()
        })
    );
    assert_eq!(
        m.get_by_index::<bool>(1),
        Err(DynamicError::TypeMismatch {
            path: "[1]".to_string(),
            expected: "bool".to_string()
        })
    );
    assert_eq!(m.get_by_index::<i16>(10), Err(DynamicError::IndexOutOfBounds(10)));
    m.set_by_index(1, 5i16).unwrap();
    assert_eq!(m.get_by_index::<i16>(1).unwrap(), 5);
    assert_eq!(m.get_dynamic_by_index(1), Ok(&DynamicValue::Int16(5)));
    let before = m.clone();
    assert_eq!(
        m.set("name", "abcdef"),
        Err(DynamicError::FieldBoundExceeded {
            path: "name".to_string(),
            max: 5,
            actual: 6
        })
    );
    assert_eq!(
        m.set("name", "a\0b"),
        Err(DynamicError::InvalidString {
            path: "name".to_string(),
            reason: "contains an embedded NUL byte".to_string()
        })
    );
    assert_eq!(
        m.set("point.tag", 5i16),
        Err(DynamicError::TypeMismatch {
            path: "point.tag".to_string(),
            expected: "int8".to_string()
        })
    );
    assert_eq!(
        m.set("flag.x", true),
        Err(DynamicError::NotAMessage("flag".to_string()))
    );
    assert_eq!(before, m);
    let deep = vec!["a"; 130].join(".");
    assert_eq!(
        m.get_dynamic(&deep),
        Err(DynamicError::ResourceLimitExceeded(
            "field path exceeds 128 nested levels".to_string()
        ))
    );
    m.values_mut().pop();
    assert_eq!(
        m.get::<bool>("flag"),
        Err(DynamicError::WrongArrayLength {
            path: "$".to_string(),
            expected: 10,
            actual: 9
        })
    );
    assert!(validate_message(&m).is_err());
}

#[test]
fn the_path_of_an_element_names_its_index() {
    let t = FieldType::Sequence(Box::new(FieldType::Array(Box::new(FieldType::Int8), 2)));
    let bad = DynamicValue::Array(vec![
        DynamicValue::Array(vec![DynamicValue::Int8(1), DynamicValue::Int8(2)]),
        DynamicValue::Array(vec![DynamicValue::Int8(1), DynamicValue::Bool(true)]),
    ]);
    assert_eq!(
        validate_value(&t, &bad, "f"),
        Err(DynamicError::TypeMismatch {
            path: "f[1][1]".to_string(),
            expected: "int8".to_string()
        })
    );
    assert_eq!(
        validate_value(&t, &DynamicValue::Array(vec![DynamicValue::Array(vec![])]), "f"),
        Err(DynamicError::WrongArrayLength {
            path: "f[0]".to_string(),
            expected: 2,
            actual: 0
        })
    );
}

#[test]
fn a_builder_fills_unset_fields_with_defaults() {
    let schema = everything();
    let m = DynamicMessage::builder(&schema)
        .set("b", 3i32)
        .unwrap()
        .set_by_index(0, true)
        .unwrap()
        .build();
    assert_eq!(m.get::<i32>("b").unwrap(), 3);
    assert_eq!(m.get::<bool>("flag").unwrap(), true);
    assert_eq!(m.get::<u32>("n").unwrap(), 7);
    assert_eq!(m.get::<String>("name").unwrap(), "");
    assert!(matches!(
        DynamicMessage::builder(&schema).set("q", 1u8),
        Err(DynamicError::FieldNotFound(_))
    ));
    assert!(matches!(
        DynamicMessage::builder(&schema).set_by_index(99, 1u8),
        Err(DynamicError::IndexOutOfBounds(99))
    ));
    assert!(validate_message(&m).is_ok());
}

#[test]
fn setting_by_index_is_setting_by_name() {
    let schema = everything();
    for i in 0..schema.fields.len() {
        let name = &schema.fields[i].name;
        let (mut by_index, mut by_name) = (DynamicMessage::new(&schema), DynamicMessage::new(&schema));
        assert_eq!(by_index.set_by_index(i, 5i16), by_name.set(name, 5i16));
        assert_eq!(by_index, by_name);
        let built = |r: Result<DynamicMessageBuilder, DynamicError>| r.map(|b| b.build());
        assert_eq!(
            built(DynamicMessage::builder(&schema).set_by_index(i, 5i16)),
            built(DynamicMessage::builder(&schema).set(name, 5i16))
        );
    }
}

fn limit(text: &str) -> DynamicError {
    DynamicError::ResourceLimitExceeded(text.to_string())
}

#[test]
fn the_first_error_on_the_way_is_reported() {
    let nesting = limit("nesting exceeds 128 levels");
    let values = limit("message contains more than 1000000 values");
    let check = |depth, remaining| {
        let mut budget = ValidationBudget { remaining };
        validate_value_inner(
            &FieldType::Bool,
            &DynamicValue::Int8(1),
            "x",
            depth,
            &mut budget,
        )
    };
    assert_eq!(check(129, 0), Err(nesting.clone()));
    assert_eq!(check(129, 5), Err(nesting));
    assert_eq!(check(128, 0), Err(values.clone()));
    assert!(matches!(check(128, 1), Err(DynamicError::TypeMismatch { .. })));
    let list = DynamicValue::Array(vec![DynamicValue::Bool(true), DynamicValue::Int8(1)]);
    let bools = FieldType::Sequence(Box::new(FieldType::Bool));
    let check = |remaining| {
        let mut budget = ValidationBudget { remaining };
        validate_value_inner(&bools, &list, "x", 0, &mut budget)
    };
    assert_eq!(check(2), Err(values));
    assert_eq!(
        check(3),
        Err(DynamicError::TypeMismatch {
            path: "x[1]".to_string(),
            expected: "bool".to_string()
        })
    );
}

#[test]
fn one_schema_is_known_at_sight_and_two_are_compared() {
    let compare = |a: &Arc<MessageSchema>, b: &Arc<MessageSchema>, remaining| {
        let mut budget = ValidationBudget { remaining };
        let r = schemas_match(a, b, 0, &mut budget);
        (r, budget.remaining)
    };
    let (one, twin) = (schema(FieldType::Bool), schema(FieldType::Bool));
    assert_eq!(compare(&one, &one, 1), (Ok(true), 0));
    assert_eq!(
        compare(&one, &twin, 1),
        (Err(limit("message contains more than 1000000 values")), 0)
    );
    assert_eq!(compare(&one, &twin, 5), (Ok(true), 3));
    assert_eq!(compare(&one, &schema(FieldType::Int8), 5), (Ok(false), 3));
}

#[test]
fn a_path_of_too_many_components_is_refused_as_such() {
    let schema = everything();
    let mut m = DynamicMessage::new(&schema);
    m.values_mut().pop();
    let deep = vec!["a"; 130].join(".");
    assert_eq!(
        m.set(&deep, true),
        Err(limit("field path exceeds 128 nested levels"))
    );
    let mut m = DynamicMessage::new(&schema);
    assert_eq!(m.set_by_index(10, true), Err(DynamicError::IndexOutOfBounds(10)));
    assert_eq!(m, DynamicMessage::new(&schema));
}

#[test]
fn a_failed_load_leaves_its_type_unregistered() {
    let mut r = SchemaRegistry::new();
    let files = vec![
        file(
            "a",
            "Outer",
            vec![
                field("good", "Inner", Some("b"), ArrayType::Single),
                field("me", "Outer", Some("a"), ArrayType::Single),
            ],
        ),
        file("b", "Inner", vec![field("v", "bool", None, ArrayType::Single)]),
    ];
    assert!(matches!(
        load_schema("a/msg/Outer", &files, &mut r),
        LoadStep::NotFound
    ));
    assert!(!r.contains("a/msg/Outer"));
    assert!(r.contains("b/msg/Inner"));
}

#[test]
fn search_paths_are_cut_at_colons() {
    assert_eq!(
        search_path_entries(" /opt/ros/share :: /home/me\u{3000}:\t:x y"),
        vec!["/opt/ros/share", "/home/me", "x y"]
    );
    assert!(search_path_entries("").is_empty());
}

#[test]
fn a_store_below_leaves_its_neighbours() {
    let schema = everything();
    let mut m = DynamicMessage::new(&schema);
    m.set("point.tag", 3i8).unwrap();
    let before = m.get_dynamic("point").unwrap();
    m.set("a", 5i16).unwrap();
    assert_eq!(m.get_dynamic("point").unwrap(), before);
    m.set("point.tag", 4i8).unwrap();
    assert_eq!(m.get::<i16>("a").unwrap(), 5);
}

#[test]
fn values_are_equal_as_numbers_are() {
    let single = |x: f32| DynamicValue::Float32(x.to_bits());
    let double = |x: f64| DynamicValue::Float64(x.to_bits());
    assert_eq!(single(0.0), single(-0.0));
    assert_ne!(single(f32::NAN), single(f32::NAN));
    assert_eq!(single(f32::INFINITY), single(f32::INFINITY));
    assert_ne!(single(f32::INFINITY), single(f32::NEG_INFINITY));
    assert_eq!(double(0.0), double(-0.0));
    assert_ne!(double(-f64::NAN), double(-f64::NAN));
    assert_ne!(double(1.0), double(-1.0));
    assert_ne!(single(1.0), DynamicValue::Uint32(1.0f32.to_bits()));
    let list = |x: f64| DynamicValue::Array(vec![double(1.5), double(x)]);
    assert!(values_equal(&list(0.0), &list(-0.0)));
    assert!(!values_equal(&list(f64::NAN), &list(f64::NAN)));
    assert!(!values_equal(&list(0.0), &DynamicValue::Array(vec![])));
    let s = everything();
    assert!(messages_equal(&DynamicMessage::new(&s), &DynamicMessage::new(&s)));
    assert!(!messages_equal(
        &DynamicMessage::new(&s),
        &DynamicMessage::new(&everything())
    ));
}

#[test]
fn a_schema_needs_a_name_of_three_parts() {
    assert_eq!(
        MessageSchema::builder("NoPackage").build(),
        Err(DynamicError::InvalidTypeName("NoPackage".to_string()))
    );
}

#[test]
fn a_registry_lists_what_was_registered() {
    let mut r = SchemaRegistry::new();
    assert!(r.is_empty());
    let s = register_schema(&mut r, schema(FieldType::Bool));
    let again = r.register(schema(FieldType::Int8));
    r.register(everything());
    assert_eq!(r.len(), 2);
    assert_eq!(r.type_names(), &vec!["test_msgs/msg/Wide".to_string(), "test_msgs/msg/All".to_string()]);
    assert!(Arc::ptr_eq(&r.get("test_msgs/msg/Wide").unwrap(), &again));
    assert!(!Arc::ptr_eq(&s, &again));
    for name in r.type_names() {
        assert_eq!(&r.get(name).unwrap().full_name, name);
    }
    assert!(has_schema(&r, "test_msgs/msg/All"));
    assert!(r.contains("test_msgs/msg/All"));
    assert!(get_schema(&r, "x/msg/Y").is_none());
    r.clear();
    assert_eq!(SchemaRegistry::default().len(), r.len());
}

fn field(name: &str, base: &str, package: Option<&str>, array: ArrayType) -> ParsedField {
    ParsedField {
        name: name.to_string(),
        field_type: ParsedFieldType {
            base_type: base.to_string(),
            package: package.map(|p| p.to_string()),
            array,
        },
    }
}

fn file(package: &str, name: &str, fields: Vec<ParsedField>) -> KnownFile {
    KnownFile {
        package: package.to_string(),
        name: name.to_string(),
        file: MsgFile::Parsed(ParsedMessage {
            package: package.to_string(),
            name: name.to_string(),
            fields,
        }),
    }
}

#[test]
fn loading_asks_for_each_file_and_registers_nested_types() {
    let mut r = SchemaRegistry::new();
    let mut files = vec![];
    match load_schema("a/msg/Outer", &files, &mut r) {
        LoadStep::NeedFile { package, name } => assert_eq!((package, name), ("a".into(), "Outer".into())),
        other => panic!("{other:?}"),
    }
    files.push(file(
        "a",
        "Outer",
        vec![
            field("n", "string<=12", None, ArrayType::Bounded(3)),
            field("inner", "Inner", Some("b"), ArrayType::Single),
            field("xs", "float64", None, ArrayType::Fixed(2)),
        ],
    ));
    match load_schema("a/msg/Outer", &files, &mut r) {
        LoadStep::NeedFile { package, name } => assert_eq!((package, name), ("b".into(), "Inner".into())),
        other => panic!("{other:?}"),
    }
    files.push(file("b", "Inner", vec![field("v", "byte", None, ArrayType::Unbounded)]));
    match load_schema("a/msg/Outer", &files, &mut r) {
        LoadStep::Loaded(s) => {
            assert_eq!(s.full_name, "a/msg/Outer");
            assert_eq!(
                s.fields[0].field_type,
                FieldType::BoundedSequence(Box::new(FieldType::BoundedString(12)), 3)
            );
            assert_eq!(
                s.fields[2].field_type,
                FieldType::Array(Box::new(FieldType::Float64), 2)
            );
            match &s.fields[1].field_type {
                FieldType::Message(inner) => {
                    assert!(Arc::ptr_eq(inner, &r.get("b/msg/Inner").unwrap()));
                    assert_eq!(
                        inner.fields[0].field_type,
                        FieldType::Sequence(Box::new(FieldType::Int8))
                    );
                }
                other => panic!("{other:?}"),
            }
        }
        other => panic!("{other:?}"),
    }
    assert!(r.contains("a/msg/Outer"));
    match load_schema("b/Inner", &files, &mut r) {
        LoadStep::Loaded(s) => {
            assert_eq!(s.full_name, "b/msg/Inner");
            assert!(Arc::ptr_eq(&s, &r.get("b/msg/Inner").unwrap()));
        }
        other => panic!("{other:?}"),
    }
}

#[test]
fn cycles_and_broken_files_are_not_found() {
    let mut r = SchemaRegistry::new();
    let mut files = vec![file(
        "a",
        "Loop",
        vec![field("me", "Loop", Some("a"), ArrayType::Single)],
    )];
    assert!(matches!(load_schema("a/Loop", &files, &mut r), LoadStep::NotFound));
    files.push(KnownFile {
        package: "a".to_string(),
        name: "Bad".to_string(),
        file: MsgFile::Broken,
    });
    files.push(KnownFile {
        package: "a".to_string(),
        name: "None".to_string(),
        file: MsgFile::Missing,
    });
    assert!(matches!(load_schema("a/msg/Bad", &files, &mut r), LoadStep::NotFound));
    assert!(matches!(load_schema("a/msg/None", &files, &mut r), LoadStep::NotFound));
    assert!(matches!(load_schema("nonsense", &files, &mut r), LoadStep::NotFound));
    assert!(r.is_empty());
    assert_eq!(split_msg_type("p/srv/N"), None);
    assert_eq!(split_msg_type("p/N"), Some(("p".to_string(), "N".to_string())));
}

#[test]
fn a_field_without_a_known_type_is_an_error() {
    let msg = ParsedMessage {
        package: "p".to_string(),
        name: "M".to_string(),
        fields: vec![field("f", "Other", None, ArrayType::Single)],
    };
    assert_eq!(
        parsed_message_to_schema(&msg, &vec![None]),
        Err(DynamicError::InvalidTypeName("Other".to_string()))
    );
    let msg = ParsedMessage {
        package: "p".to_string(),
        name: "M".to_string(),
        fields: vec![field("f", "Other", Some("q"), ArrayType::Single)],
    };
    assert_eq!(
        parsed_message_to_schema(&msg, &vec![None]),
        Err(DynamicError::SchemaNotFound("q/msg/Other".to_string()))
    );
}

#[test]
fn a_file_is_looked_for_below_its_package_first() {
    let entries = vec![
        SearchEntry { path: "/opt/share".to_string(), base_name: Some("share".to_string()) },
        SearchEntry { path: "/ws/pkg".to_string(), base_name: Some("pkg".to_string()) },
    ];
    let places: Vec<String> = msg_file_places(&entries, "pkg", "Status")
        .iter()
        .map(|p| p.join("/"))
        .collect();
    assert_eq!(
        places,
        vec![
            "/opt/share/pkg/msg/Status.msg",
            "/ws/pkg/pkg/msg/Status.msg",
            "/ws/pkg/msg/Status.msg"
        ]
    );
}

#[test]
fn type_names_of_the_graph() {
    let s = schema(FieldType::Bool);
    assert_eq!(dds_type_name_from_schema(&s), "test_msgs::msg::dds_::Wide_");
    assert_eq!(ros_type_name_from_dds("std_msgs::msg::dds_::String_"), "std_msgs/msg/String");
    assert_eq!(ros_type_name_from_dds("std_msgs::msg::String"), "std_msgs/msg/String");
    assert_eq!(ros_type_name_from_dds("std_msgs/msg/String"), "std_msgs/msg/String");
    let digits: String = (0..32).map(|i| format!("{i:02x}")).collect();
    let rihs = format!("RIHS01_{digits}");
    let h = TypeHash::from_rihs_string(&rihs).unwrap();
    assert_eq!(h.version, 1);
    assert_eq!(h.value[31], 31);
    assert_eq!(schema_hash(None), TypeHash::zero());
    assert_eq!(schema_hash(Some("RIHS01_zz")), TypeHash::zero());
    assert_eq!(schema_type_info(&s, Some(&rihs)).hash, h);
    assert_eq!(schema_type_info_with_hash(&s, "nothing").hash, TypeHash::zero());
    assert_eq!(schema_type_info_with_hash(&s, &rihs).name, "test_msgs::msg::dds_::Wide_");
}
