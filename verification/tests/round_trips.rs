use antelope_rs::abi::{Abi, AbiField, AbiStruct, AbiTypeDef, AbiVariant};
use antelope_rs::decode::{decode, decode_at};
use antelope_rs::encode::encode;
use antelope_rs::value::{SemanticKind, Value};

fn s(text: &str) -> String {
    text.to_string()
}

fn field(name: &str, ty: &str) -> AbiField {
    AbiField { name: s(name), ty: s(ty) }
}

fn schema() -> Abi {
    Abi {
        version: s("eosio::abi/1.2"),
        types: vec![
            AbiTypeDef { new_type_name: s("amounts"), ty: s("int64[]") },
            AbiTypeDef { new_type_name: s("maybe_text"), ty: s("string?") },
        ],
        structs: vec![
            AbiStruct { name: s("header"), base: None, fields: vec![field("id", "uint32")] },
            AbiStruct {
                name: s("transfer"),
                base: Some(s("header")),
                fields: vec![
                    field("from", "name"),
                    field("amounts", "amounts"),
                    field("note", "maybe_text"),
                    field("what", "payload"),
                    field("flags", "bool[]"),
                    field("extra", "uint16$"),
                ],
            },
            AbiStruct { name: s("empty"), base: None, fields: vec![] },
        ],
        variants: vec![AbiVariant {
            name: s("payload"),
            types: vec![s("bytes"), s("header"), s("float64")],
        }],
        actions: vec![],
        tables: vec![],
    }
}

fn entries(pairs: Vec<(&str, Value)>) -> Value {
    Value::Struct(pairs.into_iter().map(|(k, v)| (s(k), v)).collect())
}

fn transfer(note: Value, what: Value, extra: Value) -> Value {
    entries(vec![
        ("id", Value::Uint32(77)),
        ("from", Value::Semantic(SemanticKind::Name, vec![0, 0, 0, 0, 0, 0xea, 0x30, 0x55])),
        ("amounts", Value::Array(vec![Value::Int64(-1), Value::Int64(1 << 40)])),
        ("note", note),
        ("what", what),
        ("flags", Value::Array(vec![Value::Bool(true), Value::Bool(false)])),
        ("extra", extra),
    ])
}

fn there_and_back(value: Value) -> Vec<u8> {
    let abi = schema();
    let bytes = encode(&abi, "transfer", &value).unwrap();
    assert_eq!(decode(&abi, "transfer", &bytes), Ok(value));
    let (again, next) = decode_at(&abi, "transfer", &bytes, 0).unwrap();
    assert_eq!(next, bytes.len());
    assert_eq!(encode(&abi, "transfer", &again), Ok(bytes.clone()));
    bytes
}

#[test]
fn round_trip_with_everything_present() {
    let bytes = there_and_back(transfer(
        Value::String(s("hi")),
        Value::Array(vec![Value::String(s("bytes")), Value::Bytes(vec![1, 2, 3])]),
        Value::Uint16(9),
    ));
    let mut expected: Vec<u8> = vec![77, 0, 0, 0];
    expected.extend([0, 0, 0, 0, 0, 0xea, 0x30, 0x55]);
    expected.push(2);
    expected.extend((-1i64).to_le_bytes());
    expected.extend((1i64 << 40).to_le_bytes());
    expected.extend([1, 2, b'h', b'i']);
    expected.extend([0, 3, 1, 2, 3]);
    expected.extend([2, 1, 0]);
    expected.extend([9, 0]);
    assert_eq!(bytes, expected);
}

#[test]
fn round_trip_with_optional_and_extension_absent() {
    let bytes = there_and_back(transfer(
        Value::Null,
        Value::Array(vec![Value::String(s("float64")), Value::Float64(2.5f64.to_bits())]),
        Value::Null,
    ));
    assert_eq!(bytes.len(), 4 + 8 + 17 + 1 + 9 + 3);
}

#[test]
fn round_trip_with_nested_struct_in_variant() {
    there_and_back(transfer(
        Value::String(String::new()),
        Value::Array(vec![Value::String(s("header")), entries(vec![("id", Value::Uint32(5))])]),
        Value::Uint16(0),
    ));
}

#[test]
fn round_trip_of_array_of_empty_structs() {
    let abi = schema();
    let value = Value::Array(vec![entries(vec![]), entries(vec![]), entries(vec![])]);
    let bytes = encode(&abi, "empty[]", &value).unwrap();
    assert_eq!(bytes, vec![3]);
    assert_eq!(decode(&abi, "empty[]", &bytes), Ok(value));
}

#[test]
fn struct_with_entries_out_of_order_decodes_in_declared_order() {
    let abi = schema();
    let shuffled = entries(vec![("id", Value::Uint32(1)), ("unused", Value::Null)]);
    let bytes = encode(&abi, "header", &shuffled).unwrap();
    assert_eq!(bytes, vec![1, 0, 0, 0]);
    assert_eq!(decode(&abi, "header", &bytes), Ok(entries(vec![("id", Value::Uint32(1))])));
}

#[test]
fn count_in_more_bytes_than_needed_is_not_written_back() {
    let abi = schema();
    let value = decode(&abi, "bool[]", &[0x81, 0x00, 1]).unwrap();
    assert_eq!(value, Value::Array(vec![Value::Bool(true)]));
    assert_eq!(encode(&abi, "bool[]", &value), Ok(vec![1, 1]));
}

#[test]
fn present_optional_that_holds_null_is_not_written_back() {
    let abi = Abi {
        version: String::new(),
        types: vec![AbiTypeDef { new_type_name: s("inner"), ty: s("uint8?") }],
        structs: vec![],
        variants: vec![],
        actions: vec![],
        tables: vec![],
    };
    assert_eq!(decode(&abi, "inner?", &[1, 0]), Ok(Value::Null));
    assert_eq!(encode(&abi, "inner?", &Value::Null), Ok(vec![0]));
}

#[test]
fn extension_before_the_end_is_read_from_what_follows() {
    let abi = Abi {
        version: String::new(),
        types: vec![],
        structs: vec![AbiStruct {
            name: s("odd"),
            base: None,
            fields: vec![field("x", "uint8$"), field("y", "uint8")],
        }],
        variants: vec![],
        actions: vec![],
        tables: vec![],
    };
    let value = entries(vec![("x", Value::Null), ("y", Value::Uint8(4))]);
    let bytes = encode(&abi, "odd", &value).unwrap();
    assert_eq!(bytes, vec![4]);
    assert!(decode(&abi, "odd", &bytes).is_err());
}

#[test]
fn fuel_is_bytes_times_named_types() {
    let abi = schema();
    assert_eq!(antelope_rs::decode::fuel_for(&abi, 0), 5);
    assert_eq!(antelope_rs::decode::fuel_for(&abi, 3), 20);
    assert_eq!(antelope_rs::decode::fuel_for(&abi, usize::MAX), usize::MAX);
}

#[test]
fn long_chain_of_optional_structs_decodes() {
    let abi = Abi {
        version: String::new(),
        types: vec![],
        structs: vec![AbiStruct {
            name: s("node"),
            base: None,
            fields: vec![field("v", "uint8"), field("next", "node?")],
        }],
        variants: vec![],
        actions: vec![],
        tables: vec![],
    };
    let mut value = entries(vec![("v", Value::Uint8(0)), ("next", Value::Null)]);
    for i in 1..60u8 {
        value = entries(vec![("v", Value::Uint8(i)), ("next", value)]);
    }
    let bytes = encode(&abi, "node", &value).unwrap();
    assert_eq!(bytes.len(), 120);
    assert_eq!(decode(&abi, "node", &bytes), Ok(value));
}
