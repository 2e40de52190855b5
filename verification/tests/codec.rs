use antelope_rs::abi::{Abi, AbiField, AbiStruct, AbiTypeDef, AbiVariant};
use antelope_rs::decode::{decode, decode_abi_type, Decoder};
use antelope_rs::encode::{encode, encode_abi_type, encode_params};
use antelope_rs::error::{CodecError, VariantTag};
use antelope_rs::resolve::ResolvedType;
use antelope_rs::value::{SemanticKind, Value, ValueKind};

fn s(text: &str) -> String {
    text.to_string()
}

fn field(name: &str, ty: &str) -> AbiField {
    AbiField { name: s(name), ty: s(ty) }
}

fn strukt(name: &str, base: Option<&str>, fields: Vec<AbiField>) -> AbiStruct {
    AbiStruct { name: s(name), base: base.map(s), fields }
}

fn variant(name: &str, types: &[&str]) -> AbiVariant {
    AbiVariant { name: s(name), types: types.iter().map(|t| s(t)).collect() }
}

fn alias(new_type_name: &str, ty: &str) -> AbiTypeDef {
    AbiTypeDef { new_type_name: s(new_type_name), ty: s(ty) }
}

fn schema(types: Vec<AbiTypeDef>, structs: Vec<AbiStruct>, variants: Vec<AbiVariant>) -> Abi {
    Abi { version: s("eosio::abi/1.2"), types, structs, variants, actions: vec![], tables: vec![] }
}

fn entries(pairs: Vec<(&str, Value)>) -> Value {
    Value::Struct(pairs.into_iter().map(|(k, v)| (s(k), v)).collect())
}

fn text(t: &str) -> Value {
    Value::String(s(t))
}

#[test]
fn optional_null_is_one_zero_byte() {
    let abi = schema(vec![], vec![], vec![]);
    assert_eq!(encode(&abi, "uint16?", &Value::Null), Ok(vec![0]));
}

#[test]
fn optional_present_is_one_then_value() {
    let abi = schema(vec![], vec![], vec![]);
    assert_eq!(encode(&abi, "uint16?", &Value::Uint16(0x0102)), Ok(vec![1, 2, 1]));
    assert_eq!(decode(&abi, "uint16?", &[1, 2, 1]), Ok(Value::Uint16(0x0102)));
    assert_eq!(decode(&abi, "uint16?", &[0]), Ok(Value::Null));
}

#[test]
fn optional_flag_other_than_zero_or_one_is_malformed() {
    let abi = schema(vec![], vec![], vec![]);
    assert_eq!(
        decode(&abi, "uint8?", &[2, 7]),
        Err(CodecError::MalformedOptionalFlag { flag: 2, offset: 0 })
    );
}

#[test]
fn array_is_count_then_items() {
    let abi = schema(vec![], vec![], vec![]);
    let v = Value::Array(vec![Value::Uint8(7), Value::Uint8(8), Value::Uint8(9)]);
    assert_eq!(encode(&abi, "uint8[]", &v), Ok(vec![3, 7, 8, 9]));
    assert_eq!(decode(&abi, "uint8[]", &[3, 7, 8, 9]), Ok(v));
}

#[test]
fn array_count_of_200_takes_two_bytes() {
    let abi = schema(vec![], vec![], vec![]);
    let v = Value::Array((0..200).map(|_| Value::Bool(true)).collect());
    let bytes = encode(&abi, "bool[]", &v).unwrap();
    assert_eq!(bytes.len(), 202);
    assert_eq!(&bytes[..2], &[0xc8, 0x01]);
    assert_eq!(decode(&abi, "bool[]", &bytes), Ok(v));
}

#[test]
fn array_wants_an_array_value() {
    let abi = schema(vec![], vec![], vec![]);
    assert_eq!(
        encode(&abi, "uint8[]", &Value::Uint8(1)),
        Err(CodecError::WrongValueKindForType { expected: s("[]"), actual: ValueKind::Uint8 })
    );
}

#[test]
fn variant_tag_is_position_of_member() {
    let abi = schema(vec![], vec![], vec![variant("v", &["int64", "string"])]);
    let v = Value::Array(vec![text("string"), text("hello")]);
    let bytes = encode(&abi, "v", &v).unwrap();
    assert_eq!(bytes, vec![1, 5, b'h', b'e', b'l', b'l', b'o']);
    assert_eq!(decode(&abi, "v", &bytes), Ok(v));
}

#[test]
fn variant_first_member() {
    let abi = schema(vec![], vec![], vec![variant("v", &["int64", "string"])]);
    let v = Value::Array(vec![text("int64"), Value::Int64(-2)]);
    let bytes = encode(&abi, "v", &v).unwrap();
    assert_eq!(bytes, vec![0, 0xfe, 0xff, 0xff, 0xff, 0xff, 0xff, 0xff, 0xff]);
    assert_eq!(decode(&abi, "v", &bytes), Ok(v));
}

#[test]
fn variant_unknown_member_name_fails() {
    let abi = schema(vec![], vec![], vec![variant("v", &["int64", "string"])]);
    let v = Value::Array(vec![text("bool"), Value::Bool(true)]);
    assert_eq!(
        encode(&abi, "v", &v),
        Err(CodecError::VariantTagOutOfRange { variant: s("v"), tag: VariantTag::Name(s("bool")) })
    );
}

#[test]
fn variant_tag_index_out_of_range_fails() {
    let abi = schema(vec![], vec![], vec![variant("v", &["int64", "string"])]);
    assert_eq!(
        decode(&abi, "v", &[2, 0, 0]),
        Err(CodecError::VariantTagOutOfRange { variant: s("v"), tag: VariantTag::Index(2) })
    );
}

#[test]
fn variant_wants_a_pair() {
    let abi = schema(vec![], vec![], vec![variant("v", &["int64", "string"])]);
    let v = Value::Array(vec![text("int64")]);
    assert_eq!(
        encode(&abi, "v", &v),
        Err(CodecError::WrongValueKindForType { expected: s("v"), actual: ValueKind::Array })
    );
}

#[test]
fn struct_fields_in_declared_order() {
    let abi = schema(
        vec![],
        vec![strukt("pair", None, vec![field("a", "int8"), field("b", "string")])],
        vec![],
    );
    let declared = entries(vec![("a", Value::Int8(5)), ("b", text("x"))]);
    let reordered = entries(vec![("b", text("x")), ("a", Value::Int8(5))]);
    let manual = {
        let mut out = encode(&abi, "int8", &Value::Int8(5)).unwrap();
        out.extend(encode(&abi, "string", &text("x")).unwrap());
        out
    };
    assert_eq!(manual, vec![5, 1, b'x']);
    assert_eq!(encode(&abi, "pair", &declared), Ok(manual.clone()));
    assert_eq!(encode(&abi, "pair", &reordered), Ok(manual.clone()));
    assert_eq!(decode(&abi, "pair", &manual), Ok(declared));
}

#[test]
fn struct_missing_field_fails() {
    let abi = schema(
        vec![],
        vec![strukt("pair", None, vec![field("a", "int8"), field("b", "string")])],
        vec![],
    );
    let v = entries(vec![("a", Value::Int8(5))]);
    assert_eq!(encode(&abi, "pair", &v), Err(CodecError::MissingField { field: s("b") }));
}

#[test]
fn struct_base_fields_come_first() {
    let abi = schema(
        vec![],
        vec![
            strukt("root", None, vec![field("r", "uint8")]),
            strukt("mid", Some("root"), vec![field("m", "uint8")]),
            strukt("leaf", Some("mid"), vec![field("l", "uint8")]),
        ],
        vec![],
    );
    let v = entries(vec![
        ("l", Value::Uint8(3)),
        ("m", Value::Uint8(2)),
        ("r", Value::Uint8(1)),
    ]);
    assert_eq!(encode(&abi, "leaf", &v), Ok(vec![1, 2, 3]));
    assert_eq!(
        decode(&abi, "leaf", &[1, 2, 3]),
        Ok(entries(vec![
            ("r", Value::Uint8(1)),
            ("m", Value::Uint8(2)),
            ("l", Value::Uint8(3)),
        ]))
    );
}

#[test]
fn struct_cyclic_base_is_a_schema_fault() {
    let abi = schema(
        vec![],
        vec![
            strukt("a", Some("b"), vec![field("x", "uint8")]),
            strukt("b", Some("a"), vec![field("y", "uint8")]),
        ],
        vec![],
    );
    let v = entries(vec![("x", Value::Uint8(1)), ("y", Value::Uint8(2))]);
    assert!(matches!(encode(&abi, "a", &v), Err(CodecError::SchemaParseError { .. })));
}

#[test]
fn struct_unknown_base_is_unknown_type() {
    let abi = schema(vec![], vec![strukt("a", Some("nope"), vec![])], vec![]);
    assert_eq!(
        encode(&abi, "a", &entries(vec![])),
        Err(CodecError::UnknownType { ty: s("nope") })
    );
}

#[test]
fn resolve_nonexistent_type_fails() {
    let abi = schema(vec![], vec![], vec![]);
    assert_eq!(
        abi.resolve_type("nonexistent_type"),
        Err(CodecError::UnknownType { ty: s("nonexistent_type") })
    );
    assert_eq!(
        encode(&abi, "nonexistent_type", &Value::Null),
        Err(CodecError::UnknownType { ty: s("nonexistent_type") })
    );
    assert_eq!(
        decode(&abi, "nonexistent_type[]", &[1, 2]),
        Err(CodecError::UnknownType { ty: s("nonexistent_type") })
    );
}

#[test]
fn resolve_builds_the_tree_of_modifiers_and_aliases() {
    let abi = schema(
        vec![alias("id", "uint64"), alias("ids", "id[]")],
        vec![strukt("s", None, vec![])],
        vec![variant("v", &["id"])],
    );
    assert_eq!(abi.resolve_type("uint64"), Ok(ResolvedType::Standard(s("uint64"))));
    assert_eq!(
        abi.resolve_type("ids?"),
        Ok(ResolvedType::Optional(Box::new(ResolvedType::Alias(Box::new(ResolvedType::Array(
            Box::new(ResolvedType::Alias(Box::new(ResolvedType::Standard(s("uint64")))))
        ))))))
    );
    assert_eq!(
        abi.resolve_type("s$"),
        Ok(ResolvedType::Extension(Box::new(ResolvedType::Struct(strukt("s", None, vec![])))))
    );
    assert_eq!(abi.resolve_type("v"), Ok(ResolvedType::Variant(variant("v", &["id"]))));
}

#[test]
fn resolve_cyclic_alias_is_a_schema_fault() {
    let abi = schema(vec![alias("a", "b"), alias("b", "a")], vec![], vec![]);
    assert!(matches!(abi.resolve_type("a"), Err(CodecError::SchemaParseError { .. })));
}

#[test]
fn resolve_longest_alias_chain_succeeds() {
    let abi = schema(vec![alias("a", "b"), alias("b", "c"), alias("c", "bool")], vec![], vec![]);
    assert_eq!(
        abi.resolve_type("a"),
        Ok(ResolvedType::Alias(Box::new(ResolvedType::Alias(Box::new(ResolvedType::Alias(
            Box::new(ResolvedType::Standard(s("bool")))
        ))))))
    );
}

#[test]
fn decode_truncated_fixed_width() {
    let abi = schema(vec![], vec![], vec![]);
    assert_eq!(
        decode(&abi, "uint32", &[1, 2, 3]),
        Err(CodecError::DecodeTruncated { ty: s("uint32"), offset: 0 })
    );
    assert_eq!(
        decode(&abi, "uint64[]", &[1, 2, 3]),
        Err(CodecError::DecodeTruncated { ty: s("uint64"), offset: 1 })
    );
    assert_eq!(
        decode(&abi, "string", &[5, b'a']),
        Err(CodecError::DecodeTruncated { ty: s("string"), offset: 0 })
    );
    assert_eq!(
        decode(&abi, "bool?", &[]),
        Err(CodecError::DecodeTruncated { ty: s("?"), offset: 0 })
    );
}

#[test]
fn extension_at_end_of_input_is_null() {
    let abi = schema(
        vec![],
        vec![strukt("s", None, vec![field("a", "uint8"), field("x", "uint16$")])],
        vec![],
    );
    let data = [9u8];
    let mut decoder = Decoder::new(&data);
    let value = decode_abi_type(&abi, "s", &mut decoder).unwrap();
    assert_eq!(value, entries(vec![("a", Value::Uint8(9)), ("x", Value::Null)]));
    assert_eq!(decoder.get_pos(), 1);
    let short = encode(&abi, "s", &value).unwrap();
    assert_eq!(short, vec![9]);
    let present = entries(vec![("a", Value::Uint8(9)), ("x", Value::Uint16(1))]);
    let long = encode(&abi, "s", &present).unwrap();
    assert_eq!(long, vec![9, 1, 0]);
    assert!(short.len() < long.len());
    assert_eq!(decode(&abi, "s", &long), Ok(present));
}

#[test]
fn extension_alone_reads_nothing_from_empty_input() {
    let abi = schema(vec![], vec![], vec![]);
    let data: [u8; 0] = [];
    let mut decoder = Decoder::new(&data);
    assert_eq!(decode_abi_type(&abi, "uint64$", &mut decoder), Ok(Value::Null));
    assert_eq!(decoder.get_pos(), 0);
    assert_eq!(encode(&abi, "uint64$", &Value::Null), Ok(vec![]));
}

#[test]
fn encode_abi_type_appends_and_counts() {
    let abi = schema(vec![], vec![], vec![]);
    let mut sink = vec![0xaa];
    assert_eq!(encode_abi_type(&abi, "uint16", &Value::Uint16(0x0201), &mut sink), Ok(2));
    assert_eq!(sink, vec![0xaa, 1, 2]);
    assert_eq!(
        encode_abi_type(&abi, "uint16", &Value::Bool(true), &mut sink),
        Err(CodecError::WrongValueKindForType { expected: s("uint16"), actual: ValueKind::Bool })
    );
    assert_eq!(sink, vec![0xaa, 1, 2]);
}

#[test]
fn decoder_advances_over_successive_values() {
    let abi = schema(vec![], vec![], vec![]);
    let data = [1u8, 0, 2, 0, 0, 0, 3];
    let mut decoder = Decoder::new(&data);
    assert_eq!(decoder.get_size(), 7);
    assert_eq!(decode_abi_type(&abi, "uint16", &mut decoder), Ok(Value::Uint16(1)));
    assert_eq!(decode_abi_type(&abi, "uint32", &mut decoder), Ok(Value::Uint32(2)));
    assert_eq!(decoder.get_pos(), 6);
    assert_eq!(
        decode_abi_type(&abi, "uint16", &mut decoder),
        Err(CodecError::DecodeTruncated { ty: s("uint16"), offset: 6 })
    );
    assert_eq!(decoder.get_pos(), 6);
    assert_eq!(decode_abi_type(&abi, "uint8", &mut decoder), Ok(Value::Uint8(3)));
}

#[test]
fn encode_params_by_position() {
    let abi = schema(
        vec![],
        vec![strukt(
            "transfer",
            None,
            vec![field("from", "uint8"), field("to", "uint8"), field("memo", "string")],
        )],
        vec![],
    );
    let params = vec![Value::Uint8(1), Value::Uint8(2), text("hi")];
    assert_eq!(encode_params(&abi, "transfer", &params), Ok(vec![1, 2, 2, b'h', b'i']));
    assert_eq!(encode_params(&abi, "transfer", &params[..1].iter().map(|_| Value::Uint8(1)).collect()), Ok(vec![1]));
    assert_eq!(
        encode_params(&abi, "missing", &params),
        Err(CodecError::UnknownType { ty: s("missing") })
    );
    let too_many = vec![Value::Uint8(1), Value::Uint8(2), text("hi"), Value::Null];
    assert_eq!(
        encode_params(&abi, "transfer", &too_many),
        Err(CodecError::WrongValueKindForType {
            expected: s("transfer"),
            actual: ValueKind::Array
        })
    );
}

#[test]
fn recursive_struct_through_optional() {
    let abi = schema(
        vec![],
        vec![strukt("node", None, vec![field("v", "uint8"), field("next", "node?")])],
        vec![],
    );
    let list = entries(vec![
        ("v", Value::Uint8(1)),
        (
            "next",
            entries(vec![
                ("v", Value::Uint8(2)),
                ("next", entries(vec![("v", Value::Uint8(3)), ("next", Value::Null)])),
            ]),
        ),
    ]);
    let bytes = encode(&abi, "node", &list).unwrap();
    assert_eq!(bytes, vec![1, 1, 2, 1, 3, 0]);
    assert_eq!(decode(&abi, "node", &bytes), Ok(list));
}

#[test]
fn struct_that_contains_itself_is_a_schema_fault_on_decode() {
    let abi = schema(vec![], vec![strukt("loop", None, vec![field("again", "loop")])], vec![]);
    assert!(matches!(
        decode(&abi, "loop", &[1, 2, 3]),
        Err(CodecError::SchemaParseError { .. })
    ));
}

#[test]
fn semantic_value_is_written_as_it_is() {
    let abi = schema(vec![], vec![], vec![]);
    let name = Value::Semantic(SemanticKind::Name, vec![1, 2, 3, 4, 5, 6, 7, 8]);
    assert_eq!(encode(&abi, "name", &name), Ok(vec![1, 2, 3, 4, 5, 6, 7, 8]));
    assert_eq!(encode(&abi, "account_name", &name), Ok(vec![1, 2, 3, 4, 5, 6, 7, 8]));
    assert_eq!(decode(&abi, "name", &[1, 2, 3, 4, 5, 6, 7, 8]), Ok(name));
    let short = Value::Semantic(SemanticKind::Name, vec![1, 2, 3]);
    assert_eq!(
        encode(&abi, "name", &short),
        Err(CodecError::WrongValueKindForType { expected: s("name"), actual: ValueKind::Semantic })
    );
    let other = Value::Semantic(SemanticKind::Symbol, vec![1, 2, 3, 4, 5, 6, 7, 8]);
    assert_eq!(
        encode(&abi, "name", &other),
        Err(CodecError::WrongValueKindForType { expected: s("name"), actual: ValueKind::Semantic })
    );
}

#[test]
fn failures_say_what_went_wrong() {
    assert_eq!(
        CodecError::UnknownType { ty: s("nope") }.message(),
        "unknown type nope"
    );
    assert_eq!(
        CodecError::SchemaNotFound { account: s("eosio") }.message(),
        "no schema is loaded for eosio"
    );
    assert_eq!(
        CodecError::SchemaParseError { ty: s("a") }.message(),
        "the schema does not end at a"
    );
    assert_eq!(
        CodecError::WrongValueKindForType { expected: s("int8"), actual: ValueKind::Bytes }
            .message(),
        "the type int8 does not take a value of kind Bytes"
    );
    assert_eq!(CodecError::MissingField { field: s("memo") }.message(), "missing field memo");
    assert_eq!(
        CodecError::VariantTagOutOfRange { variant: s("v"), tag: VariantTag::Name(s("x")) }
            .message(),
        "the variant v has no member x"
    );
    assert_eq!(
        CodecError::VariantTagOutOfRange { variant: s("v"), tag: VariantTag::Index(12) }.message(),
        "the variant v has no member at 12"
    );
    assert_eq!(
        CodecError::MalformedOptionalFlag { flag: 200, offset: 1000 }.message(),
        "the optional flag 200 is neither 0 nor 1, at offset 1000"
    );
    assert_eq!(
        CodecError::DecodeTruncated { ty: s("uint64"), offset: 0 }.message(),
        "the input ends within a value of type uint64, at offset 0"
    );
    assert_eq!(
        CodecError::MalformedPrimitive { ty: s("string"), offset: 7 }.message(),
        "the bytes are no value of type string, at offset 7"
    );
    assert_eq!(
        CodecError::EncodeSizeMismatch { reported: 3, written: 4 }.message(),
        "the encoder reported 3 bytes and wrote 4"
    );
}

#[test]
fn values_can_be_copied() {
    let value = entries(vec![
        ("a", Value::Array(vec![Value::Int8(1), text("x"), Value::Bytes(vec![1, 2])])),
        ("b", Value::Semantic(SemanticKind::Name, vec![0; 8])),
        ("c", entries(vec![("d", Value::Null)])),
    ]);
    assert_eq!(value.clone(), value);
    assert_eq!(value.kind(), ValueKind::Struct);
    assert!(Value::Null.is_null());
    assert!(!value.is_null());
}
