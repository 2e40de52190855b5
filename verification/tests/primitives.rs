use antelope_rs::abi::Abi;
use antelope_rs::decode::decode;
use antelope_rs::encode::encode;
use antelope_rs::error::CodecError;
use antelope_rs::value::{Value, ValueKind};

fn empty() -> Abi {
    Abi {
        version: String::new(),
        types: vec![],
        structs: vec![],
        variants: vec![],
        actions: vec![],
        tables: vec![],
    }
}

fn both_ways(ty: &str, value: Value, bytes: Vec<u8>) {
    let abi = empty();
    assert_eq!(encode(&abi, ty, &value), Ok(bytes.clone()));
    assert_eq!(decode(&abi, ty, &bytes), Ok(value));
}

#[test]
fn bool_bytes() {
    both_ways("bool", Value::Bool(true), vec![1]);
    both_ways("bool", Value::Bool(false), vec![0]);
    assert_eq!(decode(&empty(), "bool", &[2]), Ok(Value::Bool(false)));
}

#[test]
fn unsigned_integers_little_endian() {
    both_ways("uint8", Value::Uint8(0xab), vec![0xab]);
    both_ways("uint16", Value::Uint16(0x1234), vec![0x34, 0x12]);
    both_ways("uint32", Value::Uint32(0x1234_5678), vec![0x78, 0x56, 0x34, 0x12]);
    both_ways(
        "uint64",
        Value::Uint64(0x0102_0304_0506_0708),
        vec![8, 7, 6, 5, 4, 3, 2, 1],
    );
    both_ways(
        "uint128",
        Value::Uint128(0x0102_0304_0506_0708_090a_0b0c_0d0e_0f10),
        vec![0x10, 0x0f, 0x0e, 0x0d, 0x0c, 0x0b, 0x0a, 9, 8, 7, 6, 5, 4, 3, 2, 1],
    );
    both_ways("uint64", Value::Uint64(u64::MAX), vec![0xff; 8]);
}

#[test]
fn signed_integers_twos_complement() {
    both_ways("int8", Value::Int8(-1), vec![0xff]);
    both_ways("int8", Value::Int8(i8::MIN), vec![0x80]);
    both_ways("int8", Value::Int8(i8::MAX), vec![0x7f]);
    both_ways("int16", Value::Int16(-2), vec![0xfe, 0xff]);
    both_ways("int16", Value::Int16(i16::MIN), vec![0x00, 0x80]);
    both_ways("int32", Value::Int32(-3), vec![0xfd, 0xff, 0xff, 0xff]);
    both_ways("int32", Value::Int32(i32::MAX), vec![0xff, 0xff, 0xff, 0x7f]);
    both_ways("int64", Value::Int64(-4), vec![0xfc, 0xff, 0xff, 0xff, 0xff, 0xff, 0xff, 0xff]);
    both_ways("int64", Value::Int64(i64::MIN), vec![0, 0, 0, 0, 0, 0, 0, 0x80]);
    both_ways("int128", Value::Int128(-1), vec![0xff; 16]);
    both_ways(
        "int128",
        Value::Int128(i128::MIN),
        vec![0, 0, 0, 0, 0, 0, 0, 0, 0, 0, 0, 0, 0, 0, 0, 0x80],
    );
    both_ways("int128", Value::Int128(5), vec![5, 0, 0, 0, 0, 0, 0, 0, 0, 0, 0, 0, 0, 0, 0, 0]);
}

#[test]
fn varuint32_bytes() {
    both_ways("varuint32", Value::Uint32(0), vec![0]);
    both_ways("varuint32", Value::Uint32(127), vec![0x7f]);
    both_ways("varuint32", Value::Uint32(128), vec![0x80, 0x01]);
    both_ways("varuint32", Value::Uint32(300), vec![0xac, 0x02]);
    both_ways("varuint32", Value::Uint32(16384), vec![0x80, 0x80, 0x01]);
    both_ways("varuint32", Value::Uint32(u32::MAX), vec![0xff, 0xff, 0xff, 0xff, 0x0f]);
}

#[test]
fn varuint32_malformed_or_truncated() {
    let abi = empty();
    assert_eq!(
        decode(&abi, "varuint32", &[0x80, 0x80, 0x80, 0x80, 0x80, 0x01]),
        Err(CodecError::MalformedPrimitive { ty: "varuint32".to_string(), offset: 0 })
    );
    assert_eq!(
        decode(&abi, "varuint32", &[0x80, 0x80]),
        Err(CodecError::DecodeTruncated { ty: "varuint32".to_string(), offset: 0 })
    );
    assert_eq!(
        decode(&abi, "varuint32", &[]),
        Err(CodecError::DecodeTruncated { ty: "varuint32".to_string(), offset: 0 })
    );
    assert_eq!(decode(&abi, "varuint32", &[0x80, 0x00]), Ok(Value::Uint32(0)));
}

#[test]
fn floats_by_their_bits() {
    both_ways("float32", Value::Float32(1.5f32.to_bits()), 1.5f32.to_le_bytes().to_vec());
    both_ways("float64", Value::Float64((-2.25f64).to_bits()), (-2.25f64).to_le_bytes().to_vec());
    both_ways("float32", Value::Float32(0x3fc0_0000), vec![0x00, 0x00, 0xc0, 0x3f]);
}

#[test]
fn bytes_and_strings_are_length_prefixed() {
    both_ways("bytes", Value::Bytes(vec![]), vec![0]);
    both_ways("bytes", Value::Bytes(vec![9, 8, 7]), vec![3, 9, 8, 7]);
    both_ways("string", Value::String(String::new()), vec![0]);
    both_ways("string", Value::String("héllo".to_string()), vec![6, b'h', 0xc3, 0xa9, b'l', b'l', b'o']);
    let long = "a".repeat(130);
    let mut expected = vec![0x82, 0x01];
    expected.extend(long.as_bytes());
    both_ways("string", Value::String(long), expected);
}

#[test]
fn string_that_is_not_utf8_is_malformed() {
    assert_eq!(
        decode(&empty(), "string", &[2, 0xff, 0xfe]),
        Err(CodecError::MalformedPrimitive { ty: "string".to_string(), offset: 0 })
    );
}

#[test]
fn wrong_value_kind_names_type_and_tag() {
    let abi = empty();
    assert_eq!(
        encode(&abi, "int64", &Value::String("7".to_string())),
        Err(CodecError::WrongValueKindForType {
            expected: "int64".to_string(),
            actual: ValueKind::String
        })
    );
    assert_eq!(
        encode(&abi, "int64", &Value::Int32(7)),
        Err(CodecError::WrongValueKindForType {
            expected: "int64".to_string(),
            actual: ValueKind::Int32
        })
    );
    assert_eq!(
        encode(&abi, "bytes", &Value::Null),
        Err(CodecError::WrongValueKindForType {
            expected: "bytes".to_string(),
            actual: ValueKind::Null
        })
    );
}
