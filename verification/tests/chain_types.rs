use antelope::chain::key_type::KeyType;
use antelope::chain::public_key::PublicKey;
use antelope::chain::signature::Signature;
use antelope::serializer::Encoder;
use antelope_rs::abi::Abi;
use antelope_rs::chain_text::{
    parse_asset, parse_extended_asset, parse_keyed, parse_name, parse_symbol, parse_symbol_code,
    Keyed,
};
use antelope_rs::decode::decode;
use antelope_rs::encode::encode;
use antelope_rs::error::CodecError;
use antelope_rs::value::{SemanticKind, Value, ValueKind};

fn empty() -> Abi {
    Abi {
        version: String::new(),
        types: vec![],
        structs: vec![],
        variants: vec![],
        actions: vec![],
        tables: vec![],
    }
}

fn text(t: &str) -> Value {
    Value::String(t.to_string())
}

fn refused(ty: &str, value: Value) {
    let kind = match &value {
        Value::String(_) => ValueKind::String,
        Value::Uint32(_) => ValueKind::Uint32,
        _ => ValueKind::Null,
    };
    assert_eq!(
        encode(&empty(), ty, &value),
        Err(CodecError::WrongValueKindForType { expected: ty.to_string(), actual: kind })
    );
}

#[test]
fn name_from_text() {
    assert_eq!(parse_name("eosio"), Some(0x5530_ea00_0000_0000));
    assert_eq!(parse_name(""), Some(0));
    assert_eq!(parse_name("eosio.token"), Some(0x5530_ea03_3482_a600));
    assert_eq!(
        encode(&empty(), "name", &text("eosio")),
        Ok(vec![0, 0, 0, 0, 0, 0xea, 0x30, 0x55])
    );
    assert_eq!(
        encode(&empty(), "account_name", &Value::Uint64(0x5530_ea00_0000_0000)),
        Ok(vec![0, 0, 0, 0, 0, 0xea, 0x30, 0x55])
    );
    assert_eq!(
        decode(&empty(), "name", &[0, 0, 0, 0, 0, 0xea, 0x30, 0x55]),
        Ok(Value::Semantic(SemanticKind::Name, vec![0, 0, 0, 0, 0, 0xea, 0x30, 0x55]))
    );
}

#[test]
fn name_text_that_is_no_name() {
    assert_eq!(parse_name("EOSIO"), None);
    assert_eq!(parse_name("eosio6"), None);
    assert_eq!(parse_name("abcdefghijklmn"), None);
    assert_eq!(parse_name("aaaaaaaaaaaak"), None);
    assert_eq!(parse_name("zzzzzzzzzzzzj"), None);
    assert_eq!(parse_name("é"), None);
    assert!(parse_name("aaaaaaaaaaaaj").is_some());
    assert!(parse_name("zzzzzzzzzzzzi").is_some());
    refused("name", text("Not A Name"));
}

#[test]
fn symbol_code_from_text() {
    assert_eq!(parse_symbol_code("EOS"), Some(0x53_4f_45));
    assert_eq!(parse_symbol_code(""), None);
    assert_eq!(parse_symbol_code("TOOLONG"), None);
    assert_eq!(parse_symbol_code("eos"), None);
    assert_eq!(
        encode(&empty(), "symbol_code", &text("EOS")),
        Ok(vec![b'E', b'O', b'S', 0, 0, 0, 0, 0])
    );
    refused("symbol_code", text("eos"));
}

#[test]
fn symbol_from_text() {
    assert_eq!(parse_symbol("4,EOS"), Some(0x53_4f_45_04));
    assert_eq!(parse_symbol("18,ABCDEF"), Some(0x46_45_44_43_42_41_12));
    assert_eq!(parse_symbol("0,A"), Some(0x41_00));
    assert_eq!(parse_symbol("19,EOS"), None);
    assert_eq!(parse_symbol(",EOS"), None);
    assert_eq!(parse_symbol("4EOS"), None);
    assert_eq!(parse_symbol("4,"), None);
    assert_eq!(parse_symbol("x,EOS"), None);
    assert_eq!(
        encode(&empty(), "symbol", &text("4,EOS")),
        Ok(vec![4, b'E', b'O', b'S', 0, 0, 0, 0])
    );
    refused("symbol", text("EOS"));
}

#[test]
fn asset_from_text() {
    assert_eq!(parse_asset("1.0000 EOS"), Some((10000, 0x53_4f_45_04)));
    assert_eq!(parse_asset("-1.5 SYS"), Some((-15, 0x53_59_53_01)));
    assert_eq!(parse_asset("7 A"), Some((7, 0x41_00)));
    assert_eq!(
        parse_asset("4611686018427387903 MAX"),
        Some((4611686018427387903, 0x58_41_4d_00))
    );
    assert_eq!(parse_asset("4611686018427387904 MAX"), None);
    assert_eq!(parse_asset("99999999999999999999999 MAX"), None);
    assert_eq!(parse_asset("1.0000000000000000000 EOS"), None);
    assert_eq!(parse_asset("1.0000EOS"), None);
    assert_eq!(parse_asset("1.00.00 EOS"), None);
    assert_eq!(parse_asset("1.0000 eos"), None);
    assert_eq!(parse_asset("1.0000 EOS "), None);
    assert_eq!(parse_asset("1.0000  EOS"), None);
    assert_eq!(parse_asset("--1 EOS"), None);
    assert_eq!(parse_asset(""), None);
    assert_eq!(parse_asset("-"), None);
    assert_eq!(
        encode(&empty(), "asset", &text("1.0000 EOS")),
        Ok(vec![0x10, 0x27, 0, 0, 0, 0, 0, 0, 4, b'E', b'O', b'S', 0, 0, 0, 0])
    );
    assert_eq!(
        encode(&empty(), "asset", &text("-0.0001 EOS")),
        Ok(vec![0xff, 0xff, 0xff, 0xff, 0xff, 0xff, 0xff, 0xff, 4, b'E', b'O', b'S', 0, 0, 0, 0])
    );
    refused("asset", text("one EOS"));
}

#[test]
fn asset_decodes_to_its_binary_form() {
    let bytes = vec![0x10, 0x27, 0, 0, 0, 0, 0, 0, 4, b'E', b'O', b'S', 0, 0, 0, 0];
    let value = decode(&empty(), "asset", &bytes).unwrap();
    assert_eq!(value, Value::Semantic(SemanticKind::Asset, bytes.clone()));
    assert_eq!(encode(&empty(), "asset", &value), Ok(bytes));
}

#[test]
fn extended_asset_from_text() {
    assert_eq!(
        parse_extended_asset("1.0000 EOS@eosio.token"),
        Some((10000, 0x53_4f_45_04, 0x5530_ea03_3482_a600))
    );
    assert_eq!(parse_extended_asset("1.0000 EOS"), None);
    assert_eq!(parse_extended_asset("1.0000 EOS@EOSIO"), None);
    assert_eq!(parse_extended_asset("@eosio"), None);
    assert_eq!(
        encode(&empty(), "extended_asset", &text("1.0000 EOS@eosio.token")),
        Ok(vec![
            0x10, 0x27, 0, 0, 0, 0, 0, 0, 4, b'E', b'O', b'S', 0, 0, 0, 0, 0x00, 0xa6, 0x82, 0x34,
            0x03, 0xea, 0x30, 0x55
        ])
    );
}

#[test]
fn checksum_hex_both_ways() {
    let hex160 = "0123456789abcdef0123456789abcdef01234567";
    let bytes: Vec<u8> = vec![
        0x01, 0x23, 0x45, 0x67, 0x89, 0xab, 0xcd, 0xef, 0x01, 0x23, 0x45, 0x67, 0x89, 0xab, 0xcd,
        0xef, 0x01, 0x23, 0x45, 0x67,
    ];
    assert_eq!(encode(&empty(), "checksum160", &text(hex160)), Ok(bytes.clone()));
    assert_eq!(encode(&empty(), "rd160", &text(&hex160.to_uppercase())), Ok(bytes.clone()));
    assert_eq!(decode(&empty(), "checksum160", &bytes), Ok(text(hex160)));
    let hex256 = "ff".repeat(32);
    assert_eq!(encode(&empty(), "sha256", &text(&hex256)), Ok(vec![0xff; 32]));
    assert_eq!(decode(&empty(), "checksum256", &[0xff; 32]), Ok(text(&hex256)));
    let hex512 = "0a".repeat(64);
    assert_eq!(encode(&empty(), "checksum512", &text(&hex512)), Ok(vec![0x0a; 64]));
    assert_eq!(decode(&empty(), "checksum512", &[0x0a; 64]), Ok(text(&hex512)));
    refused("checksum256", text(hex160));
    refused("checksum160", text("zz23456789abcdef0123456789abcdef01234567"));
    refused("checksum160", text("123"));
    assert_eq!(
        encode(
            &empty(),
            "checksum160",
            &Value::Semantic(SemanticKind::Checksum160, bytes.clone())
        ),
        Ok(bytes)
    );
}

#[test]
fn public_key_text_both_ways() {
    let legacy = "EOS6MRyAjQq8ud7hVNYcfnVPJqcVpscN5So8BhtHuGYqET5GDW5CV";
    let modern = "PUB_K1_6MRyAjQq8ud7hVNYcfnVPJqcVpscN5So8BhtHuGYqET5BoDq63";
    let expected = Encoder::pack(&PublicKey::new_from_str(modern).unwrap());
    assert_eq!(expected.len(), 34);
    assert_eq!(expected[0], 0);
    assert_eq!(
        &expected[1..5],
        &[0x02, 0xc0, 0xde, 0xd2]
    );
    assert_eq!(encode(&empty(), "public_key", &text(modern)), Ok(expected.clone()));
    assert_eq!(encode(&empty(), "public_key", &text(legacy)), Ok(expected.clone()));
    assert_eq!(parse_keyed(Keyed::PublicKey, modern), Some(expected.clone()));
    assert_eq!(decode(&empty(), "public_key", &expected), Ok(text(modern)));
    refused("public_key", text("PUB_K1_6MRyAjQq8ud7hVNYcfnVPJqcVpscN5So8BhtHuGYqET5BoDq64"));
    refused("public_key", text("PUB_XX_6MRyAjQq8ud7hVNYcfnVPJqcVpscN5So8BhtHuGYqET5BoDq63"));
    refused("public_key", text("PUB_R1_6MRyAjQq8ud7hVNYcfnVPJqcVpscN5So8BhtHuGYqET5BoDq63"));
    refused("public_key", text("not a key"));
    refused("public_key", text(""));
}

#[test]
fn public_key_of_the_other_curve() {
    let key = PublicKey::from_bytes(vec![3; 33], KeyType::R1);
    let written = key.as_string();
    assert!(written.starts_with("PUB_R1_"));
    let mut bytes = vec![1u8];
    bytes.extend(vec![3u8; 33]);
    assert_eq!(encode(&empty(), "public_key", &text(&written)), Ok(bytes.clone()));
    assert_eq!(decode(&empty(), "public_key", &bytes), Ok(text(&written)));
}

#[test]
fn public_key_with_unknown_curve_is_malformed() {
    let mut bytes = vec![7u8];
    bytes.extend(vec![3u8; 33]);
    assert_eq!(
        decode(&empty(), "public_key", &bytes),
        Err(CodecError::MalformedPrimitive { ty: "public_key".to_string(), offset: 0 })
    );
}

#[test]
fn signature_text_both_ways() {
    let raw: Vec<u8> = (0..65u8).collect();
    let written = Signature::from_bytes(raw.clone(), KeyType::K1).as_string();
    assert!(written.starts_with("SIG_K1_"));
    let mut bytes = vec![0u8];
    bytes.extend(raw);
    assert_eq!(encode(&empty(), "signature", &text(&written)), Ok(bytes.clone()));
    assert_eq!(parse_keyed(Keyed::Signature, &written), Some(bytes.clone()));
    assert_eq!(decode(&empty(), "signature", &bytes), Ok(text(&written)));
    assert_eq!(parse_keyed(Keyed::PublicKey, &written), None);
    refused("signature", text("SIG_K1_111"));
    refused("signature", text("PUB_K1_6MRyAjQq8ud7hVNYcfnVPJqcVpscN5So8BhtHuGYqET5BoDq63"));
}

#[test]
fn time_point_sec_text_both_ways() {
    let bytes = 1_577_836_800u32.to_le_bytes().to_vec();
    assert_eq!(encode(&empty(), "time_point_sec", &text("2020-01-01T00:00:00")), Ok(bytes.clone()));
    assert_eq!(encode(&empty(), "time_point_sec", &Value::Uint32(1_577_836_800)), Ok(bytes.clone()));
    assert_eq!(decode(&empty(), "time_point_sec", &bytes), Ok(text("2020-01-01T00:00:00")));
    refused("time_point_sec", text("2020-01-01 00:00:00"));
    refused("time_point_sec", text("yesterday"));
}

#[test]
fn time_point_text_both_ways() {
    let bytes = 1_577_836_800_500_000u64.to_le_bytes().to_vec();
    assert_eq!(encode(&empty(), "time_point", &text("2020-01-01T00:00:00.500")), Ok(bytes.clone()));
    assert_eq!(
        encode(&empty(), "time_point", &Value::Uint64(1_577_836_800_500_000)),
        Ok(bytes.clone())
    );
    assert_eq!(decode(&empty(), "time_point", &bytes), Ok(text("2020-01-01T00:00:00.500")));
    assert_eq!(
        encode(&empty(), "time_point", &text("2020-01-01T00:00:00")),
        Ok(1_577_836_800_000_000u64.to_le_bytes().to_vec())
    );
    refused("time_point", text("1969-12-31T23:59:59"));
    assert_eq!(
        decode(&empty(), "time_point", &[0xff; 8]),
        Err(CodecError::MalformedPrimitive { ty: "time_point".to_string(), offset: 0 })
    );
}

#[test]
fn block_timestamp_counts_half_seconds_from_2000() {
    let bytes = 1_262_304_000u32.to_le_bytes().to_vec();
    assert_eq!(
        encode(&empty(), "block_timestamp_type", &text("2020-01-01T00:00:00")),
        Ok(bytes.clone())
    );
    assert_eq!(
        encode(&empty(), "block_timestamp_type", &Value::Uint32(1_577_836_800)),
        Ok(bytes.clone())
    );
    assert_eq!(decode(&empty(), "block_timestamp_type", &bytes), Ok(text("2020-01-01T00:00:00")));
    assert_eq!(
        decode(&empty(), "block_timestamp_type", &[1, 0, 0, 0]),
        Ok(text("2000-01-01T00:00:00"))
    );
    refused("block_timestamp_type", text("1999-12-31T23:59:59"));
    refused("block_timestamp_type", Value::Uint32(4_000_000_000));
}
