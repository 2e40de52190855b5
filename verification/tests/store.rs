use antelope_rs::abi::{Abi, AbiField, AbiStruct, AbiTypeDef};
use antelope_rs::abi_store::{get_abi, load_abi, unload_abi, AbiStore, CodecFailure};
use antelope_rs::error::CodecError;
use antelope_rs::value::Value;

fn schema(types: Vec<AbiTypeDef>, structs: Vec<AbiStruct>) -> Abi {
    Abi {
        version: "eosio::abi/1.2".to_string(),
        types,
        structs,
        variants: vec![],
        actions: vec![],
        tables: vec![],
    }
}

fn one_field(name: &str, ty: &str) -> Abi {
    schema(
        vec![],
        vec![AbiStruct {
            name: name.to_string(),
            base: None,
            fields: vec![AbiField { name: "x".to_string(), ty: ty.to_string() }],
        }],
    )
}

#[test]
fn get_on_empty_store_is_not_found() {
    let store = AbiStore::new();
    assert_eq!(
        get_abi(&store, "eosio"),
        Err(CodecError::SchemaNotFound { account: "eosio".to_string() })
    );
}

#[test]
fn load_then_get_gives_a_copy() {
    let mut store = AbiStore::new();
    assert_eq!(load_abi(&mut store, "eosio", one_field("act", "uint8")), Ok(()));
    assert_eq!(get_abi(&store, "eosio"), Ok(one_field("act", "uint8")));
    assert_eq!(
        get_abi(&store, "other"),
        Err(CodecError::SchemaNotFound { account: "other".to_string() })
    );
}

#[test]
fn load_replaces_the_schema_loaded_before() {
    let mut store = AbiStore::new();
    load_abi(&mut store, "a", one_field("act", "uint8")).unwrap();
    load_abi(&mut store, "b", one_field("act", "uint16")).unwrap();
    load_abi(&mut store, "a", one_field("act", "uint32")).unwrap();
    assert_eq!(get_abi(&store, "a"), Ok(one_field("act", "uint32")));
    assert_eq!(get_abi(&store, "b"), Ok(one_field("act", "uint16")));
}

#[test]
fn unload_removes_and_is_harmless_when_absent() {
    let mut store = AbiStore::new();
    unload_abi(&mut store, "a");
    load_abi(&mut store, "a", one_field("act", "uint8")).unwrap();
    load_abi(&mut store, "b", one_field("act", "uint16")).unwrap();
    unload_abi(&mut store, "a");
    assert_eq!(
        get_abi(&store, "a"),
        Err(CodecError::SchemaNotFound { account: "a".to_string() })
    );
    assert_eq!(get_abi(&store, "b"), Ok(one_field("act", "uint16")));
}

#[test]
fn load_refuses_cyclic_aliases() {
    let mut store = AbiStore::new();
    load_abi(&mut store, "a", one_field("act", "uint8")).unwrap();
    let cyclic = schema(
        vec![
            AbiTypeDef { new_type_name: "x".to_string(), ty: "y".to_string() },
            AbiTypeDef { new_type_name: "y".to_string(), ty: "x[]".to_string() },
        ],
        vec![],
    );
    assert!(matches!(load_abi(&mut store, "a", cyclic), Err(CodecError::SchemaParseError { .. })));
    assert_eq!(get_abi(&store, "a"), Ok(one_field("act", "uint8")));
}

#[test]
fn load_refuses_cyclic_bases() {
    let mut store = AbiStore::new();
    let cyclic = schema(
        vec![],
        vec![
            AbiStruct { name: "p".to_string(), base: Some("q".to_string()), fields: vec![] },
            AbiStruct { name: "q".to_string(), base: Some("p".to_string()), fields: vec![] },
        ],
    );
    assert_eq!(
        load_abi(&mut store, "a", cyclic),
        Err(CodecError::SchemaParseError { ty: "p".to_string() })
    );
}

#[test]
fn load_accepts_names_that_are_not_defined() {
    let mut store = AbiStore::new();
    assert_eq!(load_abi(&mut store, "a", one_field("act", "undefined_type")), Ok(()));
    assert_eq!(
        store.encode("a", "act", &Value::Struct(vec![("x".to_string(), Value::Null)])),
        Err(CodecFailure {
            account: "a".to_string(),
            requested: "act".to_string(),
            error: CodecError::UnknownType { ty: "undefined_type".to_string() },
        })
    );
}

#[test]
fn store_encodes_and_decodes_by_account() {
    let mut store = AbiStore::new();
    load_abi(&mut store, "a", one_field("act", "uint16")).unwrap();
    let value = Value::Struct(vec![("x".to_string(), Value::Uint16(0x0a0b))]);
    assert_eq!(store.encode("a", "act", &value), Ok(vec![0x0b, 0x0a]));
    assert_eq!(store.decode("a", "act", &[0x0b, 0x0a]), Ok(value));
    assert_eq!(store.encode_params("a", "act", &vec![Value::Uint16(1)]), Ok(vec![1, 0]));
    assert_eq!(
        store.decode("zz", "act", &[0x0b, 0x0a]),
        Err(CodecFailure {
            account: "zz".to_string(),
            requested: "act".to_string(),
            error: CodecError::SchemaNotFound { account: "zz".to_string() },
        })
    );
}
