use antelope_rs::proxies::asset::{Asset, AssetLike, ExtAssetLike, ExtendedAsset};
use antelope_rs::proxies::checksums::{Checksum160, Checksum256, SumLike};
use antelope_rs::proxies::name::{Name, NameLike};
use antelope_rs::proxies::signature::{SigLike, Signature};
use antelope_rs::proxies::sym::{SymLike, Symbol};
use antelope_rs::proxies::sym_code::{SymCodeLike, SymbolCode};
use antelope_rs::proxies::time::{TimePoint, TimePointLike};
use antelope_rs::proxies::varint::{VarUInt32Like, VarUint32};
use antelope_rs::value::{SemanticKind, Value};

const EOSIO: u64 = 0x5530_ea00_0000_0000;
const EOS: u64 = 0x53_4f_45;
const EOS4: u64 = 0x53_4f_45_04;

#[test]
fn name_from_every_form() {
    let name = Name::from_int(EOSIO);
    assert_eq!(name.value(), EOSIO);
    assert_eq!(name.encode(), vec![0, 0, 0, 0, 0, 0xea, 0x30, 0x55]);
    assert_eq!(name.to_string(), "eosio");
    assert_eq!(Name::from_bytes(&name.encode()), Some(name));
    assert_eq!(Name::from_bytes(&[1, 2, 3]), None);
    assert_eq!(Name::from_str_py("eosio"), Some(name));
    assert_eq!(Name::from_str_py("EOSIO"), None);
    assert_eq!(Name::try_from(&NameLike::Num(EOSIO)), Some(name));
    assert_eq!(Name::try_from(&NameLike::Raw(name.encode())), Some(name));
    assert_eq!(Name::try_from(&NameLike::Str("eosio".to_string())), Some(name));
    assert_eq!(Name::try_from(&NameLike::Cls(name)), Some(name));
    assert_eq!(Name::from_int(0).to_string(), ".");
    assert_eq!(
        name.to_value(),
        Value::Semantic(SemanticKind::Name, vec![0, 0, 0, 0, 0, 0xea, 0x30, 0x55])
    );
}

#[test]
fn symbol_code_from_every_form() {
    let code = SymbolCode::from_int(EOS).unwrap();
    assert_eq!(code.value(), EOS);
    assert_eq!(code.encode(), vec![b'E', b'O', b'S', 0, 0, 0, 0, 0]);
    assert_eq!(code.encode_length(), 8);
    assert_eq!(code.to_builtins(), Some("EOS".to_string()));
    assert_eq!(SymbolCode::from_int(0), None);
    assert_eq!(SymbolCode::from_int(0x6f_45), None);
    assert_eq!(SymbolCode::from_int(0x45_00_45), None);
    assert_eq!(SymbolCode::from_bytes(&code.encode()), Some(code));
    assert_eq!(SymbolCode::from_bytes(&[b'E']), None);
    assert_eq!(SymbolCode::from_str_py("EOS"), Some(code));
    assert_eq!(SymbolCode::try_from(&SymCodeLike::Str("EOS".to_string())), Some(code));
    assert_eq!(SymbolCode::try_from(&SymCodeLike::Int(EOS)), Some(code));
    assert_eq!(SymbolCode::try_from(&SymCodeLike::Raw(code.encode())), Some(code));
    assert_eq!(SymbolCode::try_from(&SymCodeLike::Cls(code)), Some(code));
    assert_eq!(SymbolCode { inner: 7 }.to_builtins(), None);
}

#[test]
fn symbol_from_every_form() {
    let symbol = Symbol::from_int(EOS4);
    assert_eq!(symbol.precision(), 4);
    assert_eq!(symbol.code(), SymbolCode { inner: EOS });
    assert_eq!(symbol.encode(), vec![4, b'E', b'O', b'S', 0, 0, 0, 0]);
    assert_eq!(symbol.to_string(), Some("4,EOS".to_string()));
    assert_eq!(Symbol::from_int(0x53_4f_45_12).to_string(), Some("18,EOS".to_string()));
    assert_eq!(Symbol::from_int(0x41_ff).to_string(), Some("255,A".to_string()));
    assert_eq!(Symbol::from_int(4).to_string(), None);
    assert_eq!(Symbol::from_str_py("4,EOS"), Some(symbol));
    assert_eq!(Symbol::from_bytes(&symbol.encode()), Some(symbol));
    assert_eq!(Symbol::try_from(&SymLike::Str("4,EOS".to_string())), Some(symbol));
    assert_eq!(Symbol::try_from(&SymLike::Raw(vec![1, 2])), None);
}

#[test]
fn asset_from_every_form() {
    let symbol = Symbol::from_int(EOS4);
    let asset = Asset::new(15000, symbol).unwrap();
    assert_eq!(asset.amount(), 15000);
    assert_eq!(asset.symbol(), symbol);
    assert_eq!(asset.to_builtins(), Some("1.5000 EOS".to_string()));
    assert_eq!(Asset::from_str_py("1.5000 EOS"), Some(asset));
    assert_eq!(Asset::from_ints(15000, 4, "EOS"), Some(asset));
    assert_eq!(Asset::from_ints(15000, 4, "eos"), None);
    assert_eq!(Asset::from_bytes(&asset.encode()), Some(asset));
    assert_eq!(
        asset.encode(),
        vec![0x98, 0x3a, 0, 0, 0, 0, 0, 0, 4, b'E', b'O', b'S', 0, 0, 0, 0]
    );
    assert_eq!(Asset::new(1 << 62, symbol), None);
    assert_eq!(Asset::new(-(1 << 62), symbol), None);
    assert!(Asset::new((1 << 62) - 1, symbol).is_some());
    assert_eq!(Asset::new(1, Symbol::from_int(4)), None);
    assert_eq!(
        Asset::try_from(&AssetLike::Int(15000, SymLike::Str("4,EOS".to_string()))),
        Some(asset)
    );
    assert_eq!(Asset::try_from(&AssetLike::Str("1.5000 EOS".to_string())), Some(asset));
    assert_eq!(Asset::try_from(&AssetLike::Raw(asset.encode())), Some(asset));
    assert_eq!(Asset::try_from(&AssetLike::Cls(asset)), Some(asset));
}

#[test]
fn asset_text_of_amounts_below_zero() {
    let symbol = Symbol::from_int(EOS4);
    assert_eq!(Asset::new(-15000, symbol).unwrap().to_builtins(), Some("-1.5000 EOS".to_string()));
    assert_eq!(Asset::new(-5, symbol).unwrap().to_builtins(), Some("-0.0005 EOS".to_string()));
    assert_eq!(Asset::new(0, symbol).unwrap().to_builtins(), Some("0.0000 EOS".to_string()));
    assert_eq!(
        Asset::new(7, Symbol::from_int(0x41_00)).unwrap().to_builtins(),
        Some("7 A".to_string())
    );
}

#[test]
fn asset_from_and_to_decimal_text() {
    let symbol = SymLike::Int(EOS4);
    let asset = Asset::from_decimal("1.5000", &symbol).unwrap();
    assert_eq!(asset.amount(), 15000);
    assert_eq!(asset.to_decimal(), "1.5000");
    assert_eq!(Asset::from_decimal("-0.0005", &symbol).unwrap().amount(), -5);
    assert_eq!(Asset::from_decimal("+12", &symbol).unwrap().amount(), 12);
    assert_eq!(Asset::from_decimal("1.5.0", &symbol).unwrap().amount(), 150);
    assert_eq!(Asset::from_decimal("", &symbol), None);
    assert_eq!(Asset::from_decimal("-", &symbol), None);
    assert_eq!(Asset::from_decimal(".", &symbol), None);
    assert_eq!(Asset::from_decimal("1e5", &symbol), None);
    assert_eq!(Asset::from_decimal("4611686018427387904", &symbol), None);
    assert_eq!(
        Asset::try_from(&AssetLike::Decimal("1.5000".to_string(), SymLike::Int(EOS4))),
        Some(asset)
    );
    let whole = Asset { amount: 42, symbol: Symbol::from_int(0x41_00) };
    assert_eq!(whole.to_decimal(), "42");
    let small = Asset { amount: 5, symbol: Symbol::from_int(EOS4) };
    assert_eq!(small.to_decimal(), "0.0005");
    let large = Asset { amount: -1234567, symbol: Symbol::from_int(EOS4) };
    assert_eq!(large.to_decimal(), "-123.4567");
    let lowest = Asset { amount: i64::MIN, symbol: Symbol::from_int(0x41_00) };
    assert_eq!(lowest.to_decimal(), "-9223372036854775808");
}

#[test]
fn asset_sums_and_differences() {
    let symbol = Symbol::from_int(EOS4);
    let a = Asset { amount: 10, symbol };
    let b = Asset { amount: 3, symbol };
    assert_eq!(a.try_add(&b), Some(Asset { amount: 13, symbol }));
    assert_eq!(a.try_sub(&b), Some(Asset { amount: 7, symbol }));
    assert_eq!(b.try_sub(&a), Some(Asset { amount: -7, symbol }));
    let other = Asset { amount: 3, symbol: Symbol::from_int(0x41_00) };
    assert_eq!(a.try_add(&other), None);
    assert_eq!(a.try_sub(&other), None);
    let most = Asset { amount: (1 << 62) - 1, symbol };
    assert_eq!(most.try_add(&a), None);
    let least = Asset { amount: -((1 << 62) - 1), symbol };
    assert_eq!(least.try_sub(&a), None);
    assert_eq!(most.try_add(&least), Some(Asset { amount: 0, symbol }));
}

#[test]
fn extended_asset_from_every_form() {
    let quantity = Asset { amount: 10000, symbol: Symbol::from_int(EOS4) };
    let contract = Name::from_str_py("eosio.token").unwrap();
    let extended = ExtendedAsset { quantity, contract };
    assert_eq!(ExtendedAsset::from_str_py("1.0000 EOS@eosio.token"), Some(extended));
    assert_eq!(extended.to_builtins(), Some("1.0000 EOS@eosio.token".to_string()));
    assert_eq!(extended.encode().len(), 24);
    assert_eq!(ExtendedAsset::from_bytes(&extended.encode()), Some(extended));
    assert_eq!(ExtendedAsset::from_bytes(&extended.encode()[..23]), None);
    assert_eq!(ExtendedAsset::try_from(&ExtAssetLike::Raw(extended.encode())), Some(extended));
    assert_eq!(
        ExtendedAsset::try_from(&ExtAssetLike::Str("1.0000 EOS@eosio.token".to_string())),
        Some(extended)
    );
    let sum = extended.try_add(&extended).unwrap();
    assert_eq!(sum.quantity.amount, 20000);
    assert_eq!(sum.contract, contract);
    assert_eq!(extended.try_sub(&extended).unwrap().quantity.amount, 0);
}

#[test]
fn checksum_from_every_form() {
    let bytes: Vec<u8> = (0..20u8).collect();
    let sum = Checksum160::from_bytes(&bytes).unwrap();
    assert_eq!(sum.to_builtins(), &bytes);
    assert_eq!(sum.encode(), bytes);
    assert_eq!(sum.to_string(), "000102030405060708090a0b0c0d0e0f10111213");
    assert_eq!(Checksum160::from_bytes(&bytes[..19]), None);
    let longer: Vec<u8> = (0..40u8).collect();
    assert_eq!(Checksum160::from_bytes(&longer), Some(sum.clone()));
    assert_eq!(Checksum160::from_str_py("0"), Some(Checksum160 { inner: vec![0; 20] }));
    assert_eq!(Checksum256::from_str_py("0"), Some(Checksum256 { inner: vec![0; 32] }));
    assert_eq!(
        Checksum160::from_str_py("AAECAwQFBgcICQoLDA0ODxAREhM="),
        Some(sum.clone())
    );
    assert_eq!(Checksum160::from_str_py("zz"), None);
    assert_eq!(Checksum160::try_from(&SumLike::Raw(bytes.clone())), Some(sum.clone()));
    assert_eq!(Checksum160::try_from(&SumLike::Cls(sum.clone())), Some(sum.clone()));
    assert_eq!(Checksum160::try_from(&SumLike::Str("0".to_string())).unwrap().inner, vec![0; 20]);
}

#[test]
fn signature_from_every_form() {
    let mut bytes = vec![0u8];
    bytes.extend((0..65u8).collect::<Vec<u8>>());
    let signature = Signature::from_bytes(&bytes).unwrap();
    assert_eq!(signature.encode(), bytes);
    let text = signature.to_string().unwrap();
    assert!(text.starts_with("SIG_K1_"));
    assert_eq!(Signature::from_str_py(&text), Some(signature.clone()));
    assert_eq!(Signature::try_from(&SigLike::Str(text)), Some(signature.clone()));
    assert_eq!(Signature::try_from(&SigLike::Raw(bytes.clone())), Some(signature.clone()));
    assert_eq!(Signature::try_from(&SigLike::Cls(signature.clone())), Some(signature));
    assert_eq!(Signature::from_bytes(&bytes[..65]), None);
    bytes[0] = 9;
    assert_eq!(Signature::from_bytes(&bytes), None);
    assert_eq!(Signature { inner: bytes }.to_string(), None);
}

#[test]
fn time_point_from_every_form() {
    let time = TimePoint::from_int(1_577_836_800_500_000);
    assert_eq!(time.to_string(), Some("2020-01-01T00:00:00.500".to_string()));
    assert_eq!(time.encode(), 1_577_836_800_500_000u64.to_le_bytes().to_vec());
    assert_eq!(TimePoint::from_bytes(&time.encode()), Some(time));
    assert_eq!(TimePoint::from_bytes(&[0; 7]), None);
    assert_eq!(TimePoint::from_str_py("2020-01-01T00:00:00.500"), Some(time));
    assert_eq!(TimePoint::from_str_py("soon"), None);
    assert_eq!(TimePoint::try_from(&TimePointLike::Int(5)), Some(TimePoint { inner: 5 }));
    assert_eq!(TimePoint::try_from(&TimePointLike::Raw(time.encode())), Some(time));
    assert_eq!(
        TimePoint::try_from(&TimePointLike::Str("1970-01-01T00:00:01".to_string())),
        Some(TimePoint { inner: 1_000_000 })
    );
    assert_eq!(TimePoint::try_from(&TimePointLike::Cls(time)), Some(time));
}

#[test]
fn varuint_from_every_form() {
    let number = VarUint32::from_int(300);
    assert_eq!(number.to_builtins(), 300);
    assert_eq!(number.encode(), vec![0xac, 0x02]);
    assert_eq!(number.encode_length(), 2);
    assert_eq!(number.to_string(), "300");
    assert_eq!(VarUint32::from_int(0).to_string(), "0");
    assert_eq!(VarUint32::from_int(u32::MAX).encode_length(), 5);
    assert_eq!(VarUint32::from_bytes(&[0xac, 0x02, 0xff]), Some(number));
    assert_eq!(VarUint32::from_bytes(&[0xac]), None);
    assert_eq!(VarUint32::from_bytes(&[]), None);
    assert_eq!(VarUint32::from_str_py("300"), Some(number));
    assert_eq!(VarUint32::from_str_py("4294967295"), Some(VarUint32 { inner: u32::MAX }));
    assert_eq!(VarUint32::from_str_py("4294967296"), None);
    assert_eq!(VarUint32::from_str_py(""), None);
    assert_eq!(VarUint32::from_str_py("-1"), None);
    assert_eq!(VarUint32::try_from(&VarUInt32Like::Int(300)), Some(number));
    assert_eq!(VarUint32::try_from(&VarUInt32Like::Str("300".to_string())), Some(number));
    assert_eq!(VarUint32::try_from(&VarUInt32Like::Raw(vec![0xac, 0x02])), Some(number));
    assert_eq!(VarUint32::try_from(&VarUInt32Like::Cls(number)), Some(number));
}
