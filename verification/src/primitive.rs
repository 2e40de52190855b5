//! The codec of the built-in types.
//!
//! The byte layouts are those of the `antelope` crate, whose packers are
//! called here behind contracts that state what each one writes or reads.
use vstd::prelude::*;
use vstd::slice::{slice_subrange, slice_to_vec};
use vstd::string::*;
use vstd::utf8::{decode_utf8, encode_utf8, valid_utf8};
use crate::chain_text::{
    Keyed, hex_encode, hex_text, keyed_text, keyed_text_spec, parse_asset, parse_asset_spec,
    parse_checksum, parse_checksum_spec, parse_extended_asset, parse_extended_asset_spec,
    parse_keyed, parse_keyed_spec, parse_name, parse_name_spec, parse_symbol,
    parse_symbol_code, parse_symbol_code_spec, parse_symbol_spec,
};
use crate::error::{CodecError, CodecErrorView};
use crate::utils::{
    block_seconds, block_seconds_spec, block_slot, block_slot_spec, seconds_of_text,
    str_to_time_point, text_of_seconds, text_of_time_point, time_point_of_text,
    time_point_to_str, timestamp_to_str, try_str_to_timestamp, wrap32,
};
use crate::resolve::Builtin;
use crate::value::{SemanticKind, Value, ValueView, clone_bytes};
use crate::wire::{
    i128_bits, i128_from_bits, i16_bits, i16_from_bits, i32_bits, i32_from_bits, i64_bits,
    i64_from_bits, i8_bits, i8_from_bits, le_bytes, le_value, to_signed, to_unsigned,
    varuint_bytes, varuint_len, varuint_value,
};

verus! {

/// `antelope::serializer::Encoder::pack` on a `bool`: one byte, 1 for `true`
/// and 0 for `false`.
#[verifier::external_body]
fn pack_bool(v: bool) -> (out: Vec<u8>)
    ensures
        out@ == seq![if v { 1u8 } else { 0u8 }],
{
    antelope::serializer::Encoder::pack(&v)
}

/// `antelope::serializer::Encoder::pack` on a `u8`: the byte itself.
#[verifier::external_body]
fn pack_u8(v: u8) -> (out: Vec<u8>)
    ensures
        out@ == le_bytes(v as nat, 1),
{
    antelope::serializer::Encoder::pack(&v)
}

/// `antelope::serializer::Encoder::pack` on a `u16`: its two bytes, least
/// significant first.
#[verifier::external_body]
fn pack_u16(v: u16) -> (out: Vec<u8>)
    ensures
        out@ == le_bytes(v as nat, 2),
{
    antelope::serializer::Encoder::pack(&v)
}

/// `antelope::serializer::Encoder::pack` on a `u32`: its four bytes, least
/// significant first.
#[verifier::external_body]
fn pack_u32(v: u32) -> (out: Vec<u8>)
    ensures
        out@ == le_bytes(v as nat, 4),
{
    antelope::serializer::Encoder::pack(&v)
}

/// `antelope::serializer::Encoder::pack` on a `u64`: its eight bytes, least
/// significant first.
#[verifier::external_body]
fn pack_u64(v: u64) -> (out: Vec<u8>)
    ensures
        out@ == le_bytes(v as nat, 8),
{
    antelope::serializer::Encoder::pack(&v)
}

/// `antelope::serializer::Encoder::pack` on a `u128`: its sixteen bytes,
/// least significant first.
#[verifier::external_body]
fn pack_u128(v: u128) -> (out: Vec<u8>)
    ensures
        out@ == le_bytes(v as nat, 16),
{
    antelope::serializer::Encoder::pack(&v)
}

/// `antelope::serializer::Encoder::pack` on a
/// `antelope::chain::varint::VarUint32`: the variable-length form of `n`.
#[verifier::external_body]
fn pack_varuint32(n: u32) -> (out: Vec<u8>)
    ensures
        out@ == varuint_bytes(n as nat),
{
    antelope::serializer::Encoder::pack(&antelope::chain::varint::VarUint32::new(n))
}

/// `antelope::serializer::Encoder::pack` on a `Vec<u8>`: the number of bytes
/// in variable-length form, then the bytes. The count is written as a
/// 32-bit number, so longer input is left out.
#[verifier::external_body]
fn pack_bytes(v: &Vec<u8>) -> (out: Vec<u8>)
    requires
        v@.len() <= u32::MAX,
    ensures
        out@ == varuint_bytes(v@.len()) + v@,
{
    antelope::serializer::Encoder::pack(v)
}

/// `antelope::serializer::Encoder::pack` on a `String`: the number of bytes
/// of its UTF-8 form in variable-length form, then those bytes. The count is
/// written as a 32-bit number, so longer input is left out.
#[verifier::external_body]
fn pack_string(s: &String) -> (out: Vec<u8>)
    requires
        encode_utf8(s@).len() <= u32::MAX,
    ensures
        out@ == varuint_bytes(encode_utf8(s@).len()) + encode_utf8(s@),
{
    antelope::serializer::Encoder::pack(s)
}

/// `antelope::serializer::Packer::unpack` of `u8`: the first byte. It panics
/// on empty input, which is left out.
#[verifier::external_body]
fn unpack_u8(data: &[u8]) -> (v: u8)
    requires
        data@.len() >= 1,
    ensures
        v == le_value(data@.subrange(0, 1)),
{
    let mut v: u8 = 0;
    antelope::serializer::Packer::unpack(&mut v, data);
    v
}

/// `antelope::serializer::Packer::unpack` of `u16`: the number that the
/// first two bytes hold, least significant first. It panics on shorter
/// input, which is left out.
#[verifier::external_body]
fn unpack_u16(data: &[u8]) -> (v: u16)
    requires
        data@.len() >= 2,
    ensures
        v == le_value(data@.subrange(0, 2)),
{
    let mut v: u16 = 0;
    antelope::serializer::Packer::unpack(&mut v, data);
    v
}

/// `antelope::serializer::Packer::unpack` of `u32`: the number that the
/// first four bytes hold, least significant first. It panics on shorter
/// input, which is left out.
#[verifier::external_body]
fn unpack_u32(data: &[u8]) -> (v: u32)
    requires
        data@.len() >= 4,
    ensures
        v == le_value(data@.subrange(0, 4)),
{
    let mut v: u32 = 0;
    antelope::serializer::Packer::unpack(&mut v, data);
    v
}

/// `antelope::serializer::Packer::unpack` of `u64`: the number that the
/// first eight bytes hold, least significant first. It panics on shorter
/// input, which is left out.
#[verifier::external_body]
fn unpack_u64(data: &[u8]) -> (v: u64)
    requires
        data@.len() >= 8,
    ensures
        v == le_value(data@.subrange(0, 8)),
{
    let mut v: u64 = 0;
    antelope::serializer::Packer::unpack(&mut v, data);
    v
}

/// `antelope::serializer::Packer::unpack` of `u128`: the number that the
/// first sixteen bytes hold, least significant first. It panics on shorter
/// input, which is left out.
#[verifier::external_body]
fn unpack_u128(data: &[u8]) -> (v: u128)
    requires
        data@.len() >= 16,
    ensures
        v == le_value(data@.subrange(0, 16)),
{
    let mut v: u128 = 0;
    antelope::serializer::Packer::unpack(&mut v, data);
    v
}

/// `antelope::serializer::Packer::unpack` of
/// `antelope::chain::varint::VarUint32`: it reads up to the first byte
/// without the high bit and returns the number read, cut to 32 bits, and the
/// count of bytes read. It panics on a fifth byte with the high bit, and
/// reads to the end where no byte ends the number: both are left out.
#[verifier::external_body]
fn unpack_varuint32(data: &[u8]) -> (r: (u32, usize))
    requires
        varuint_len(data@).is_some(),
    ensures
        r.1 == varuint_len(data@).unwrap(),
        r.0 == varuint_value(data@, r.1 as nat),
{
    let mut v = antelope::chain::varint::VarUint32::default();
    let used: usize = antelope::serializer::Packer::unpack(&mut v, data);
    (v.n, used)
}

/// `antelope::serializer::Packer::unpack` of `Vec<u8>`: it reads a count in
/// variable-length form and then that many bytes, and returns them with the
/// number of bytes read in all. It panics where the count is malformed or
/// fewer bytes follow, which is left out.
#[verifier::external_body]
fn unpack_bytes(data: &[u8]) -> (r: (Vec<u8>, usize))
    requires
        varuint_len(data@).is_some(),
        varuint_len(data@).unwrap() + varuint_value(data@, varuint_len(data@).unwrap())
            <= data@.len(),
    ensures
        r.1 == varuint_len(data@).unwrap() + varuint_value(data@, varuint_len(data@).unwrap()),
        r.0@ == data@.subrange(varuint_len(data@).unwrap() as int, r.1 as int),
{
    let mut v: Vec<u8> = Vec::new();
    let used: usize = antelope::serializer::Packer::unpack(&mut v, data);
    (v, used)
}

/// `String::from_utf8`: the string whose UTF-8 form is `bytes`, or nothing
/// where `bytes` is not valid UTF-8.
#[verifier::external_body]
fn string_from_utf8(bytes: Vec<u8>) -> (r: Option<String>)
    ensures
        match r {
            Some(s) => valid_utf8(bytes@) && s@ == decode_utf8(bytes@),
            None => !valid_utf8(bytes@),
        },
{
    String::from_utf8(bytes).ok()
}

/// The variable-length form of a count or of a variant tag.
pub(crate) fn encode_count(n: u32) -> (out: Vec<u8>)
    ensures
        out@ == varuint_bytes(n as nat),
{
    pack_varuint32(n)
}

/// The eight bytes of `v`, least significant first.
pub(crate) fn encode_u64(v: u64) -> (out: Vec<u8>)
    ensures
        out@ == le_bytes(v as nat, 8),
{
    pack_u64(v)
}

/// The number that the first eight bytes of `data` hold, least significant
/// first.
pub(crate) fn decode_u64(data: &[u8]) -> (v: u64)
    requires
        data@.len() >= 8,
    ensures
        v == le_value(data@.subrange(0, 8)),
{
    unpack_u64(data)
}

/// The binary form that a built-in type carries as it is, if it does.
pub open spec fn semantic_kind(b: Builtin) -> Option<SemanticKind> {
    match b {
        Builtin::Name => Some(SemanticKind::Name),
        Builtin::SymbolCode => Some(SemanticKind::SymbolCode),
        Builtin::Symbol => Some(SemanticKind::Symbol),
        Builtin::Asset => Some(SemanticKind::Asset),
        Builtin::ExtendedAsset => Some(SemanticKind::ExtendedAsset),
        Builtin::Checksum160 => Some(SemanticKind::Checksum160),
        Builtin::Checksum256 => Some(SemanticKind::Checksum256),
        Builtin::Checksum512 => Some(SemanticKind::Checksum512),
        Builtin::PublicKey => Some(SemanticKind::PublicKey),
        Builtin::Signature => Some(SemanticKind::Signature),
        _ => None,
    }
}

/// The bytes of `v` as a value of the built-in type `b`, or nothing where
/// `v` does not have the shape that `b` takes.
pub open spec fn pack_builtin_spec(b: Builtin, v: ValueView) -> Option<Seq<u8>> {
    match (b, v) {
        (Builtin::Bool, ValueView::Bool(x)) => Some(seq![if x { 1u8 } else { 0u8 }]),
        (Builtin::Int8, ValueView::Int8(n)) => Some(le_bytes(to_unsigned(n as int, 1), 1)),
        (Builtin::Int16, ValueView::Int16(n)) => Some(le_bytes(to_unsigned(n as int, 2), 2)),
        (Builtin::Int32, ValueView::Int32(n)) => Some(le_bytes(to_unsigned(n as int, 4), 4)),
        (Builtin::Int64, ValueView::Int64(n)) => Some(le_bytes(to_unsigned(n as int, 8), 8)),
        (Builtin::Int128, ValueView::Int128(n)) => Some(
            le_bytes(to_unsigned(n as int, 16), 16),
        ),
        (Builtin::Uint8, ValueView::Uint8(n)) => Some(le_bytes(n as nat, 1)),
        (Builtin::Uint16, ValueView::Uint16(n)) => Some(le_bytes(n as nat, 2)),
        (Builtin::Uint32, ValueView::Uint32(n)) => Some(le_bytes(n as nat, 4)),
        (Builtin::Uint64, ValueView::Uint64(n)) => Some(le_bytes(n as nat, 8)),
        (Builtin::Uint128, ValueView::Uint128(n)) => Some(le_bytes(n as nat, 16)),
        (Builtin::Varuint32, ValueView::Uint32(n)) => Some(varuint_bytes(n as nat)),
        (Builtin::Float32, ValueView::Float32(bits)) => Some(le_bytes(bits as nat, 4)),
        (Builtin::Float64, ValueView::Float64(bits)) => Some(le_bytes(bits as nat, 8)),
        (Builtin::Bytes, ValueView::Bytes(bytes)) => if bytes.len() <= u32::MAX {
            Some(varuint_bytes(bytes.len()) + bytes)
        } else {
            None
        },
        (Builtin::String, ValueView::String(s)) => if encode_utf8(s).len() <= u32::MAX {
            Some(varuint_bytes(encode_utf8(s).len()) + encode_utf8(s))
        } else {
            None
        },
        (_, ValueView::Semantic(kind, bytes)) => if semantic_kind(b) == Some(kind)
            && bytes.len() == kind.spec_size() {
            Some(bytes)
        } else {
            None
        },
        (Builtin::Name, ValueView::Uint64(n)) => Some(le_bytes(n as nat, 8)),
        (Builtin::TimePoint, ValueView::Uint64(micros)) => Some(le_bytes(micros as nat, 8)),
        (Builtin::TimePointSec, ValueView::Uint32(seconds)) => Some(le_bytes(seconds as nat, 4)),
        (Builtin::BlockTimestamp, ValueView::Uint32(seconds)) => match block_slot_spec(seconds) {
            Some(slot) => Some(le_bytes(slot as nat, 4)),
            None => None,
        },
        (_, ValueView::String(s)) => pack_text_spec(b, s),
        _ => None,
    }
}

/// The bytes of the value of the chain type `b` that `s` is the text of, or
/// nothing where `b` has no text form or `s` is not a text of it.
///
/// * A name, a symbol code, a symbol and the contract of an extended asset
///   are eight bytes, least significant first; the amount of an asset is
///   eight bytes in two's complement and comes before its symbol.
/// * A checksum is the bytes that its hexadecimal text stands for.
/// * A key or a signature is the byte of its curve and its bytes.
/// * A time point is its microseconds from 1970 in eight bytes; a time
///   point in seconds is the low 32 bits of its seconds from 1970; a block
///   time stamp is the half seconds from the year 2000 to that time in
///   seconds, in four bytes.
pub open spec fn pack_text_spec(b: Builtin, s: Seq<char>) -> Option<Seq<u8>> {
    match b {
        Builtin::Name => match parse_name_spec(s) {
            Some(n) => Some(le_bytes(n as nat, 8)),
            None => None,
        },
        Builtin::SymbolCode => match parse_symbol_code_spec(s) {
            Some(n) => Some(le_bytes(n as nat, 8)),
            None => None,
        },
        Builtin::Symbol => match parse_symbol_spec(s) {
            Some(n) => Some(le_bytes(n as nat, 8)),
            None => None,
        },
        Builtin::Asset => match parse_asset_spec(s) {
            Some((amount, symbol)) => Some(
                le_bytes(to_unsigned(amount as int, 8), 8) + le_bytes(symbol as nat, 8),
            ),
            None => None,
        },
        Builtin::ExtendedAsset => match parse_extended_asset_spec(s) {
            Some((amount, symbol, contract)) => Some(
                le_bytes(to_unsigned(amount as int, 8), 8) + le_bytes(symbol as nat, 8)
                    + le_bytes(contract as nat, 8),
            ),
            None => None,
        },
        Builtin::Checksum160 => parse_checksum_spec(s, 20),
        Builtin::Checksum256 => parse_checksum_spec(s, 32),
        Builtin::Checksum512 => parse_checksum_spec(s, 64),
        Builtin::PublicKey => parse_keyed_spec(Keyed::PublicKey, s),
        Builtin::Signature => parse_keyed_spec(Keyed::Signature, s),
        Builtin::TimePoint => match time_point_of_text(s) {
            Some(micros) => Some(le_bytes(micros as nat, 8)),
            None => None,
        },
        Builtin::TimePointSec => match seconds_of_text(s) {
            Some(seconds) => Some(le_bytes(wrap32(seconds as int) as nat, 4)),
            None => None,
        },
        Builtin::BlockTimestamp => match seconds_of_text(s) {
            Some(seconds) => match block_slot_spec(wrap32(seconds as int)) {
                Some(slot) => Some(le_bytes(slot as nat, 4)),
                None => None,
            },
            None => None,
        },
        _ => None,
    }
}

/// The bytes of `v` as a value of the built-in type `b`, which `ty` names.
/// A value of another shape is a `WrongValueKindForType`.
pub open spec fn encode_builtin_spec(b: Builtin, ty: Seq<char>, v: ValueView) -> Result<
    Seq<u8>,
    CodecErrorView,
> {
    match pack_builtin_spec(b, v) {
        Some(bytes) => Ok(bytes),
        None => Err(CodecErrorView::WrongValueKindForType { expected: ty, actual: v.kind() }),
    }
}

/// The built-in type that carries the binary form `kind`.
fn semantic_kind_of(b: Builtin) -> (r: Option<SemanticKind>)
    ensures
        r == semantic_kind(b),
{
    match b {
        Builtin::Name => Some(SemanticKind::Name),
        Builtin::SymbolCode => Some(SemanticKind::SymbolCode),
        Builtin::Symbol => Some(SemanticKind::Symbol),
        Builtin::Asset => Some(SemanticKind::Asset),
        Builtin::ExtendedAsset => Some(SemanticKind::ExtendedAsset),
        Builtin::Checksum160 => Some(SemanticKind::Checksum160),
        Builtin::Checksum256 => Some(SemanticKind::Checksum256),
        Builtin::Checksum512 => Some(SemanticKind::Checksum512),
        Builtin::PublicKey => Some(SemanticKind::PublicKey),
        Builtin::Signature => Some(SemanticKind::Signature),
        _ => None,
    }
}

/// The bytes of `v` as a value of the built-in type `b`, if `v` has the
/// shape that `b` takes.
pub fn pack_builtin(b: Builtin, v: &Value) -> (r: Option<Vec<u8>>)
    ensures
        match r {
            Some(bytes) => pack_builtin_spec(b, v@) == Some(bytes@),
            None => pack_builtin_spec(b, v@).is_none(),
        },
{
    match (b, v) {
        (Builtin::Bool, Value::Bool(x)) => Some(pack_bool(*x)),
        (Builtin::Int8, Value::Int8(n)) => Some(pack_u8(i8_bits(*n))),
        (Builtin::Int16, Value::Int16(n)) => Some(pack_u16(i16_bits(*n))),
        (Builtin::Int32, Value::Int32(n)) => Some(pack_u32(i32_bits(*n))),
        (Builtin::Int64, Value::Int64(n)) => Some(pack_u64(i64_bits(*n))),
        (Builtin::Int128, Value::Int128(n)) => Some(pack_u128(i128_bits(*n))),
        (Builtin::Uint8, Value::Uint8(n)) => Some(pack_u8(*n)),
        (Builtin::Uint16, Value::Uint16(n)) => Some(pack_u16(*n)),
        (Builtin::Uint32, Value::Uint32(n)) => Some(pack_u32(*n)),
        (Builtin::Uint64, Value::Uint64(n)) => Some(pack_u64(*n)),
        (Builtin::Uint128, Value::Uint128(n)) => Some(pack_u128(*n)),
        (Builtin::Varuint32, Value::Uint32(n)) => Some(pack_varuint32(*n)),
        (Builtin::Float32, Value::Float32(bits)) => Some(pack_u32(*bits)),
        (Builtin::Float64, Value::Float64(bits)) => Some(pack_u64(*bits)),
        (Builtin::Bytes, Value::Bytes(bytes)) => {
            if bytes.len() <= u32::MAX as usize {
                Some(pack_bytes(bytes))
            } else {
                None
            }
        },
        (Builtin::String, Value::String(s)) => {
            if s.as_str().as_bytes().len() <= u32::MAX as usize {
                Some(pack_string(s))
            } else {
                None
            }
        },
        (_, Value::Semantic(kind, bytes)) => {
            match semantic_kind_of(b) {
                Some(k) => {
                    if k == *kind && bytes.len() == kind.size() {
                        Some(clone_bytes(bytes))
                    } else {
                        None
                    }
                },
                None => None,
            }
        },
        (Builtin::Name, Value::Uint64(n)) => Some(pack_u64(*n)),
        (Builtin::TimePoint, Value::Uint64(micros)) => Some(pack_u64(*micros)),
        (Builtin::TimePointSec, Value::Uint32(seconds)) => Some(pack_u32(*seconds)),
        (Builtin::BlockTimestamp, Value::Uint32(seconds)) => match block_slot(*seconds) {
            Some(slot) => Some(pack_u32(slot)),
            None => None,
        },
        (_, Value::String(s)) => pack_text(b, s.as_str()),
        _ => None,
    }
}

/// The bytes of the value of the chain type `b` that `s` is the text of, if
/// `b` has a text form and `s` is a text of it.
pub fn pack_text(b: Builtin, s: &str) -> (r: Option<Vec<u8>>)
    ensures
        match r {
            Some(bytes) => pack_text_spec(b, s@) == Some(bytes@),
            None => pack_text_spec(b, s@).is_none(),
        },
{
    match b {
        Builtin::Name => match parse_name(s) {
            Some(n) => Some(pack_u64(n)),
            None => None,
        },
        Builtin::SymbolCode => match parse_symbol_code(s) {
            Some(n) => Some(pack_u64(n)),
            None => None,
        },
        Builtin::Symbol => match parse_symbol(s) {
            Some(n) => Some(pack_u64(n)),
            None => None,
        },
        Builtin::Asset => match parse_asset(s) {
            Some((amount, symbol)) => {
                let mut out: Vec<u8> = pack_u64(i64_bits(amount));
                let mut rest: Vec<u8> = pack_u64(symbol);
                out.append(&mut rest);
                Some(out)
            },
            None => None,
        },
        Builtin::ExtendedAsset => match parse_extended_asset(s) {
            Some((amount, symbol, contract)) => {
                let mut out: Vec<u8> = pack_u64(i64_bits(amount));
                let mut second: Vec<u8> = pack_u64(symbol);
                let mut third: Vec<u8> = pack_u64(contract);
                out.append(&mut second);
                out.append(&mut third);
                Some(out)
            },
            None => None,
        },
        Builtin::Checksum160 => parse_checksum(s, 20),
        Builtin::Checksum256 => parse_checksum(s, 32),
        Builtin::Checksum512 => parse_checksum(s, 64),
        Builtin::PublicKey => parse_keyed(Keyed::PublicKey, s),
        Builtin::Signature => parse_keyed(Keyed::Signature, s),
        Builtin::TimePoint => match str_to_time_point(s) {
            Some(micros) => Some(pack_u64(micros)),
            None => None,
        },
        Builtin::TimePointSec => match try_str_to_timestamp(s) {
            Some(seconds) => Some(pack_u32(seconds)),
            None => None,
        },
        Builtin::BlockTimestamp => match try_str_to_timestamp(s) {
            Some(seconds) => match block_slot(seconds) {
                Some(slot) => Some(pack_u32(slot)),
                None => None,
            },
            None => None,
        },
        _ => None,
    }
}

/// Encodes `v` as a value of the built-in type `b`, which `ty` names.
pub fn encode_builtin(b: Builtin, ty: &str, v: &Value) -> (r: Result<Vec<u8>, CodecError>)
    ensures
        match r {
            Ok(bytes) => encode_builtin_spec(b, ty@, v@) == Ok::<Seq<u8>, CodecErrorView>(bytes@),
            Err(e) => encode_builtin_spec(b, ty@, v@) == Err::<Seq<u8>, CodecErrorView>(e@),
        },
{
    match pack_builtin(b, v) {
        Some(bytes) => Ok(bytes),
        None => Err(CodecError::WrongValueKindForType { expected: ty.to_owned(), actual: v.kind() }),
    }
}

/// Number of bytes of a value of the built-in type `b`, where every value
/// has the same.
pub open spec fn fixed_width(b: Builtin) -> Option<nat> {
    match b {
        Builtin::Bool | Builtin::Int8 | Builtin::Uint8 => Some(1),
        Builtin::Int16 | Builtin::Uint16 => Some(2),
        Builtin::Int32 | Builtin::Uint32 | Builtin::Float32 => Some(4),
        Builtin::Int64 | Builtin::Uint64 | Builtin::Float64 => Some(8),
        Builtin::Int128 | Builtin::Uint128 => Some(16),
        Builtin::TimePoint => Some(8),
        Builtin::TimePointSec | Builtin::BlockTimestamp => Some(4),
        Builtin::Varuint32 | Builtin::Bytes | Builtin::String => None,
        _ => match semantic_kind(b) {
            Some(kind) => Some(kind.spec_size()),
            None => None,
        },
    }
}

/// The value of the fixed-width built-in type `b` that `bytes` hold, or
/// nothing where they hold none.
///
/// A number is read least significant byte first, a signed one in two's
/// complement; a float is its bits. A name, a symbol code, a symbol, an
/// asset and an extended asset are carried in their binary form. A checksum
/// becomes its hexadecimal text, a key and a signature their text, which
/// there is none of for an unknown curve, and a time its text, which there
/// is none of beyond the calendar.
pub open spec fn fixed_value(b: Builtin, bytes: Seq<u8>) -> Option<ValueView> {
    match b {
        Builtin::Bool => Some(ValueView::Bool(le_value(bytes) == 1)),
        Builtin::Int8 => Some(ValueView::Int8(to_signed(le_value(bytes), 1) as i8)),
        Builtin::Int16 => Some(ValueView::Int16(to_signed(le_value(bytes), 2) as i16)),
        Builtin::Int32 => Some(ValueView::Int32(to_signed(le_value(bytes), 4) as i32)),
        Builtin::Int64 => Some(ValueView::Int64(to_signed(le_value(bytes), 8) as i64)),
        Builtin::Int128 => Some(ValueView::Int128(to_signed(le_value(bytes), 16) as i128)),
        Builtin::Uint8 => Some(ValueView::Uint8(le_value(bytes) as u8)),
        Builtin::Uint16 => Some(ValueView::Uint16(le_value(bytes) as u16)),
        Builtin::Uint32 => Some(ValueView::Uint32(le_value(bytes) as u32)),
        Builtin::Uint64 => Some(ValueView::Uint64(le_value(bytes) as u64)),
        Builtin::Uint128 => Some(ValueView::Uint128(le_value(bytes) as u128)),
        Builtin::Float32 => Some(ValueView::Float32(le_value(bytes) as u32)),
        Builtin::Float64 => Some(ValueView::Float64(le_value(bytes) as u64)),
        Builtin::Checksum160 | Builtin::Checksum256 | Builtin::Checksum512 => Some(
            ValueView::String(hex_text(bytes)),
        ),
        Builtin::PublicKey => match keyed_text_spec(Keyed::PublicKey, bytes) {
            Some(text) => Some(ValueView::String(text)),
            None => None,
        },
        Builtin::Signature => match keyed_text_spec(Keyed::Signature, bytes) {
            Some(text) => Some(ValueView::String(text)),
            None => None,
        },
        Builtin::TimePoint => match text_of_time_point(le_value(bytes) as u64) {
            Some(text) => Some(ValueView::String(text)),
            None => None,
        },
        Builtin::TimePointSec => match text_of_seconds(le_value(bytes) as u32 as i64) {
            Some(text) => Some(ValueView::String(text)),
            None => None,
        },
        Builtin::BlockTimestamp => match text_of_seconds(
            block_seconds_spec(le_value(bytes) as u32) as i64,
        ) {
            Some(text) => Some(ValueView::String(text)),
            None => None,
        },
        _ => match semantic_kind(b) {
            Some(kind) => Some(ValueView::Semantic(kind, bytes)),
            None => None,
        },
    }
}

/// The count that starts `rest`, with the number of bytes it takes. Five
/// bytes that all continue are a `MalformedPrimitive`; fewer, with none that
/// ends the number, a `DecodeTruncated`.
pub open spec fn decode_count_spec(ty: Seq<char>, rest: Seq<u8>, pos: nat) -> Result<
    (u32, nat),
    CodecErrorView,
> {
    match varuint_len(rest) {
        Some(k) => Ok((varuint_value(rest, k) as u32, k)),
        None => if rest.len() >= 5 {
            Err(CodecErrorView::MalformedPrimitive { ty, offset: pos })
        } else {
            Err(CodecErrorView::DecodeTruncated { ty, offset: pos })
        },
    }
}

/// The value of the built-in type `b`, which `ty` names, that starts at
/// `pos` in `data`, with the position after it.
///
/// Input that ends before the value does is a `DecodeTruncated`; a count
/// of more than five bytes, a string that is not UTF-8, or bytes that hold
/// no value of the type, a `MalformedPrimitive`.
pub open spec fn decode_builtin_spec(b: Builtin, ty: Seq<char>, data: Seq<u8>, pos: nat) -> Result<
    (ValueView, nat),
    CodecErrorView,
> {
    let rest = data.subrange(pos as int, data.len() as int);
    match fixed_width(b) {
        Some(w) => if rest.len() < w {
            Err(CodecErrorView::DecodeTruncated { ty, offset: pos })
        } else {
            match fixed_value(b, rest.subrange(0, w as int)) {
                Some(value) => Ok((value, pos + w)),
                None => Err(CodecErrorView::MalformedPrimitive { ty, offset: pos }),
            }
        },
        None => match decode_count_spec(ty, rest, pos) {
            Err(e) => Err(e),
            Ok((n, k)) => if b == Builtin::Varuint32 {
                Ok((ValueView::Uint32(n), pos + k))
            } else if rest.len() - k < n {
                Err(CodecErrorView::DecodeTruncated { ty, offset: pos })
            } else {
                let payload = rest.subrange(k as int, k + n);
                if b == Builtin::Bytes {
                    Ok((ValueView::Bytes(payload), (pos + k + n) as nat))
                } else if valid_utf8(payload) {
                    Ok((ValueView::String(decode_utf8(payload)), (pos + k + n) as nat))
                } else {
                    Err(CodecErrorView::MalformedPrimitive { ty, offset: pos })
                }
            },
        },
    }
}

/// Reads the count that starts at `pos` in `data`.
pub fn decode_count(ty: &str, data: &[u8], pos: usize) -> (r: Result<(u32, usize), CodecError>)
    requires
        pos <= data@.len(),
    ensures
        match r {
            Ok((n, k)) => decode_count_spec(
                ty@,
                data@.subrange(pos as int, data@.len() as int),
                pos as nat,
            ) == Ok::<(u32, nat), CodecErrorView>((n, k as nat)) && 1 <= k <= 5 && pos + k
                <= data@.len(),
            Err(e) => decode_count_spec(
                ty@,
                data@.subrange(pos as int, data@.len() as int),
                pos as nat,
            ) == Err::<(u32, nat), CodecErrorView>(e@),
        },
{
    let rest = slice_subrange(data, pos, data.len());
    let n: usize = rest.len();
    let ends: bool = (n >= 1 && rest[0] < 128) || (n >= 2 && rest[1] < 128) || (n >= 3 && rest[2]
        < 128) || (n >= 4 && rest[3] < 128) || (n >= 5 && rest[4] < 128);
    if ends {
        let (value, used) = unpack_varuint32(rest);
        Ok((value, used))
    } else if n >= 5 {
        Err(CodecError::MalformedPrimitive { ty: ty.to_owned(), offset: pos })
    } else {
        Err(CodecError::DecodeTruncated { ty: ty.to_owned(), offset: pos })
    }
}

/// Reads the fixed-width value of type `b` that `bytes` hold.
fn unpack_fixed(b: Builtin, bytes: &[u8]) -> (r: Option<Value>)
    requires
        fixed_width(b) == Some(bytes@.len()),
    ensures
        match r {
            Some(v) => fixed_value(b, bytes@) == Some(v@),
            None => fixed_value(b, bytes@).is_none(),
        },
{
    assert(bytes@.subrange(0, bytes@.len() as int) =~= bytes@);
    match b {
        Builtin::Bool => Some(Value::Bool(unpack_u8(bytes) == 1)),
        Builtin::Int8 => Some(Value::Int8(i8_from_bits(unpack_u8(bytes)))),
        Builtin::Int16 => Some(Value::Int16(i16_from_bits(unpack_u16(bytes)))),
        Builtin::Int32 => Some(Value::Int32(i32_from_bits(unpack_u32(bytes)))),
        Builtin::Int64 => Some(Value::Int64(i64_from_bits(unpack_u64(bytes)))),
        Builtin::Int128 => Some(Value::Int128(i128_from_bits(unpack_u128(bytes)))),
        Builtin::Uint8 => Some(Value::Uint8(unpack_u8(bytes))),
        Builtin::Uint16 => Some(Value::Uint16(unpack_u16(bytes))),
        Builtin::Uint32 => Some(Value::Uint32(unpack_u32(bytes))),
        Builtin::Uint64 => Some(Value::Uint64(unpack_u64(bytes))),
        Builtin::Uint128 => Some(Value::Uint128(unpack_u128(bytes))),
        Builtin::Float32 => Some(Value::Float32(unpack_u32(bytes))),
        Builtin::Float64 => Some(Value::Float64(unpack_u64(bytes))),
        Builtin::Checksum160 | Builtin::Checksum256 | Builtin::Checksum512 => Some(
            Value::String(hex_encode(bytes)),
        ),
        Builtin::PublicKey => match keyed_text(Keyed::PublicKey, bytes) {
            Some(text) => Some(Value::String(text)),
            None => None,
        },
        Builtin::Signature => match keyed_text(Keyed::Signature, bytes) {
            Some(text) => Some(Value::String(text)),
            None => None,
        },
        Builtin::TimePoint => match time_point_to_str(unpack_u64(bytes)) {
            Some(text) => Some(Value::String(text)),
            None => None,
        },
        Builtin::TimePointSec => match timestamp_to_str(unpack_u32(bytes)) {
            Some(text) => Some(Value::String(text)),
            None => None,
        },
        Builtin::BlockTimestamp => match timestamp_to_str(block_seconds(unpack_u32(bytes))) {
            Some(text) => Some(Value::String(text)),
            None => None,
        },
        _ => match semantic_kind_of(b) {
            Some(kind) => Some(Value::Semantic(kind, slice_to_vec(bytes))),
            None => None,
        },
    }
}

/// Number of bytes of a value of the built-in type `b`, where every value
/// has the same.
fn width_of(b: Builtin) -> (r: Option<usize>)
    ensures
        match r {
            Some(w) => fixed_width(b) == Some(w as nat),
            None => fixed_width(b).is_none(),
        },
{
    match b {
        Builtin::Bool | Builtin::Int8 | Builtin::Uint8 => Some(1),
        Builtin::Int16 | Builtin::Uint16 => Some(2),
        Builtin::Int32 | Builtin::Uint32 | Builtin::Float32 => Some(4),
        Builtin::Int64 | Builtin::Uint64 | Builtin::Float64 => Some(8),
        Builtin::Int128 | Builtin::Uint128 => Some(16),
        Builtin::TimePoint => Some(8),
        Builtin::TimePointSec | Builtin::BlockTimestamp => Some(4),
        Builtin::Varuint32 | Builtin::Bytes | Builtin::String => None,
        _ => match semantic_kind_of(b) {
            Some(kind) => Some(kind.size()),
            None => None,
        },
    }
}

/// Decodes the value of the built-in type `b`, which `ty` names, that starts
/// at `pos` in `data`, and returns it with the position after it.
pub fn decode_builtin(b: Builtin, ty: &str, data: &[u8], pos: usize) -> (r: Result<
    (Value, usize),
    CodecError,
>)
    requires
        pos <= data@.len(),
    ensures
        match r {
            Ok((v, next)) => decode_builtin_spec(b, ty@, data@, pos as nat) == Ok::<
                (ValueView, nat),
                CodecErrorView,
            >((v@, next as nat)) && pos <= next <= data@.len(),
            Err(e) => decode_builtin_spec(b, ty@, data@, pos as nat) == Err::<
                (ValueView, nat),
                CodecErrorView,
            >(e@),
        },
{
    let ghost rest = data@.subrange(pos as int, data@.len() as int);
    let len: usize = data.len();
    match width_of(b) {
        Some(w) => {
            if len - pos < w {
                return Err(CodecError::DecodeTruncated { ty: ty.to_owned(), offset: pos });
            }
            let bytes = slice_subrange(data, pos, pos + w);
            assert(bytes@ =~= rest.subrange(0, w as int));
            match unpack_fixed(b, bytes) {
                Some(value) => Ok((value, pos + w)),
                None => Err(CodecError::MalformedPrimitive { ty: ty.to_owned(), offset: pos }),
            }
        },
        None => {
            match decode_count(ty, data, pos) {
                Err(e) => Err(e),
                Ok((n, k)) => {
                    if b == Builtin::Varuint32 {
                        return Ok((Value::Uint32(n), pos + k));
                    }
                    if len - pos - k < n as usize {
                        return Err(
                            CodecError::DecodeTruncated { ty: ty.to_owned(), offset: pos },
                        );
                    }
                    let whole = slice_subrange(data, pos, len);
                    let (payload, used) = unpack_bytes(whole);
                    assert(used == k + n);
                    if b == Builtin::Bytes {
                        Ok((Value::Bytes(payload), pos + used))
                    } else {
                        match string_from_utf8(payload) {
                            Some(s) => Ok((Value::String(s), pos + used)),
                            None => Err(
                                CodecError::MalformedPrimitive { ty: ty.to_owned(), offset: pos },
                            ),
                        }
                    }
                },
            }
        },
    }
}

} // verus!
