//! The failures of the codec. None is recovered from silently: each reaches
//! the caller with the name, field or offset that it concerns.
use vstd::prelude::*;
use vstd::string::*;
use crate::text::{decimal_text, u64_text};
use crate::value::ValueKind;

verus! {

/// The tag of a variant that could not be matched: the member name given for
/// encoding, or the index read while decoding.
#[derive(Debug, PartialEq, Eq)]
pub enum VariantTag {
    Name(String),
    Index(u32),
}

/// The mathematical model of [`VariantTag`].
pub ghost enum VariantTagView {
    Name(Seq<char>),
    Index(u32),
}

impl View for VariantTag {
    type V = VariantTagView;

    open spec fn view(&self) -> VariantTagView {
        match self {
            VariantTag::Name(n) => VariantTagView::Name(n@),
            VariantTag::Index(i) => VariantTagView::Index(*i),
        }
    }
}

/// A failure of resolving, encoding or decoding.
#[derive(Debug, PartialEq, Eq)]
pub enum CodecError {
    /// `ty` names no built-in type, alias, variant or struct of the schema.
    UnknownType { ty: String },
    /// No schema is loaded for `account`.
    SchemaNotFound { account: String },
    /// The schema is malformed at `ty`: a chain of aliases or of base structs
    /// comes back to itself, or types nest without end.
    SchemaParseError { ty: String },
    /// The value does not have the shape that the type `expected` takes.
    WrongValueKindForType { expected: String, actual: ValueKind },
    /// A struct value lacks the declared field `field`.
    MissingField { field: String },
    /// `tag` selects no member of the variant `variant`.
    VariantTagOutOfRange { variant: String, tag: VariantTag },
    /// The presence byte of an optional, at `offset`, is neither 0 nor 1.
    MalformedOptionalFlag { flag: u8, offset: usize },
    /// The input ends before the value of type `ty` that starts at `offset`.
    DecodeTruncated { ty: String, offset: usize },
    /// The bytes at `offset` are not a value of the built-in type `ty`.
    MalformedPrimitive { ty: String, offset: usize },
    /// The byte counts reported while encoding do not add up to the number
    /// of bytes written.
    EncodeSizeMismatch { reported: usize, written: usize },
}

/// The mathematical model of [`CodecError`].
pub ghost enum CodecErrorView {
    UnknownType { ty: Seq<char> },
    SchemaNotFound { account: Seq<char> },
    SchemaParseError { ty: Seq<char> },
    WrongValueKindForType { expected: Seq<char>, actual: ValueKind },
    MissingField { field: Seq<char> },
    VariantTagOutOfRange { variant: Seq<char>, tag: VariantTagView },
    MalformedOptionalFlag { flag: u8, offset: nat },
    DecodeTruncated { ty: Seq<char>, offset: nat },
    MalformedPrimitive { ty: Seq<char>, offset: nat },
    EncodeSizeMismatch { reported: nat, written: nat },
}

impl View for CodecError {
    type V = CodecErrorView;

    open spec fn view(&self) -> CodecErrorView {
        match self {
            CodecError::UnknownType { ty } => CodecErrorView::UnknownType { ty: ty@ },
            CodecError::SchemaNotFound { account } => CodecErrorView::SchemaNotFound {
                account: account@,
            },
            CodecError::SchemaParseError { ty } => CodecErrorView::SchemaParseError { ty: ty@ },
            CodecError::WrongValueKindForType {
                expected,
                actual,
            } => CodecErrorView::WrongValueKindForType { expected: expected@, actual: *actual },
            CodecError::MissingField { field } => CodecErrorView::MissingField { field: field@ },
            CodecError::VariantTagOutOfRange {
                variant,
                tag,
            } => CodecErrorView::VariantTagOutOfRange { variant: variant@, tag: tag@ },
            CodecError::MalformedOptionalFlag {
                flag,
                offset,
            } => CodecErrorView::MalformedOptionalFlag { flag: *flag, offset: *offset as nat },
            CodecError::DecodeTruncated { ty, offset } => CodecErrorView::DecodeTruncated {
                ty: ty@,
                offset: *offset as nat,
            },
            CodecError::MalformedPrimitive { ty, offset } => CodecErrorView::MalformedPrimitive {
                ty: ty@,
                offset: *offset as nat,
            },
            CodecError::EncodeSizeMismatch {
                reported,
                written,
            } => CodecErrorView::EncodeSizeMismatch {
                reported: *reported as nat,
                written: *written as nat,
            },
        }
    }
}

/// The name of a kind of value.
pub open spec fn kind_name_spec(kind: ValueKind) -> Seq<char> {
    match kind {
        ValueKind::Null => "Null"@,
        ValueKind::Bool => "Bool"@,
        ValueKind::Int8 => "Int8"@,
        ValueKind::Int16 => "Int16"@,
        ValueKind::Int32 => "Int32"@,
        ValueKind::Int64 => "Int64"@,
        ValueKind::Int128 => "Int128"@,
        ValueKind::Uint8 => "Uint8"@,
        ValueKind::Uint16 => "Uint16"@,
        ValueKind::Uint32 => "Uint32"@,
        ValueKind::Uint64 => "Uint64"@,
        ValueKind::Uint128 => "Uint128"@,
        ValueKind::Float32 => "Float32"@,
        ValueKind::Float64 => "Float64"@,
        ValueKind::Bytes => "Bytes"@,
        ValueKind::String => "String"@,
        ValueKind::Array => "Array"@,
        ValueKind::Struct => "Struct"@,
        ValueKind::Semantic => "Semantic"@,
    }
}

/// The name of a kind of value.
pub fn kind_name(kind: ValueKind) -> (r: &'static str)
    ensures
        r@ == kind_name_spec(kind),
{
    match kind {
        ValueKind::Null => "Null",
        ValueKind::Bool => "Bool",
        ValueKind::Int8 => "Int8",
        ValueKind::Int16 => "Int16",
        ValueKind::Int32 => "Int32",
        ValueKind::Int64 => "Int64",
        ValueKind::Int128 => "Int128",
        ValueKind::Uint8 => "Uint8",
        ValueKind::Uint16 => "Uint16",
        ValueKind::Uint32 => "Uint32",
        ValueKind::Uint64 => "Uint64",
        ValueKind::Uint128 => "Uint128",
        ValueKind::Float32 => "Float32",
        ValueKind::Float64 => "Float64",
        ValueKind::Bytes => "Bytes",
        ValueKind::String => "String",
        ValueKind::Array => "Array",
        ValueKind::Struct => "Struct",
        ValueKind::Semantic => "Semantic",
    }
}

/// What a failure says of itself, in words.
pub open spec fn message_spec(e: CodecErrorView) -> Seq<char> {
    match e {
        CodecErrorView::UnknownType { ty } => "unknown type "@ + ty,
        CodecErrorView::SchemaNotFound { account } => "no schema is loaded for "@ + account,
        CodecErrorView::SchemaParseError { ty } => "the schema does not end at "@ + ty,
        CodecErrorView::WrongValueKindForType { expected, actual } => "the type "@ + expected
            + " does not take a value of kind "@ + kind_name_spec(actual),
        CodecErrorView::MissingField { field } => "missing field "@ + field,
        CodecErrorView::VariantTagOutOfRange { variant, tag } => match tag {
            VariantTagView::Name(name) => "the variant "@ + variant + " has no member "@ + name,
            VariantTagView::Index(index) => "the variant "@ + variant + " has no member at "@
                + decimal_text(index as nat),
        },
        CodecErrorView::MalformedOptionalFlag { flag, offset } => "the optional flag "@
            + decimal_text(flag as nat) + " is neither 0 nor 1, at offset "@ + decimal_text(offset),
        CodecErrorView::DecodeTruncated { ty, offset } => "the input ends within a value of type "@
            + ty + ", at offset "@ + decimal_text(offset),
        CodecErrorView::MalformedPrimitive { ty, offset } => "the bytes are no value of type "@
            + ty + ", at offset "@ + decimal_text(offset),
        CodecErrorView::EncodeSizeMismatch { reported, written } => "the encoder reported "@
            + decimal_text(reported) + " bytes and wrote "@ + decimal_text(written),
    }
}

impl CodecError {
    /// What the failure says of itself, in words.
    pub fn message(&self) -> (r: String)
        ensures
            r@ == message_spec(self@),
    {
        match self {
            CodecError::UnknownType { ty } => {
                let mut text: String = String::from_str("unknown type ");
                text.append(ty.as_str());
                text
            },
            CodecError::SchemaNotFound { account } => {
                let mut text: String = String::from_str("no schema is loaded for ");
                text.append(account.as_str());
                text
            },
            CodecError::SchemaParseError { ty } => {
                let mut text: String = String::from_str("the schema does not end at ");
                text.append(ty.as_str());
                text
            },
            CodecError::WrongValueKindForType { expected, actual } => {
                let mut text: String = String::from_str("the type ");
                text.append(expected.as_str());
                text.append(" does not take a value of kind ");
                text.append(kind_name(*actual));
                text
            },
            CodecError::MissingField { field } => {
                let mut text: String = String::from_str("missing field ");
                text.append(field.as_str());
                text
            },
            CodecError::VariantTagOutOfRange { variant, tag } => {
                let mut text: String = String::from_str("the variant ");
                text.append(variant.as_str());
                match tag {
                    VariantTag::Name(name) => {
                        text.append(" has no member ");
                        text.append(name.as_str());
                    },
                    VariantTag::Index(index) => {
                        text.append(" has no member at ");
                        text.append(u64_text(*index as u64).as_str());
                    },
                }
                text
            },
            CodecError::MalformedOptionalFlag { flag, offset } => {
                let mut text: String = String::from_str("the optional flag ");
                text.append(u64_text(*flag as u64).as_str());
                text.append(" is neither 0 nor 1, at offset ");
                text.append(u64_text(*offset as u64).as_str());
                text
            },
            CodecError::DecodeTruncated { ty, offset } => {
                let mut text: String = String::from_str("the input ends within a value of type ");
                text.append(ty.as_str());
                text.append(", at offset ");
                text.append(u64_text(*offset as u64).as_str());
                text
            },
            CodecError::MalformedPrimitive { ty, offset } => {
                let mut text: String = String::from_str("the bytes are no value of type ");
                text.append(ty.as_str());
                text.append(", at offset ");
                text.append(u64_text(*offset as u64).as_str());
                text
            },
            CodecError::EncodeSizeMismatch { reported, written } => {
                let mut text: String = String::from_str("the encoder reported ");
                text.append(u64_text(*reported as u64).as_str());
                text.append(" bytes and wrote ");
                text.append(u64_text(*written as u64).as_str());
                text
            },
        }
    }
}

} // verus!
