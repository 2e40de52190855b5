//! Resolution of a type name against a schema.
//!
//! A type name may end in one modifier: `?` (optional), `[]` (array) or `$`
//! (binary extension). What is left after the modifier is resolved in turn,
//! so that modifiers nest from the right. A bare name is looked up among the
//! built-in types, then the aliases, the variants and the structs.
//!
//! The extension modifier is for the last fields of a struct at the end of
//! the input: whether such a field is present is told by whether input
//! remains. Anywhere else an absent extension cannot be told from what
//! follows it.
use vstd::prelude::*;
use vstd::string::*;
use crate::abi::{Abi, AbiField, AbiFieldView, AbiStruct, AbiStructView, AbiVariant, AbiVariantView, AbiView, clone_fields, field_views};
use crate::error::{CodecError, CodecErrorView};
use crate::text::{index_of, str_eq};

verus! {

/// The built-in scalar and chain types.
#[derive(Clone, Copy, Debug, PartialEq, Eq, Structural)]
pub enum Builtin {
    Bool,
    Int8,
    Int16,
    Int32,
    Int64,
    Int128,
    Uint8,
    Uint16,
    Uint32,
    Uint64,
    Uint128,
    Varuint32,
    Float32,
    Float64,
    Bytes,
    String,
    Name,
    Checksum160,
    Checksum256,
    Checksum512,
    SymbolCode,
    Symbol,
    Asset,
    ExtendedAsset,
    PublicKey,
    Signature,
    TimePoint,
    TimePointSec,
    BlockTimestamp,
}

/// The built-in type that `ty` names, if any.
pub open spec fn builtin_spec(ty: Seq<char>) -> Option<Builtin> {
    if ty == "bool"@ {
        Some(Builtin::Bool)
    } else if ty == "int8"@ {
        Some(Builtin::Int8)
    } else if ty == "int16"@ {
        Some(Builtin::Int16)
    } else if ty == "int32"@ {
        Some(Builtin::Int32)
    } else if ty == "int64"@ {
        Some(Builtin::Int64)
    } else if ty == "int128"@ {
        Some(Builtin::Int128)
    } else if ty == "uint8"@ {
        Some(Builtin::Uint8)
    } else if ty == "uint16"@ {
        Some(Builtin::Uint16)
    } else if ty == "uint32"@ {
        Some(Builtin::Uint32)
    } else if ty == "uint64"@ {
        Some(Builtin::Uint64)
    } else if ty == "uint128"@ {
        Some(Builtin::Uint128)
    } else if ty == "varuint32"@ {
        Some(Builtin::Varuint32)
    } else if ty == "float32"@ {
        Some(Builtin::Float32)
    } else if ty == "float64"@ {
        Some(Builtin::Float64)
    } else if ty == "bytes"@ {
        Some(Builtin::Bytes)
    } else if ty == "string"@ {
        Some(Builtin::String)
    } else if ty == "name"@ || ty == "account_name"@ {
        Some(Builtin::Name)
    } else if ty == "checksum160"@ || ty == "rd160"@ {
        Some(Builtin::Checksum160)
    } else if ty == "checksum256"@ || ty == "sha256"@ {
        Some(Builtin::Checksum256)
    } else if ty == "checksum512"@ {
        Some(Builtin::Checksum512)
    } else if ty == "symbol_code"@ {
        Some(Builtin::SymbolCode)
    } else if ty == "symbol"@ {
        Some(Builtin::Symbol)
    } else if ty == "asset"@ {
        Some(Builtin::Asset)
    } else if ty == "extended_asset"@ {
        Some(Builtin::ExtendedAsset)
    } else if ty == "public_key"@ {
        Some(Builtin::PublicKey)
    } else if ty == "signature"@ {
        Some(Builtin::Signature)
    } else if ty == "time_point"@ {
        Some(Builtin::TimePoint)
    } else if ty == "time_point_sec"@ {
        Some(Builtin::TimePointSec)
    } else if ty == "block_timestamp_type"@ {
        Some(Builtin::BlockTimestamp)
    } else {
        None
    }
}

/// The built-in type that `ty` names, if any.
pub fn builtin(ty: &str) -> (r: Option<Builtin>)
    ensures
        r == builtin_spec(ty@),
{
    if str_eq(ty, "bool") {
        Some(Builtin::Bool)
    } else if str_eq(ty, "int8") {
        Some(Builtin::Int8)
    } else if str_eq(ty, "int16") {
        Some(Builtin::Int16)
    } else if str_eq(ty, "int32") {
        Some(Builtin::Int32)
    } else if str_eq(ty, "int64") {
        Some(Builtin::Int64)
    } else if str_eq(ty, "int128") {
        Some(Builtin::Int128)
    } else if str_eq(ty, "uint8") {
        Some(Builtin::Uint8)
    } else if str_eq(ty, "uint16") {
        Some(Builtin::Uint16)
    } else if str_eq(ty, "uint32") {
        Some(Builtin::Uint32)
    } else if str_eq(ty, "uint64") {
        Some(Builtin::Uint64)
    } else if str_eq(ty, "uint128") {
        Some(Builtin::Uint128)
    } else if str_eq(ty, "varuint32") {
        Some(Builtin::Varuint32)
    } else if str_eq(ty, "float32") {
        Some(Builtin::Float32)
    } else if str_eq(ty, "float64") {
        Some(Builtin::Float64)
    } else if str_eq(ty, "bytes") {
        Some(Builtin::Bytes)
    } else if str_eq(ty, "string") {
        Some(Builtin::String)
    } else if str_eq(ty, "name") || str_eq(ty, "account_name") {
        Some(Builtin::Name)
    } else if str_eq(ty, "checksum160") || str_eq(ty, "rd160") {
        Some(Builtin::Checksum160)
    } else if str_eq(ty, "checksum256") || str_eq(ty, "sha256") {
        Some(Builtin::Checksum256)
    } else if str_eq(ty, "checksum512") {
        Some(Builtin::Checksum512)
    } else if str_eq(ty, "symbol_code") {
        Some(Builtin::SymbolCode)
    } else if str_eq(ty, "symbol") {
        Some(Builtin::Symbol)
    } else if str_eq(ty, "asset") {
        Some(Builtin::Asset)
    } else if str_eq(ty, "extended_asset") {
        Some(Builtin::ExtendedAsset)
    } else if str_eq(ty, "public_key") {
        Some(Builtin::PublicKey)
    } else if str_eq(ty, "signature") {
        Some(Builtin::Signature)
    } else if str_eq(ty, "time_point") {
        Some(Builtin::TimePoint)
    } else if str_eq(ty, "time_point_sec") {
        Some(Builtin::TimePointSec)
    } else if str_eq(ty, "block_timestamp_type") {
        Some(Builtin::BlockTimestamp)
    } else {
        None
    }
}

/// The modifier that a type name ends in.
#[derive(Clone, Copy, Debug, PartialEq, Eq, Structural)]
pub enum Modifier {
    Optional,
    Array,
    Extension,
}

/// The modifier that `ty` ends in and the name that it applies to.
pub open spec fn split_modifier_spec(ty: Seq<char>) -> Option<(Modifier, Seq<char>)> {
    let n = ty.len() as int;
    if n >= 1 && ty[n - 1] == '?' {
        Some((Modifier::Optional, ty.subrange(0, n - 1)))
    } else if n >= 2 && ty[n - 2] == '[' && ty[n - 1] == ']' {
        Some((Modifier::Array, ty.subrange(0, n - 2)))
    } else if n >= 1 && ty[n - 1] == '$' {
        Some((Modifier::Extension, ty.subrange(0, n - 1)))
    } else {
        None
    }
}

/// The modifier that `ty` ends in and the name that it applies to.
pub fn split_modifier(ty: &str) -> (r: Option<(Modifier, &str)>)
    ensures
        match r {
            Some((m, rest)) => split_modifier_spec(ty@) == Some((m, rest@)),
            None => split_modifier_spec(ty@).is_none(),
        },
{
    let n: usize = ty.unicode_len();
    if n == 0 {
        return None;
    }
    let last: char = ty.get_char(n - 1);
    if last == '?' {
        Some((Modifier::Optional, ty.substring_char(0, n - 1)))
    } else if last == ']' && n >= 2 && ty.get_char(n - 2) == '[' {
        Some((Modifier::Array, ty.substring_char(0, n - 2)))
    } else if last == '$' {
        Some((Modifier::Extension, ty.substring_char(0, n - 1)))
    } else {
        None
    }
}

/// What a type name stands for in a schema.
#[derive(Debug, PartialEq, Eq)]
pub enum ResolvedType {
    /// A built-in type, by its name.
    Standard(String),
    /// An alias, with what its target resolves to.
    Alias(Box<ResolvedType>),
    /// A value that may be absent.
    Optional(Box<ResolvedType>),
    /// A counted sequence of values of one type.
    Array(Box<ResolvedType>),
    /// A trailing field that is present only while input remains. It is
    /// sound as the outermost modifier of the last fields of a struct.
    Extension(Box<ResolvedType>),
    /// A tagged union.
    Variant(AbiVariant),
    /// A struct, with its base and its own fields.
    Struct(AbiStruct),
}

/// The mathematical model of [`ResolvedType`].
pub ghost enum ResolvedTypeView {
    Standard(Seq<char>),
    Alias(Box<ResolvedTypeView>),
    Optional(Box<ResolvedTypeView>),
    Array(Box<ResolvedTypeView>),
    Extension(Box<ResolvedTypeView>),
    Variant(AbiVariantView),
    Struct(AbiStructView),
}

impl ResolvedTypeView {
    /// Number of aliases and modifiers around the named or built-in type.
    pub open spec fn depth(self) -> nat
        decreases self,
    {
        match self {
            ResolvedTypeView::Alias(inner) => 1 + inner.depth(),
            ResolvedTypeView::Optional(inner) => 1 + inner.depth(),
            ResolvedTypeView::Array(inner) => 1 + inner.depth(),
            ResolvedTypeView::Extension(inner) => 1 + inner.depth(),
            _ => 0,
        }
    }
}

/// The model of a resolved type, by recursion on its structure.
pub open spec fn resolved_view(r: ResolvedType) -> ResolvedTypeView
    decreases r,
{
    match r {
        ResolvedType::Standard(name) => ResolvedTypeView::Standard(name@),
        ResolvedType::Alias(inner) => ResolvedTypeView::Alias(Box::new(resolved_view(*inner))),
        ResolvedType::Optional(inner) => ResolvedTypeView::Optional(
            Box::new(resolved_view(*inner)),
        ),
        ResolvedType::Array(inner) => ResolvedTypeView::Array(Box::new(resolved_view(*inner))),
        ResolvedType::Extension(inner) => ResolvedTypeView::Extension(
            Box::new(resolved_view(*inner)),
        ),
        ResolvedType::Variant(v) => ResolvedTypeView::Variant(v@),
        ResolvedType::Struct(s) => ResolvedTypeView::Struct(s@),
    }
}

impl View for ResolvedType {
    type V = ResolvedTypeView;

    open spec fn view(&self) -> ResolvedTypeView {
        resolved_view(*self)
    }
}

/// The type that `modifier` makes of `inner`.
pub open spec fn apply_modifier(modifier: Modifier, inner: ResolvedTypeView) -> ResolvedTypeView {
    match modifier {
        Modifier::Optional => ResolvedTypeView::Optional(Box::new(inner)),
        Modifier::Array => ResolvedTypeView::Array(Box::new(inner)),
        Modifier::Extension => ResolvedTypeView::Extension(Box::new(inner)),
    }
}

/// What `ty` resolves to when at most `budget` aliases may be followed.
///
/// A name that ends in a modifier resolves to the modifier applied to what
/// the rest resolves to. A bare name is, in this order, a built-in type, an
/// alias, a variant or a struct. Following more aliases than the budget
/// allows is a `SchemaParseError`; a name that is none of these is an
/// `UnknownType`.
pub open spec fn resolve_with_budget_spec(abi: AbiView, ty: Seq<char>, budget: nat) -> Result<
    ResolvedTypeView,
    CodecErrorView,
>
    decreases budget, ty.len(),
{
    match split_modifier_spec(ty) {
        Some((modifier, rest)) => match resolve_with_budget_spec(abi, rest, budget) {
            Ok(inner) => Ok(apply_modifier(modifier, inner)),
            Err(e) => Err(e),
        },
        None => if builtin_spec(ty).is_some() {
            Ok(ResolvedTypeView::Standard(ty))
        } else {
            match index_of(abi.alias_names(), ty) {
                Some(i) => if budget == 0 {
                    Err(CodecErrorView::SchemaParseError { ty })
                } else {
                    match resolve_with_budget_spec(abi, abi.types[i].ty, (budget - 1) as nat) {
                        Ok(inner) => Ok(ResolvedTypeView::Alias(Box::new(inner))),
                        Err(e) => Err(e),
                    }
                },
                None => match index_of(abi.variant_names(), ty) {
                    Some(i) => Ok(ResolvedTypeView::Variant(abi.variants[i])),
                    None => match index_of(abi.struct_names(), ty) {
                        Some(i) => Ok(ResolvedTypeView::Struct(abi.structs[i])),
                        None => Err(CodecErrorView::UnknownType { ty }),
                    },
                },
            }
        },
    }
}

/// What `ty` resolves to in `abi`. A chain of aliases that does not come
/// back to itself follows each alias at most once, so the number of aliases
/// is budget enough for it.
pub open spec fn resolve_spec(abi: AbiView, ty: Seq<char>) -> Result<
    ResolvedTypeView,
    CodecErrorView,
> {
    resolve_with_budget_spec(abi, ty, abi.types.len())
}

/// Resolves `ty`, following at most `budget` aliases.
pub fn resolve_with_budget(abi: &Abi, ty: &str, budget: usize) -> (r: Result<
    ResolvedType,
    CodecError,
>)
    ensures
        match r {
            Ok(t) => resolve_with_budget_spec(abi@, ty@, budget as nat) == Ok::<
                ResolvedTypeView,
                CodecErrorView,
            >(t@),
            Err(e) => resolve_with_budget_spec(abi@, ty@, budget as nat) == Err::<
                ResolvedTypeView,
                CodecErrorView,
            >(e@),
        },
    decreases budget, ty@.len(),
{
    match split_modifier(ty) {
        Some((modifier, rest)) => {
            match resolve_with_budget(abi, rest, budget) {
                Ok(inner) => {
                    let boxed: Box<ResolvedType> = Box::new(inner);
                    Ok(
                        match modifier {
                            Modifier::Optional => ResolvedType::Optional(boxed),
                            Modifier::Array => ResolvedType::Array(boxed),
                            Modifier::Extension => ResolvedType::Extension(boxed),
                        },
                    )
                },
                Err(e) => Err(e),
            }
        },
        None => {
            if builtin(ty).is_some() {
                return Ok(ResolvedType::Standard(ty.to_owned()));
            }
            match abi.find_alias(ty) {
                Some(i) => {
                    if budget == 0 {
                        return Err(CodecError::SchemaParseError { ty: ty.to_owned() });
                    }
                    match resolve_with_budget(abi, abi.types[i].ty.as_str(), budget - 1) {
                        Ok(inner) => Ok(ResolvedType::Alias(Box::new(inner))),
                        Err(e) => Err(e),
                    }
                },
                None => match abi.find_variant(ty) {
                    Some(i) => Ok(ResolvedType::Variant(abi.variants[i].clone())),
                    None => match abi.find_struct(ty) {
                        Some(i) => Ok(ResolvedType::Struct(abi.structs[i].clone())),
                        None => Err(CodecError::UnknownType { ty: ty.to_owned() }),
                    },
                },
            }
        },
    }
}

impl Abi {
    /// Resolves the type name `ty` against this schema.
    pub fn resolve_type(&self, ty: &str) -> (r: Result<ResolvedType, CodecError>)
        ensures
            match r {
                Ok(t) => resolve_spec(self@, ty@) == Ok::<ResolvedTypeView, CodecErrorView>(t@),
                Err(e) => resolve_spec(self@, ty@) == Err::<ResolvedTypeView, CodecErrorView>(
                    e@,
                ),
            },
    {
        resolve_with_budget(self, ty, self.types.len())
    }
}

/// The fields of the struct `s`, those of its base first, when at most
/// `budget` bases may be followed.
pub open spec fn struct_fields_with_budget_spec(abi: AbiView, s: AbiStructView, budget: nat) -> Result<
    Seq<AbiFieldView>,
    CodecErrorView,
>
    decreases budget,
{
    match s.base {
        None => Ok(s.fields),
        Some(base) => if budget == 0 {
            Err(CodecErrorView::SchemaParseError { ty: s.name })
        } else {
            match index_of(abi.struct_names(), base) {
                None => Err(CodecErrorView::UnknownType { ty: base }),
                Some(i) => match struct_fields_with_budget_spec(
                    abi,
                    abi.structs[i],
                    (budget - 1) as nat,
                ) {
                    Ok(inherited) => Ok(inherited + s.fields),
                    Err(e) => Err(e),
                },
            }
        },
    }
}

/// The fields of the struct `s` in wire order: those of its base, and of the
/// base of that, come first. A base that names no struct is an
/// `UnknownType`; a chain of bases that comes back to itself is a
/// `SchemaParseError`.
pub open spec fn struct_fields_spec(abi: AbiView, s: AbiStructView) -> Result<
    Seq<AbiFieldView>,
    CodecErrorView,
> {
    struct_fields_with_budget_spec(abi, s, abi.structs.len())
}

/// The fields of `s`, those of its base first, following at most `budget`
/// bases.
pub fn struct_fields_with_budget(abi: &Abi, s: &AbiStruct, budget: usize) -> (r: Result<
    Vec<AbiField>,
    CodecError,
>)
    ensures
        match r {
            Ok(f) => struct_fields_with_budget_spec(abi@, s@, budget as nat) == Ok::<
                Seq<AbiFieldView>,
                CodecErrorView,
            >(field_views(f@)),
            Err(e) => struct_fields_with_budget_spec(abi@, s@, budget as nat) == Err::<
                Seq<AbiFieldView>,
                CodecErrorView,
            >(e@),
        },
    decreases budget,
{
    match &s.base {
        None => Ok(clone_fields(&s.fields)),
        Some(base) => {
            if budget == 0 {
                return Err(CodecError::SchemaParseError { ty: s.name.clone() });
            }
            match abi.find_struct(base.as_str()) {
                None => Err(CodecError::UnknownType { ty: base.clone() }),
                Some(i) => match struct_fields_with_budget(abi, &abi.structs[i], budget - 1) {
                    Ok(inherited) => {
                        let mut all: Vec<AbiField> = inherited;
                        let mut own: Vec<AbiField> = clone_fields(&s.fields);
                        let ghost before = field_views(all@);
                        let ghost added = field_views(own@);
                        all.append(&mut own);
                        assert(field_views(all@) =~= before + added);
                        Ok(all)
                    },
                    Err(e) => Err(e),
                },
            }
        },
    }
}

impl Abi {
    /// The fields of `s` in wire order, inherited ones first.
    pub fn struct_fields(&self, s: &AbiStruct) -> (r: Result<Vec<AbiField>, CodecError>)
        ensures
            match r {
                Ok(f) => struct_fields_spec(self@, s@) == Ok::<Seq<AbiFieldView>, CodecErrorView>(
                    field_views(f@),
                ),
                Err(e) => struct_fields_spec(self@, s@) == Err::<
                    Seq<AbiFieldView>,
                    CodecErrorView,
                >(e@),
            },
    {
        struct_fields_with_budget(self, s, self.structs.len())
    }
}

} // verus!
