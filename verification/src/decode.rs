//! The decoder: it walks a resolved type along the input bytes and produces
//! the value.
use vstd::prelude::*;
use vstd::string::*;
use crate::abi::{Abi, AbiField, AbiFieldView, AbiView, field_views};
use crate::error::{CodecError, CodecErrorView, VariantTag, VariantTagView};
use crate::primitive::{decode_builtin, decode_builtin_spec, decode_count, decode_count_spec};
use crate::resolve::{
    ResolvedType, ResolvedTypeView, builtin, builtin_spec, resolve_spec, struct_fields_spec,
};
use crate::text::index_of;
use crate::value::{Value, ValueView, entry_names, entry_views, find_entry, item_views};

verus! {

/// The entries `entries` after `value` is put under `name`: in place of the
/// value of the first entry so named, or else at the end.
pub open spec fn entries_insert(
    entries: Seq<(Seq<char>, ValueView)>,
    name: Seq<char>,
    value: ValueView,
) -> Seq<(Seq<char>, ValueView)> {
    match index_of(entry_names(entries), name) {
        Some(i) => entries.update(i, (name, value)),
        None => entries.push((name, value)),
    }
}

/// The value of the resolved type `rt` that starts at `pos` in `data`, with
/// the position after it, when types may nest `fuel` deep.
///
/// * An optional starts with one byte: 0 for `Null`, 1 before the value, any
///   other a `MalformedOptionalFlag`.
/// * An extension is `Null`, with no byte read, at the end of the input, and
///   the value anywhere else.
/// * An array is a count in variable-length form and then that many items.
/// * A variant is the position of a member type in variable-length form and
///   then a value of that type; the result pairs the name of the member type
///   with the value. A position beyond the members is a
///   `VariantTagOutOfRange`.
/// * A struct is its fields in order, inherited ones first; the result holds
///   each under its name.
/// * A built-in type is what the codec of built-in types reads.
///
/// Each field of a struct and each member of a variant takes one unit of
/// fuel. Where none is left the result is a `SchemaParseError`.
pub open spec fn decode_resolved_spec(
    abi: AbiView,
    rt: ResolvedTypeView,
    data: Seq<u8>,
    pos: nat,
    fuel: nat,
) -> Result<(ValueView, nat), CodecErrorView>
    decreases fuel, 1nat, 2 * rt.depth(), 0nat,
{
    match rt {
        ResolvedTypeView::Standard(name) => match builtin_spec(name) {
            Some(b) => decode_builtin_spec(b, name, data, pos),
            None => Err(CodecErrorView::UnknownType { ty: name }),
        },
        ResolvedTypeView::Alias(inner) => decode_resolved_spec(abi, *inner, data, pos, fuel),
        ResolvedTypeView::Optional(inner) => if pos >= data.len() {
            Err(CodecErrorView::DecodeTruncated { ty: "?"@, offset: pos })
        } else if data[pos as int] == 0 {
            Ok((ValueView::Null, pos + 1))
        } else if data[pos as int] == 1 {
            decode_resolved_spec(abi, *inner, data, pos + 1, fuel)
        } else {
            Err(CodecErrorView::MalformedOptionalFlag { flag: data[pos as int], offset: pos })
        },
        ResolvedTypeView::Extension(inner) => if pos < data.len() {
            decode_resolved_spec(abi, *inner, data, pos, fuel)
        } else {
            Ok((ValueView::Null, pos))
        },
        ResolvedTypeView::Array(inner) => match decode_count_spec(
            "[]"@,
            data.subrange(pos as int, data.len() as int),
            pos,
        ) {
            Err(e) => Err(e),
            Ok((n, k)) => match decode_items_spec(abi, *inner, data, pos + k, n as nat, fuel) {
                Err(e) => Err(e),
                Ok((items, next)) => Ok((ValueView::Array(items), next)),
            },
        },
        ResolvedTypeView::Variant(variant) => match decode_count_spec(
            variant.name,
            data.subrange(pos as int, data.len() as int),
            pos,
        ) {
            Err(e) => Err(e),
            Ok((tag, k)) => if tag >= variant.types.len() {
                Err(
                    CodecErrorView::VariantTagOutOfRange {
                        variant: variant.name,
                        tag: VariantTagView::Index(tag),
                    },
                )
            } else {
                let member = variant.types[tag as int];
                if fuel == 0 {
                    Err(CodecErrorView::SchemaParseError { ty: member })
                } else {
                    match resolve_spec(abi, member) {
                        Err(e) => Err(e),
                        Ok(inner) => match decode_resolved_spec(
                            abi,
                            inner,
                            data,
                            pos + k,
                            (fuel - 1) as nat,
                        ) {
                            Err(e) => Err(e),
                            Ok((value, next)) => Ok(
                                (ValueView::Array(seq![ValueView::String(member), value]), next),
                            ),
                        },
                    }
                }
            },
        },
        ResolvedTypeView::Struct(s) => match struct_fields_spec(abi, s) {
            Err(e) => Err(e),
            Ok(fields) => match decode_fields_spec(abi, fields, data, pos, fuel) {
                Err(e) => Err(e),
                Ok((entries, next)) => Ok((ValueView::Struct(entries), next)),
            },
        },
    }
}

/// The `n` values of the type `inner` that follow one another from `pos` in
/// `data`, with the position after the last.
pub open spec fn decode_items_spec(
    abi: AbiView,
    inner: ResolvedTypeView,
    data: Seq<u8>,
    pos: nat,
    n: nat,
    fuel: nat,
) -> Result<(Seq<ValueView>, nat), CodecErrorView>
    decreases fuel, 1nat, 2 * inner.depth() + 1, n,
{
    if n == 0 {
        Ok((Seq::empty(), pos))
    } else {
        match decode_items_spec(abi, inner, data, pos, (n - 1) as nat, fuel) {
            Err(e) => Err(e),
            Ok((items, at)) => match decode_resolved_spec(abi, inner, data, at, fuel) {
                Err(e) => Err(e),
                Ok((value, next)) => Ok((items.push(value), next)),
            },
        }
    }
}

/// The values of the fields `fields` that follow one another from `pos` in
/// `data`, each under the name of its field, with the position after the
/// last.
pub open spec fn decode_fields_spec(
    abi: AbiView,
    fields: Seq<AbiFieldView>,
    data: Seq<u8>,
    pos: nat,
    fuel: nat,
) -> Result<(Seq<(Seq<char>, ValueView)>, nat), CodecErrorView>
    decreases fuel, 0nat, fields.len(), 0nat,
{
    if fields.len() == 0 {
        Ok((Seq::empty(), pos))
    } else {
        match decode_fields_spec(abi, fields.drop_last(), data, pos, fuel) {
            Err(e) => Err(e),
            Ok((entries, at)) => {
                let field = fields.last();
                if fuel == 0 {
                    Err(CodecErrorView::SchemaParseError { ty: field.ty })
                } else {
                    match resolve_spec(abi, field.ty) {
                        Err(e) => Err(e),
                        Ok(rt) => match decode_resolved_spec(abi, rt, data, at, (fuel - 1) as nat) {
                            Err(e) => Err(e),
                            Ok((value, next)) => Ok(
                                (entries_insert(entries, field.name, value), next),
                            ),
                        },
                    }
                }
            },
        }
    }
}

/// How deep types may nest while `len` bytes are decoded. Between two bytes
/// read, a decoding that ends enters each struct and each variant at most
/// once.
pub open spec fn decode_fuel(abi: AbiView, len: nat) -> nat {
    let wanted = (len + 1) * (abi.structs.len() + abi.variants.len() + 1);
    if wanted <= usize::MAX {
        wanted
    } else {
        usize::MAX as nat
    }
}

/// The value of the type that `ty` names in `abi` that starts at `pos` in
/// `data`, with the position after it.
pub open spec fn decode_at_spec(abi: AbiView, ty: Seq<char>, data: Seq<u8>, pos: nat) -> Result<
    (ValueView, nat),
    CodecErrorView,
> {
    match resolve_spec(abi, ty) {
        Err(e) => Err(e),
        Ok(rt) => decode_resolved_spec(abi, rt, data, pos, decode_fuel(abi, data.len())),
    }
}

/// The value of the type that `ty` names in `abi` at the start of `data`.
/// Bytes after the value are not looked at.
pub open spec fn decode_spec(abi: AbiView, ty: Seq<char>, data: Seq<u8>) -> Result<
    ValueView,
    CodecErrorView,
> {
    match decode_at_spec(abi, ty, data, 0) {
        Err(e) => Err(e),
        Ok((value, next)) => Ok(value),
    }
}

/// Puts `value` under `name`: in place of the value of the first entry so
/// named, or else at the end.
pub fn insert_entry(entries: Vec<(String, Value)>, name: String, value: Value) -> (r: Vec<
    (String, Value),
>)
    ensures
        entry_views(r@) == entries_insert(entry_views(entries@), name@, value@),
{
    let mut out: Vec<(String, Value)> = entries;
    match find_entry(&out, name.as_str()) {
        Some(i) => {
            let ghost before = entry_views(out@);
            out.push((name, value));
            let last: (String, Value) = out.swap_remove(i);
            assert(entry_views(out@) =~= before.update(i as int, (name@, value@)));
        },
        None => {
            let ghost before = entry_views(out@);
            out.push((name, value));
            assert(entry_views(out@) =~= before.push((name@, value@)));
        },
    }
    out
}

/// The model of the result of decoding one value.
pub open spec fn value_result(r: Result<(Value, usize), CodecError>) -> Result<
    (ValueView, nat),
    CodecErrorView,
> {
    match r {
        Ok((value, next)) => Ok((value@, next as nat)),
        Err(e) => Err(e@),
    }
}

/// The model of the result of decoding the items of an array.
pub open spec fn items_result(r: Result<(Vec<Value>, usize), CodecError>) -> Result<
    (Seq<ValueView>, nat),
    CodecErrorView,
> {
    match r {
        Ok((items, next)) => Ok((item_views(items@), next as nat)),
        Err(e) => Err(e@),
    }
}

/// The model of the result of decoding the fields of a struct.
pub open spec fn entries_result(r: Result<(Vec<(String, Value)>, usize), CodecError>) -> Result<
    (Seq<(Seq<char>, ValueView)>, nat),
    CodecErrorView,
> {
    match r {
        Ok((entries, next)) => Ok((entry_views(entries@), next as nat)),
        Err(e) => Err(e@),
    }
}

/// Decodes the value of the resolved type `rt` that starts at `pos` in
/// `data`, and returns it with the position after it.
pub fn decode_resolved(abi: &Abi, rt: &ResolvedType, data: &[u8], pos: usize, fuel: usize) -> (r:
    Result<(Value, usize), CodecError>)
    requires
        pos <= data@.len(),
    ensures
        value_result(r) == decode_resolved_spec(abi@, rt@, data@, pos as nat, fuel as nat),
        r matches Ok((_, next)) ==> pos <= next <= data@.len(),
    decreases fuel, 1nat, 2 * rt@.depth(), 0nat,
{
    let len: usize = data.len();
    match rt {
        ResolvedType::Standard(name) => match builtin(name.as_str()) {
            Some(b) => decode_builtin(b, name.as_str(), data, pos),
            None => Err(CodecError::UnknownType { ty: name.clone() }),
        },
        ResolvedType::Alias(inner) => decode_resolved(abi, inner, data, pos, fuel),
        ResolvedType::Optional(inner) => {
            if pos >= len {
                return Err(CodecError::DecodeTruncated { ty: "?".to_owned(), offset: pos });
            }
            let flag: u8 = data[pos];
            if flag == 0 {
                Ok((Value::Null, pos + 1))
            } else if flag == 1 {
                decode_resolved(abi, inner, data, pos + 1, fuel)
            } else {
                Err(CodecError::MalformedOptionalFlag { flag, offset: pos })
            }
        },
        ResolvedType::Extension(inner) => {
            if pos < len {
                decode_resolved(abi, inner, data, pos, fuel)
            } else {
                Ok((Value::Null, pos))
            }
        },
        ResolvedType::Array(inner) => match decode_count("[]", data, pos) {
            Err(e) => Err(e),
            Ok((n, k)) => match decode_items(abi, inner, data, pos + k, n, fuel) {
                Err(e) => Err(e),
                Ok((items, next)) => {
                    proof {
                        Value::lemma_view_array(items);
                    }
                    Ok((Value::Array(items), next))
                },
            },
        },
        ResolvedType::Variant(variant) => match decode_count(variant.name.as_str(), data, pos) {
            Err(e) => Err(e),
            Ok((tag, k)) => {
                if tag as usize >= variant.types.len() {
                    return Err(
                        CodecError::VariantTagOutOfRange {
                            variant: variant.name.clone(),
                            tag: VariantTag::Index(tag),
                        },
                    );
                }
                let member: &String = &variant.types[tag as usize];
                if fuel == 0 {
                    return Err(CodecError::SchemaParseError { ty: member.clone() });
                }
                match abi.resolve_type(member.as_str()) {
                    Err(e) => Err(e),
                    Ok(inner) => match decode_resolved(abi, &inner, data, pos + k, fuel - 1) {
                        Err(e) => Err(e),
                        Ok((value, next)) => {
                            let mut pair: Vec<Value> = Vec::new();
                            pair.push(Value::String(member.clone()));
                            pair.push(value);
                            proof {
                                Value::lemma_view_array(pair);
                                assert(item_views(pair@) =~= seq![
                                    ValueView::String(member@),
                                    value@,
                                ]);
                            }
                            Ok((Value::Array(pair), next))
                        },
                    },
                }
            },
        },
        ResolvedType::Struct(s) => match abi.struct_fields(s) {
            Err(e) => Err(e),
            Ok(fields) => match decode_fields(abi, &fields, data, pos, fuel) {
                Err(e) => Err(e),
                Ok((entries, next)) => {
                    proof {
                        Value::lemma_view_struct(entries);
                    }
                    Ok((Value::Struct(entries), next))
                },
            },
        },
    }
}

/// Once some count of items fails, every greater count fails alike.
pub proof fn lemma_decode_items_error(
    abi: AbiView,
    inner: ResolvedTypeView,
    data: Seq<u8>,
    pos: nat,
    m: nat,
    n: nat,
    fuel: nat,
)
    requires
        m <= n,
        decode_items_spec(abi, inner, data, pos, m, fuel) is Err,
    ensures
        decode_items_spec(abi, inner, data, pos, n, fuel) == decode_items_spec(
            abi,
            inner,
            data,
            pos,
            m,
            fuel,
        ),
    decreases n - m,
{
    if m < n {
        lemma_decode_items_error(abi, inner, data, pos, m, (n - 1) as nat, fuel);
    }
}

/// Decodes the `n` values of the type `inner` that follow one another from
/// `pos` in `data`, and returns them with the position after the last.
pub fn decode_items(
    abi: &Abi,
    inner: &ResolvedType,
    data: &[u8],
    pos: usize,
    n: u32,
    fuel: usize,
) -> (r: Result<(Vec<Value>, usize), CodecError>)
    requires
        pos <= data@.len(),
    ensures
        items_result(r) == decode_items_spec(
            abi@,
            inner@,
            data@,
            pos as nat,
            n as nat,
            fuel as nat,
        ),
        r matches Ok((_, next)) ==> pos <= next <= data@.len(),
    decreases fuel, 1nat, 2 * inner@.depth() + 1, n,
{
    let mut items: Vec<Value> = Vec::new();
    let mut at: usize = pos;
    let mut i: u32 = 0;
    assert(item_views(items@) =~= Seq::<ValueView>::empty());
    while i < n
        invariant
            0 <= i <= n,
            pos <= at <= data@.len(),
            decode_items_spec(abi@, inner@, data@, pos as nat, i as nat, fuel as nat) == Ok::<
                (Seq<ValueView>, nat),
                CodecErrorView,
            >((item_views(items@), at as nat)),
        decreases n - i,
    {
        match decode_resolved(abi, inner, data, at, fuel) {
            Err(e) => {
                proof {
                    lemma_decode_items_error(
                        abi@,
                        inner@,
                        data@,
                        pos as nat,
                        (i + 1) as nat,
                        n as nat,
                        fuel as nat,
                    );
                }
                return Err(e);
            },
            Ok((value, next)) => {
                let ghost before = item_views(items@);
                items.push(value);
                assert(item_views(items@) =~= before.push(value@));
                at = next;
            },
        }
        i += 1;
    }
    Ok((items, at))
}

/// Once a prefix of the fields fails, every longer prefix fails alike.
pub proof fn lemma_decode_fields_error(
    abi: AbiView,
    fields: Seq<AbiFieldView>,
    data: Seq<u8>,
    pos: nat,
    m: int,
    fuel: nat,
)
    requires
        0 <= m <= fields.len(),
        decode_fields_spec(abi, fields.take(m), data, pos, fuel) is Err,
    ensures
        decode_fields_spec(abi, fields, data, pos, fuel) == decode_fields_spec(
            abi,
            fields.take(m),
            data,
            pos,
            fuel,
        ),
    decreases fields.len() - m,
{
    if m == fields.len() {
        assert(fields.take(m) =~= fields);
    } else {
        assert(fields.take(m + 1).drop_last() =~= fields.take(m));
        lemma_decode_fields_error(abi, fields, data, pos, m + 1, fuel);
    }
}

/// Decodes the values of the fields `fields` that follow one another from
/// `pos` in `data`, and returns them, each under the name of its field, with
/// the position after the last.
pub fn decode_fields(abi: &Abi, fields: &Vec<AbiField>, data: &[u8], pos: usize, fuel: usize) -> (r:
    Result<(Vec<(String, Value)>, usize), CodecError>)
    requires
        pos <= data@.len(),
    ensures
        entries_result(r) == decode_fields_spec(
            abi@,
            field_views(fields@),
            data@,
            pos as nat,
            fuel as nat,
        ),
        r matches Ok((_, next)) ==> pos <= next <= data@.len(),
    decreases fuel, 0nat, fields@.len(), 0nat,
{
    let ghost all = field_views(fields@);
    let mut entries: Vec<(String, Value)> = Vec::new();
    let mut at: usize = pos;
    let mut i: usize = 0;
    assert(all.take(0) =~= Seq::<AbiFieldView>::empty());
    assert(entry_views(entries@) =~= Seq::<(Seq<char>, ValueView)>::empty());
    while i < fields.len()
        invariant
            0 <= i <= fields.len(),
            pos <= at <= data@.len(),
            all == field_views(fields@),
            decode_fields_spec(abi@, all.take(i as int), data@, pos as nat, fuel as nat) == Ok::<
                (Seq<(Seq<char>, ValueView)>, nat),
                CodecErrorView,
            >((entry_views(entries@), at as nat)),
        decreases fields.len() - i,
    {
        assert(all.take(i + 1).drop_last() =~= all.take(i as int));
        assert(all.take(i + 1).last() == fields@[i as int]@);
        let field = &fields[i];
        let step: Result<(Value, usize), CodecError> = if fuel == 0 {
            Err(CodecError::SchemaParseError { ty: field.ty.clone() })
        } else {
            match abi.resolve_type(field.ty.as_str()) {
                Err(e) => Err(e),
                Ok(rt) => decode_resolved(abi, &rt, data, at, fuel - 1),
            }
        };
        match step {
            Err(e) => {
                proof {
                    lemma_decode_fields_error(abi@, all, data@, pos as nat, i + 1, fuel as nat);
                }
                return Err(e);
            },
            Ok((value, next)) => {
                entries = insert_entry(entries, field.name.clone(), value);
                at = next;
            },
        }
        i += 1;
    }
    assert(all.take(fields.len() as int) =~= all);
    Ok((entries, at))
}

/// How deep types may nest while `len` bytes are decoded.
pub fn fuel_for(abi: &Abi, len: usize) -> (fuel: usize)
    ensures
        fuel == decode_fuel(abi@, len as nat),
{
    let named: u128 = abi.structs.len() as u128 + abi.variants.len() as u128 + 1;
    let bytes: u128 = len as u128 + 1;
    let limit: u128 = usize::MAX as u128;
    let most: u128 = limit / bytes;
    if named <= most {
        assert(bytes * named <= limit) by (nonlinear_arith)
            requires
                named <= limit / bytes,
                bytes >= 1,
        ;
        (bytes * named) as usize
    } else {
        assert(bytes * named > limit) by (nonlinear_arith)
            requires
                named > limit / bytes,
                bytes >= 1,
        ;
        usize::MAX
    }
}

/// Decodes the value of the type that `ty` names in `abi` that starts at
/// `pos` in `data`, and returns it with the position after it.
pub fn decode_at(abi: &Abi, ty: &str, data: &[u8], pos: usize) -> (r: Result<
    (Value, usize),
    CodecError,
>)
    requires
        pos <= data@.len(),
    ensures
        value_result(r) == decode_at_spec(abi@, ty@, data@, pos as nat),
        r matches Ok((_, next)) ==> pos <= next <= data@.len(),
{
    match abi.resolve_type(ty) {
        Err(e) => Err(e),
        Ok(rt) => decode_resolved(abi, &rt, data, pos, fuel_for(abi, data.len())),
    }
}

/// Decodes the value of the type that `ty` names in `abi` at the start of
/// `data`.
pub fn decode(abi: &Abi, ty: &str, data: &[u8]) -> (r: Result<Value, CodecError>)
    ensures
        match r {
            Ok(value) => decode_spec(abi@, ty@, data@) == Ok::<ValueView, CodecErrorView>(value@),
            Err(e) => decode_spec(abi@, ty@, data@) == Err::<ValueView, CodecErrorView>(e@),
        },
{
    match decode_at(abi, ty, data, 0) {
        Err(e) => Err(e),
        Ok((value, next)) => Ok(value),
    }
}

/// A read position in a buffer of input bytes.
pub struct Decoder<'a> {
    buf: &'a [u8],
    pos: usize,
}

impl<'a> Decoder<'a> {
    /// The position is within the buffer or at its end.
    #[verifier::type_invariant]
    spec fn inv(self) -> bool {
        self.pos <= self.buf@.len()
    }

    /// The whole input.
    pub closed spec fn bytes(self) -> Seq<u8> {
        self.buf@
    }

    /// Number of bytes read so far.
    pub closed spec fn position(self) -> nat {
        self.pos as nat
    }

    /// A decoder at the start of `data`.
    pub fn new(data: &'a [u8]) -> (r: Self)
        ensures
            r.bytes() == data@,
            r.position() == 0,
    {
        Decoder { buf: data, pos: 0 }
    }

    /// Number of bytes read so far.
    pub fn get_pos(&self) -> (r: usize)
        ensures
            r == self.position(),
            r <= self.bytes().len(),
    {
        proof {
            use_type_invariant(self);
        }
        self.pos
    }

    /// Number of bytes of the whole input.
    pub fn get_size(&self) -> (r: usize)
        ensures
            r == self.bytes().len(),
    {
        self.buf.len()
    }
}

/// Decodes the value of the type that `field_type` names at the position of
/// `decoder`, and moves the decoder past it. On failure the decoder stays
/// where it was.
pub fn decode_abi_type(abi: &Abi, field_type: &str, decoder: &mut Decoder) -> (r: Result<
    Value,
    CodecError,
>)
    ensures
        final(decoder).bytes() == old(decoder).bytes(),
        match r {
            Ok(value) => decode_at_spec(
                abi@,
                field_type@,
                old(decoder).bytes(),
                old(decoder).position(),
            ) == Ok::<(ValueView, nat), CodecErrorView>((value@, final(decoder).position())),
            Err(e) => decode_at_spec(
                abi@,
                field_type@,
                old(decoder).bytes(),
                old(decoder).position(),
            ) == Err::<(ValueView, nat), CodecErrorView>(e@) && final(decoder).position() == old(
                decoder,
            ).position(),
        },
{
    proof {
        use_type_invariant(&*decoder);
    }
    match decode_at(abi, field_type, decoder.buf, decoder.pos) {
        Err(e) => Err(e),
        Ok((value, next)) => {
            decoder.pos = next;
            Ok(value)
        },
    }
}

} // verus!
