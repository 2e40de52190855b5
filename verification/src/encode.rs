//! The encoder: it walks a resolved type against a value and produces the
//! wire bytes.
use vstd::prelude::*;
use vstd::string::*;
use crate::abi::{Abi, AbiField, AbiFieldView, AbiView, field_views};
use crate::error::{CodecError, CodecErrorView, VariantTag, VariantTagView};
use crate::primitive::{encode_builtin, encode_builtin_spec, encode_count};
use crate::resolve::{
    ResolvedType, ResolvedTypeView, builtin, builtin_spec, resolve_spec, struct_fields_spec,
};
use crate::text::{find_name, index_of};
use crate::value::{
    Value, ValueKind, ValueView, entry_names, entry_views, find_entry, item_views,
};
use crate::wire::varuint_bytes;

verus! {

/// The bytes of `v` as a value of the resolved type `rt`.
///
/// * An optional is one byte, 0 for `Null`, or 1 and then the value.
/// * An extension is nothing for `Null`, else the value.
/// * An array is the count of its items in variable-length form, then each
///   item in order.
/// * A variant takes a pair of a member type name and a value: the position
///   of the first member so named in variable-length form, then the value as
///   a value of that member type.
/// * A struct takes a struct value: the value found under the name of each
///   field, inherited fields first, as a value of the type of that field.
/// * A built-in type is what the codec of built-in types makes of it.
///
/// Nothing is produced where any part fails: the first failure in wire order
/// is the result.
pub open spec fn encode_resolved_spec(abi: AbiView, rt: ResolvedTypeView, v: ValueView) -> Result<
    Seq<u8>,
    CodecErrorView,
>
    decreases v, rt.depth(),
{
    match rt {
        ResolvedTypeView::Standard(name) => match builtin_spec(name) {
            Some(b) => encode_builtin_spec(b, name, v),
            None => Err(CodecErrorView::UnknownType { ty: name }),
        },
        ResolvedTypeView::Alias(inner) => encode_resolved_spec(abi, *inner, v),
        ResolvedTypeView::Optional(inner) => if v == ValueView::Null {
            Ok(seq![0u8])
        } else {
            match encode_resolved_spec(abi, *inner, v) {
                Ok(bytes) => Ok(seq![1u8] + bytes),
                Err(e) => Err(e),
            }
        },
        ResolvedTypeView::Extension(inner) => if v == ValueView::Null {
            Ok(Seq::empty())
        } else {
            encode_resolved_spec(abi, *inner, v)
        },
        ResolvedTypeView::Array(inner) => match v {
            ValueView::Array(items) => if items.len() > u32::MAX {
                Err(
                    CodecErrorView::WrongValueKindForType {
                        expected: "[]"@,
                        actual: ValueKind::Array,
                    },
                )
            } else {
                match encode_items_spec(abi, *inner, items) {
                    Ok(bytes) => Ok(varuint_bytes(items.len()) + bytes),
                    Err(e) => Err(e),
                }
            },
            _ => Err(
                CodecErrorView::WrongValueKindForType { expected: "[]"@, actual: v.kind() },
            ),
        },
        ResolvedTypeView::Variant(variant) => match v {
            ValueView::Array(items) => if items.len() == 2 && items[0] is String {
                let tag = items[0]->String_0;
                match index_of(variant.types, tag) {
                    Some(i) => if i > u32::MAX {
                        Err(
                            CodecErrorView::VariantTagOutOfRange {
                                variant: variant.name,
                                tag: VariantTagView::Name(tag),
                            },
                        )
                    } else {
                        match resolve_spec(abi, tag) {
                            Err(e) => Err(e),
                            Ok(member) => match encode_resolved_spec(abi, member, items[1]) {
                                Ok(bytes) => Ok(varuint_bytes(i as nat) + bytes),
                                Err(e) => Err(e),
                            },
                        }
                    },
                    None => Err(
                        CodecErrorView::VariantTagOutOfRange {
                            variant: variant.name,
                            tag: VariantTagView::Name(tag),
                        },
                    ),
                }
            } else {
                Err(
                    CodecErrorView::WrongValueKindForType {
                        expected: variant.name,
                        actual: ValueKind::Array,
                    },
                )
            },
            _ => Err(
                CodecErrorView::WrongValueKindForType { expected: variant.name, actual: v.kind() },
            ),
        },
        ResolvedTypeView::Struct(s) => match v {
            ValueView::Struct(entries) => match struct_fields_spec(abi, s) {
                Err(e) => Err(e),
                Ok(fields) => encode_fields_spec(abi, fields, entries),
            },
            _ => Err(CodecErrorView::WrongValueKindForType { expected: s.name, actual: v.kind() }),
        },
    }
}

/// The bytes of `items`, each as a value of the type `inner`, one after the
/// other.
pub open spec fn encode_items_spec(abi: AbiView, inner: ResolvedTypeView, items: Seq<ValueView>) -> Result<
    Seq<u8>,
    CodecErrorView,
>
    decreases items, 0nat,
{
    if items.len() == 0 {
        Ok(Seq::empty())
    } else {
        match encode_items_spec(abi, inner, items.drop_last()) {
            Err(e) => Err(e),
            Ok(head) => match encode_resolved_spec(abi, inner, items.last()) {
                Err(e) => Err(e),
                Ok(bytes) => Ok(head + bytes),
            },
        }
    }
}

/// The bytes of the fields `fields`, in order, each taken from the entry of
/// `entries` that has its name. A field without an entry is a
/// `MissingField`.
pub open spec fn encode_fields_spec(
    abi: AbiView,
    fields: Seq<AbiFieldView>,
    entries: Seq<(Seq<char>, ValueView)>,
) -> Result<Seq<u8>, CodecErrorView>
    decreases entries, fields.len(),
{
    if fields.len() == 0 {
        Ok(Seq::empty())
    } else {
        match encode_fields_spec(abi, fields.drop_last(), entries) {
            Err(e) => Err(e),
            Ok(head) => {
                let field = fields.last();
                match index_of(entry_names(entries), field.name) {
                    None => Err(CodecErrorView::MissingField { field: field.name }),
                    Some(i) => if 0 <= i < entries.len() {
                        match resolve_spec(abi, field.ty) {
                            Err(e) => Err(e),
                            Ok(rt) => match encode_resolved_spec(abi, rt, entries[i].1) {
                                Err(e) => Err(e),
                                Ok(bytes) => Ok(head + bytes),
                            },
                        }
                    } else {
                        Err(CodecErrorView::MissingField { field: field.name })
                    },
                }
            },
        }
    }
}

/// The bytes of `v` as a value of the type that `ty` names in `abi`.
pub open spec fn encode_spec(abi: AbiView, ty: Seq<char>, v: ValueView) -> Result<
    Seq<u8>,
    CodecErrorView,
> {
    match resolve_spec(abi, ty) {
        Err(e) => Err(e),
        Ok(rt) => encode_resolved_spec(abi, rt, v),
    }
}

/// The model of the result of an encoding.
pub open spec fn bytes_result(r: Result<Vec<u8>, CodecError>) -> Result<Seq<u8>, CodecErrorView> {
    match r {
        Ok(bytes) => Ok(bytes@),
        Err(e) => Err(e@),
    }
}

/// What a step of the encoding has done to the sink: on success it has
/// appended the bytes that `expected` gives and reports how many they are;
/// on failure it has failed as `expected` does and has left what the sink
/// held, with at most more after it.
pub open spec fn appended(
    r: Result<usize, CodecError>,
    before: Seq<u8>,
    after: Seq<u8>,
    expected: Result<Seq<u8>, CodecErrorView>,
) -> bool {
    match r {
        Ok(n) => expected matches Ok(bytes) && after == before + bytes && n == bytes.len(),
        Err(e) => expected == Err::<Seq<u8>, CodecErrorView>(e@) && before.len() <= after.len()
            && after.subrange(0, before.len() as int) == before,
    }
}

/// Appends the bytes `bytes` to the sink and reports how many they are.
fn put(bytes: Vec<u8>, out: &mut Vec<u8>) -> (n: usize)
    ensures
        final(out)@ == old(out)@ + bytes@,
        n == bytes@.len(),
{
    let n: usize = bytes.len();
    let mut rest: Vec<u8> = bytes;
    out.append(&mut rest);
    n
}

/// Encodes `v` as a value of the resolved type `rt` into the sink `out`.
pub fn encode_resolved(abi: &Abi, rt: &ResolvedType, v: &Value, out: &mut Vec<u8>) -> (r: Result<
    usize,
    CodecError,
>)
    ensures
        appended(r, old(out)@, final(out)@, encode_resolved_spec(abi@, rt@, v@)),
    decreases v@, rt@.depth(),
{
    let ghost before = out@;
    assert(before.subrange(0, before.len() as int) =~= before);
    match rt {
        ResolvedType::Standard(name) => match builtin(name.as_str()) {
            Some(b) => match encode_builtin(b, name.as_str(), v) {
                Ok(bytes) => Ok(put(bytes, out)),
                Err(e) => Err(e),
            },
            None => Err(CodecError::UnknownType { ty: name.clone() }),
        },
        ResolvedType::Alias(inner) => encode_resolved(abi, inner, v, out),
        ResolvedType::Optional(inner) => {
            if v.is_null() {
                out.push(0u8);
                assert(out@ =~= before + seq![0u8]);
                Ok(1)
            } else {
                out.push(1u8);
                let ghost flagged = out@;
                match encode_resolved(abi, inner, v, out) {
                    Ok(n) => {
                        let ghost bytes = encode_resolved_spec(abi@, inner@, v@)->Ok_0;
                        assert(out@ =~= before + (seq![1u8] + bytes));
                        let held: usize = out.len();
                        assert(n + 1 <= held);
                        Ok(n + 1)
                    },
                    Err(e) => {
                        assert(out@.subrange(0, before.len() as int) =~= before) by {
                            assert(out@.subrange(0, flagged.len() as int) == flagged);
                            assert forall|i: int| 0 <= i < before.len() implies out@[i]
                                == before[i] by {
                                assert(out@.subrange(0, flagged.len() as int)[i] == flagged[i]);
                            }
                        }
                        Err(e)
                    },
                }
            }
        },
        ResolvedType::Extension(inner) => {
            if v.is_null() {
                assert(out@ =~= before + Seq::<u8>::empty());
                Ok(0)
            } else {
                encode_resolved(abi, inner, v, out)
            }
        },
        ResolvedType::Array(inner) => match v {
            Value::Array(items) => {
                proof {
                    Value::lemma_view_array(*items);
                }
                if items.len() > u32::MAX as usize {
                    return Err(
                        CodecError::WrongValueKindForType {
                            expected: "[]".to_owned(),
                            actual: ValueKind::Array,
                        },
                    );
                }
                let head: usize = put(encode_count(items.len() as u32), out);
                let ghost counted = out@;
                match encode_items(abi, inner, items, out) {
                    Ok(n) => {
                        let ghost bytes = encode_items_spec(abi@, inner@, item_views(items@))->Ok_0;
                        assert(out@ =~= before + (varuint_bytes(items@.len()) + bytes));
                        let held: usize = out.len();
                        assert(head + n <= held);
                        Ok(head + n)
                    },
                    Err(e) => {
                        assert(out@.subrange(0, before.len() as int) =~= before) by {
                            assert forall|i: int| 0 <= i < before.len() implies out@[i]
                                == before[i] by {
                                assert(out@.subrange(0, counted.len() as int)[i] == counted[i]);
                            }
                        }
                        Err(e)
                    },
                }
            },
            _ => Err(
                CodecError::WrongValueKindForType { expected: "[]".to_owned(), actual: v.kind() },
            ),
        },
        ResolvedType::Variant(variant) => match v {
            Value::Array(items) => {
                proof {
                    Value::lemma_view_array(*items);
                }
                if items.len() != 2 {
                    return Err(
                        CodecError::WrongValueKindForType {
                            expected: variant.name.clone(),
                            actual: ValueKind::Array,
                        },
                    );
                }
                let tag: &String = match &items[0] {
                    Value::String(tag) => tag,
                    _ => {
                        return Err(
                            CodecError::WrongValueKindForType {
                                expected: variant.name.clone(),
                                actual: ValueKind::Array,
                            },
                        );
                    },
                };
                let index: usize = match find_name(&variant.types, tag.as_str()) {
                    Some(i) => i,
                    None => {
                        return Err(
                            CodecError::VariantTagOutOfRange {
                                variant: variant.name.clone(),
                                tag: VariantTag::Name(tag.clone()),
                            },
                        );
                    },
                };
                if index > u32::MAX as usize {
                    return Err(
                        CodecError::VariantTagOutOfRange {
                            variant: variant.name.clone(),
                            tag: VariantTag::Name(tag.clone()),
                        },
                    );
                }
                let member: ResolvedType = match abi.resolve_type(tag.as_str()) {
                    Err(e) => {
                        return Err(e);
                    },
                    Ok(member) => member,
                };
                let head: usize = put(encode_count(index as u32), out);
                let ghost tagged = out@;
                match encode_resolved(abi, &member, &items[1], out) {
                    Ok(n) => {
                        let ghost bytes = encode_resolved_spec(abi@, member@, items@[1]@)->Ok_0;
                        assert(out@ =~= before + (varuint_bytes(index as nat) + bytes));
                        let held: usize = out.len();
                        assert(head + n <= held);
                        Ok(head + n)
                    },
                    Err(e) => {
                        assert(out@.subrange(0, before.len() as int) =~= before) by {
                            assert forall|i: int| 0 <= i < before.len() implies out@[i]
                                == before[i] by {
                                assert(out@.subrange(0, tagged.len() as int)[i] == tagged[i]);
                            }
                        }
                        Err(e)
                    },
                }
            },
            _ => Err(
                CodecError::WrongValueKindForType {
                    expected: variant.name.clone(),
                    actual: v.kind(),
                },
            ),
        },
        ResolvedType::Struct(s) => match v {
            Value::Struct(entries) => {
                proof {
                    Value::lemma_view_struct(*entries);
                }
                match abi.struct_fields(s) {
                    Err(e) => Err(e),
                    Ok(fields) => encode_fields(abi, &fields, entries, out),
                }
            },
            _ => Err(
                CodecError::WrongValueKindForType { expected: s.name.clone(), actual: v.kind() },
            ),
        },
    }
}

/// Encodes `items`, each as a value of the type `inner`, one after the other
/// into the sink `out`.
pub fn encode_items(abi: &Abi, inner: &ResolvedType, items: &Vec<Value>, out: &mut Vec<u8>) -> (r:
    Result<usize, CodecError>)
    ensures
        appended(r, old(out)@, final(out)@, encode_items_spec(abi@, inner@, item_views(items@))),
    decreases item_views(items@), 0nat,
{
    let ghost before = out@;
    let ghost all = item_views(items@);
    let mut size: usize = 0;
    let mut i: usize = 0;
    assert(all.take(0) =~= Seq::<ValueView>::empty());
    assert(out@ =~= before + Seq::<u8>::empty());
    while i < items.len()
        invariant
            0 <= i <= items.len(),
            all == item_views(items@),
            before == old(out)@,
            encode_items_spec(abi@, inner@, all.take(i as int)) matches Ok(bytes) && out@ == before
                + bytes && size == bytes.len(),
        decreases items.len() - i,
    {
        let ghost so_far = out@;
        let ghost head = encode_items_spec(abi@, inner@, all.take(i as int))->Ok_0;
        assert(all.take(i + 1).drop_last() =~= all.take(i as int));
        assert(all.take(i + 1).last() == items@[i as int]@);
        match encode_resolved(abi, inner, &items[i], out) {
            Ok(n) => {
                let ghost bytes = encode_resolved_spec(abi@, inner@, items@[i as int]@)->Ok_0;
                assert(out@ =~= before + (head + bytes));
                let held: usize = out.len();
                assert(size + n <= held);
                size = size + n;
            },
            Err(e) => {
                proof {
                    lemma_encode_items_error(abi@, inner@, all, i + 1);
                    assert(out@.subrange(0, before.len() as int) =~= before) by {
                        assert forall|k: int| 0 <= k < before.len() implies out@[k]
                            == before[k] by {
                            assert(out@.subrange(0, so_far.len() as int)[k] == so_far[k]);
                        }
                    }
                }
                return Err(e);
            },
        }
        i += 1;
    }
    assert(all.take(items.len() as int) =~= all);
    Ok(size)
}

/// Once a prefix of the items fails, every longer prefix fails alike.
pub proof fn lemma_encode_items_error(
    abi: AbiView,
    inner: ResolvedTypeView,
    items: Seq<ValueView>,
    n: int,
)
    requires
        0 <= n <= items.len(),
        encode_items_spec(abi, inner, items.take(n)) is Err,
    ensures
        encode_items_spec(abi, inner, items) == encode_items_spec(abi, inner, items.take(n)),
    decreases items.len() - n,
{
    if n == items.len() {
        assert(items.take(n) =~= items);
    } else {
        assert(items.take(n + 1).drop_last() =~= items.take(n));
        lemma_encode_items_error(abi, inner, items, n + 1);
    }
}

/// Encodes the fields `fields`, in order, each from the entry of `entries`
/// that has its name, into the sink `out`.
pub fn encode_fields(
    abi: &Abi,
    fields: &Vec<AbiField>,
    entries: &Vec<(String, Value)>,
    out: &mut Vec<u8>,
) -> (r: Result<usize, CodecError>)
    ensures
        appended(
            r,
            old(out)@,
            final(out)@,
            encode_fields_spec(abi@, field_views(fields@), entry_views(entries@)),
        ),
    decreases entry_views(entries@), 0nat,
{
    let ghost before = out@;
    let ghost all = field_views(fields@);
    let ghost given = entry_views(entries@);
    let mut size: usize = 0;
    let mut i: usize = 0;
    assert(all.take(0) =~= Seq::<AbiFieldView>::empty());
    assert(out@ =~= before + Seq::<u8>::empty());
    while i < fields.len()
        invariant
            0 <= i <= fields.len(),
            all == field_views(fields@),
            given == entry_views(entries@),
            before == old(out)@,
            encode_fields_spec(abi@, all.take(i as int), given) matches Ok(bytes) && out@ == before
                + bytes && size == bytes.len(),
        decreases fields.len() - i,
    {
        let ghost so_far = out@;
        let ghost head = encode_fields_spec(abi@, all.take(i as int), given)->Ok_0;
        assert(so_far.subrange(0, before.len() as int) =~= before);
        assert(all.take(i + 1).drop_last() =~= all.take(i as int));
        assert(all.take(i + 1).last() == fields@[i as int]@);
        let field = &fields[i];
        let step: Result<usize, CodecError> = match find_entry(entries, field.name.as_str()) {
            None => Err(CodecError::MissingField { field: field.name.clone() }),
            Some(k) => match abi.resolve_type(field.ty.as_str()) {
                Err(e) => Err(e),
                Ok(rt) => {
                    assert(given[k as int].1 == entries@[k as int].1@);
                    let encoded = encode_resolved(abi, &rt, &entries[k].1, out);
                    proof {
                        if encoded is Ok {
                            let bytes = encode_resolved_spec(abi@, rt@, entries@[k as int].1@)->Ok_0;
                            assert(out@ =~= before + (head + bytes));
                        } else {
                            assert(out@.subrange(0, before.len() as int) =~= before) by {
                                assert forall|j: int| 0 <= j < before.len() implies out@[j]
                                    == before[j] by {
                                    assert(out@.subrange(0, so_far.len() as int)[j] == so_far[j]);
                                }
                            }
                        }
                    }
                    encoded
                },
            },
        };
        match step {
            Ok(n) => {
                let held: usize = out.len();
                assert(size + n <= held);
                size = size + n;
            },
            Err(e) => {
                proof {
                    lemma_encode_fields_error(abi@, all, given, i + 1);
                }
                return Err(e);
            },
        }
        i += 1;
    }
    assert(all.take(fields.len() as int) =~= all);
    Ok(size)
}

/// Once a prefix of the fields fails, every longer prefix fails alike.
pub proof fn lemma_encode_fields_error(
    abi: AbiView,
    fields: Seq<AbiFieldView>,
    entries: Seq<(Seq<char>, ValueView)>,
    n: int,
)
    requires
        0 <= n <= fields.len(),
        encode_fields_spec(abi, fields.take(n), entries) is Err,
    ensures
        encode_fields_spec(abi, fields, entries) == encode_fields_spec(
            abi,
            fields.take(n),
            entries,
        ),
    decreases fields.len() - n,
{
    if n == fields.len() {
        assert(fields.take(n) =~= fields);
    } else {
        assert(fields.take(n + 1).drop_last() =~= fields.take(n));
        lemma_encode_fields_error(abi, fields, entries, n + 1);
    }
}

/// Encodes `field_value` as a value of the type that `field_type` names,
/// appends the bytes to `encoder` and returns how many they are. On failure
/// `encoder` is left as it was.
pub fn encode_abi_type(
    abi: &Abi,
    field_type: &str,
    field_value: &Value,
    encoder: &mut Vec<u8>,
) -> (r: Result<usize, CodecError>)
    ensures
        match r {
            Ok(n) => encode_spec(abi@, field_type@, field_value@) matches Ok(bytes)
                && final(encoder)@ == old(encoder)@ + bytes && n == bytes.len(),
            Err(e) => encode_spec(abi@, field_type@, field_value@) == Err::<
                Seq<u8>,
                CodecErrorView,
            >(e@) && final(encoder)@ == old(encoder)@,
        },
{
    let start: usize = encoder.len();
    let rt: ResolvedType = match abi.resolve_type(field_type) {
        Err(e) => {
            return Err(e);
        },
        Ok(rt) => rt,
    };
    match encode_resolved(abi, &rt, field_value, encoder) {
        Ok(n) => Ok(n),
        Err(e) => {
            encoder.truncate(start);
            Err(e)
        },
    }
}

/// Encodes `v` as a value of the type that `ty` names in `abi`. The number
/// of bytes that the encoding reports is held against the number written;
/// they always agree, so an `EncodeSizeMismatch` never comes back.
pub fn encode(abi: &Abi, ty: &str, v: &Value) -> (r: Result<Vec<u8>, CodecError>)
    ensures
        bytes_result(r) == encode_spec(abi@, ty@, v@),
{
    let mut encoder: Vec<u8> = Vec::new();
    match encode_abi_type(abi, ty, v, &mut encoder) {
        Err(e) => Err(e),
        Ok(reported) => {
            let written: usize = encoder.len();
            if reported != written {
                return Err(CodecError::EncodeSizeMismatch { reported, written });
            }
            Ok(encoder)
        },
    }
}

/// The bytes of the first `params.len()` fields of `fields`, each from the
/// parameter at its position.
pub open spec fn encode_positional_spec(
    abi: AbiView,
    fields: Seq<AbiFieldView>,
    params: Seq<ValueView>,
) -> Result<Seq<u8>, CodecErrorView>
    decreases params.len(),
{
    if params.len() == 0 || params.len() > fields.len() {
        Ok(Seq::empty())
    } else {
        match encode_positional_spec(abi, fields, params.drop_last()) {
            Err(e) => Err(e),
            Ok(head) => match encode_spec(abi, fields[params.len() - 1].ty, params.last()) {
                Err(e) => Err(e),
                Ok(bytes) => Ok(head + bytes),
            },
        }
    }
}

/// The bytes of the parameters of the action `action`: the struct of that
/// name gives, by position, the type of each. A name that is no struct is an
/// `UnknownType`; more parameters than the struct has fields of its own are
/// a `WrongValueKindForType`.
pub open spec fn encode_params_spec(abi: AbiView, action: Seq<char>, params: Seq<ValueView>) -> Result<
    Seq<u8>,
    CodecErrorView,
> {
    match index_of(abi.struct_names(), action) {
        None => Err(CodecErrorView::UnknownType { ty: action }),
        Some(i) => if params.len() > abi.structs[i].fields.len() {
            Err(
                CodecErrorView::WrongValueKindForType {
                    expected: action,
                    actual: ValueKind::Array,
                },
            )
        } else {
            encode_positional_spec(abi, abi.structs[i].fields, params)
        },
    }
}

/// Once a prefix of the parameters fails, every longer prefix fails alike.
pub proof fn lemma_encode_positional_error(
    abi: AbiView,
    fields: Seq<AbiFieldView>,
    params: Seq<ValueView>,
    n: int,
)
    requires
        0 <= n <= params.len() <= fields.len(),
        encode_positional_spec(abi, fields, params.take(n)) is Err,
    ensures
        encode_positional_spec(abi, fields, params) == encode_positional_spec(
            abi,
            fields,
            params.take(n),
        ),
    decreases params.len() - n,
{
    if n == params.len() {
        assert(params.take(n) =~= params);
    } else {
        assert(params.take(n + 1).drop_last() =~= params.take(n));
        lemma_encode_positional_error(abi, fields, params, n + 1);
    }
}

/// Encodes the parameters of the action `action_name`, in the order of the
/// fields of the struct of that name.
pub fn encode_params(abi: &Abi, action_name: &str, params: &Vec<Value>) -> (r: Result<
    Vec<u8>,
    CodecError,
>)
    ensures
        bytes_result(r) == encode_params_spec(abi@, action_name@, item_views(params@)),
{
    let index: usize = match abi.find_struct(action_name) {
        None => {
            return Err(CodecError::UnknownType { ty: action_name.to_owned() });
        },
        Some(i) => i,
    };
    let fields: &Vec<AbiField> = &abi.structs[index].fields;
    if params.len() > fields.len() {
        return Err(
            CodecError::WrongValueKindForType {
                expected: action_name.to_owned(),
                actual: ValueKind::Array,
            },
        );
    }
    let ghost all = item_views(params@);
    let ghost declared = abi@.structs[index as int].fields;
    assert(declared == field_views(fields@));
    let mut size: usize = 0;
    let mut encoder: Vec<u8> = Vec::new();
    let mut i: usize = 0;
    assert(all.take(0) =~= Seq::<ValueView>::empty());
    while i < params.len()
        invariant
            0 <= i <= params.len() <= fields.len(),
            all == item_views(params@),
            declared == field_views(fields@),
            declared == abi@.structs[index as int].fields,
            index_of(abi@.struct_names(), action_name@) == Some(index as int),
            size == encoder@.len(),
            encode_positional_spec(abi@, declared, all.take(i as int)) == Ok::<
                Seq<u8>,
                CodecErrorView,
            >(encoder@),
        decreases params.len() - i,
    {
        assert(all.take(i + 1).drop_last() =~= all.take(i as int));
        assert(all.take(i + 1).last() == params@[i as int]@);
        match encode_abi_type(abi, fields[i].ty.as_str(), &params[i], &mut encoder) {
            Ok(n) => {
                let held: usize = encoder.len();
                assert(size + n == held);
                size = size + n;
            },
            Err(e) => {
                proof {
                    lemma_encode_positional_error(abi@, declared, all, i + 1);
                }
                return Err(e);
            },
        }
        i += 1;
    }
    assert(all.take(params.len() as int) =~= all);
    let written: usize = encoder.len();
    if size != written {
        return Err(CodecError::EncodeSizeMismatch { reported: size, written });
    }
    Ok(encoder)
}

} // verus!
