//! Laws of the codec, stated over the functions that say what encoding and
//! decoding produce, and proved from their definitions.
use vstd::prelude::*;
use crate::abi::{AbiFieldView, AbiView};
use crate::decode::{decode_fields_spec, decode_resolved_spec, entries_insert};
use crate::encode::{encode_fields_spec, encode_items_spec, encode_resolved_spec, encode_spec};
use crate::error::CodecErrorView;
use crate::resolve::{
    Modifier, ResolvedTypeView, apply_modifier, resolve_spec, split_modifier_spec,
};
use crate::text::index_of;
use crate::value::{ValueView, entry_lookup, entry_names};
use crate::wire::varuint_bytes;

verus! {

/// The type name `ty` with the modifier `modifier` written after it.
pub open spec fn modified(ty: Seq<char>, modifier: Modifier) -> Seq<char> {
    match modifier {
        Modifier::Optional => ty.push('?'),
        Modifier::Array => ty.push('[').push(']'),
        Modifier::Extension => ty.push('$'),
    }
}

/// A name with a modifier written after it resolves to that modifier applied
/// to what the name resolves to, and fails as the name does.
pub proof fn law_resolve_modified(abi: AbiView, ty: Seq<char>, modifier: Modifier)
    ensures
        resolve_spec(abi, modified(ty, modifier)) == match resolve_spec(abi, ty) {
            Ok(inner) => Ok::<ResolvedTypeView, CodecErrorView>(apply_modifier(modifier, inner)),
            Err(e) => Err(e),
        },
{
    let full = modified(ty, modifier);
    let n = full.len() as int;
    match modifier {
        Modifier::Optional => {
            assert(full.subrange(0, n - 1) =~= ty);
        },
        Modifier::Array => {
            assert(full.subrange(0, n - 2) =~= ty);
        },
        Modifier::Extension => {
            assert(full.subrange(0, n - 1) =~= ty);
        },
    }
    assert(split_modifier_spec(full) == Some((modifier, ty)));
}

/// Optional absence: against an optional type, `Null` is the single byte 0.
pub proof fn law_optional_absent(abi: AbiView, ty: Seq<char>)
    requires
        resolve_spec(abi, ty) is Ok,
    ensures
        encode_spec(abi, modified(ty, Modifier::Optional), ValueView::Null) == Ok::<
            Seq<u8>,
            CodecErrorView,
        >(seq![0u8]),
{
    law_resolve_modified(abi, ty, Modifier::Optional);
}

/// Optional presence: against an optional type, a value other than `Null` is
/// the byte 1 followed by its encoding against the type without the
/// modifier, and fails where that encoding fails.
pub proof fn law_optional_present(abi: AbiView, ty: Seq<char>, v: ValueView)
    requires
        v != ValueView::Null,
    ensures
        encode_spec(abi, modified(ty, Modifier::Optional), v) == match encode_spec(abi, ty, v) {
            Ok(bytes) => Ok::<Seq<u8>, CodecErrorView>(seq![1u8] + bytes),
            Err(e) => Err(e),
        },
{
    law_resolve_modified(abi, ty, Modifier::Optional);
}

/// The encodings of `items` against the type `ty`, one per item.
pub open spec fn item_encodings(abi: AbiView, ty: Seq<char>, items: Seq<ValueView>) -> Seq<
    Seq<u8>,
> {
    Seq::new(items.len(), |i: int| encode_spec(abi, ty, items[i])->Ok_0)
}

/// The items of an array that all encode give the encodings one after the
/// other.
proof fn lemma_encode_items_flatten(
    abi: AbiView,
    ty: Seq<char>,
    inner: ResolvedTypeView,
    items: Seq<ValueView>,
)
    requires
        resolve_spec(abi, ty) == Ok::<ResolvedTypeView, CodecErrorView>(inner),
        forall|i: int| 0 <= i < items.len() ==> encode_spec(abi, ty, #[trigger] items[i]) is Ok,
    ensures
        encode_items_spec(abi, inner, items) == Ok::<Seq<u8>, CodecErrorView>(
            item_encodings(abi, ty, items).flatten(),
        ),
    decreases items.len(),
{
    let all = item_encodings(abi, ty, items);
    if items.len() == 0 {
        assert(all =~= Seq::<Seq<u8>>::empty());
        assert(all.flatten() =~= Seq::<u8>::empty());
    } else {
        let head = items.drop_last();
        assert forall|i: int| 0 <= i < head.len() implies encode_spec(
            abi,
            ty,
            #[trigger] head[i],
        ) is Ok by {
            assert(head[i] == items[i]);
        }
        lemma_encode_items_flatten(abi, ty, inner, head);
        let last = encode_spec(abi, ty, items.last())->Ok_0;
        assert(encode_spec(abi, ty, items[items.len() - 1]) is Ok);
        assert(all =~= item_encodings(abi, ty, head).push(last));
        item_encodings(abi, ty, head).lemma_flatten_push(last);
    }
}

/// Array length prefix: against an array type, an array whose items all
/// encode against the item type is the count of the items in
/// variable-length form followed by the encodings of the items in order.
pub proof fn law_array_length_prefix(abi: AbiView, ty: Seq<char>, items: Seq<ValueView>)
    requires
        resolve_spec(abi, ty) is Ok,
        items.len() <= u32::MAX,
        forall|i: int| 0 <= i < items.len() ==> encode_spec(abi, ty, #[trigger] items[i]) is Ok,
    ensures
        encode_spec(abi, modified(ty, Modifier::Array), ValueView::Array(items)) == Ok::<
            Seq<u8>,
            CodecErrorView,
        >(varuint_bytes(items.len()) + item_encodings(abi, ty, items).flatten()),
{
    law_resolve_modified(abi, ty, Modifier::Array);
    lemma_encode_items_flatten(abi, ty, resolve_spec(abi, ty)->Ok_0, items);
}

/// An array of three items is the byte 3 and the three encodings.
pub proof fn law_array_of_three(abi: AbiView, ty: Seq<char>, a: ValueView, b: ValueView, c: ValueView)
    requires
        encode_spec(abi, ty, a) is Ok,
        encode_spec(abi, ty, b) is Ok,
        encode_spec(abi, ty, c) is Ok,
    ensures
        encode_spec(abi, modified(ty, Modifier::Array), ValueView::Array(seq![a, b, c])) == Ok::<
            Seq<u8>,
            CodecErrorView,
        >(
            seq![3u8] + encode_spec(abi, ty, a)->Ok_0 + encode_spec(abi, ty, b)->Ok_0
                + encode_spec(abi, ty, c)->Ok_0,
        ),
{
    let items = seq![a, b, c];
    law_array_length_prefix(abi, ty, items);
    let all = item_encodings(abi, ty, items);
    let ea = encode_spec(abi, ty, a)->Ok_0;
    let eb = encode_spec(abi, ty, b)->Ok_0;
    let ec = encode_spec(abi, ty, c)->Ok_0;
    assert(all =~= Seq::<Seq<u8>>::empty().push(ea).push(eb).push(ec));
    Seq::<Seq<u8>>::empty().lemma_flatten_push(ea);
    Seq::<Seq<u8>>::empty().push(ea).lemma_flatten_push(eb);
    Seq::<Seq<u8>>::empty().push(ea).push(eb).lemma_flatten_push(ec);
    assert(Seq::<Seq<u8>>::empty().flatten() =~= Seq::<u8>::empty());
    assert(all.flatten() =~= ea + eb + ec);
    assert(varuint_bytes(3) =~= seq![3u8]);
    assert(seq![3u8] + (ea + eb + ec) =~= seq![3u8] + ea + eb + ec);
}

/// Struct field order: two struct values that hold the same value under
/// every name encode alike, whatever the order of their entries.
pub proof fn law_struct_field_order(
    abi: AbiView,
    fields: Seq<AbiFieldView>,
    first: Seq<(Seq<char>, ValueView)>,
    second: Seq<(Seq<char>, ValueView)>,
)
    requires
        forall|name: Seq<char>| entry_lookup(first, name) == entry_lookup(second, name),
    ensures
        encode_fields_spec(abi, fields, first) == encode_fields_spec(abi, fields, second),
    decreases fields.len(),
{
    if fields.len() > 0 {
        law_struct_field_order(abi, fields.drop_last(), first, second);
        let name = fields.last().name;
        assert(entry_lookup(first, name) == entry_lookup(second, name));
        crate::text::lemma_index_of(entry_names(first), name);
        crate::text::lemma_index_of(entry_names(second), name);
    }
}

/// Struct field order, for whole values: against a struct type, two struct
/// values that hold the same value under every name encode alike.
pub proof fn law_struct_value_order(
    abi: AbiView,
    ty: Seq<char>,
    first: Seq<(Seq<char>, ValueView)>,
    second: Seq<(Seq<char>, ValueView)>,
)
    requires
        resolve_spec(abi, ty) matches Ok(rt) && rt is Struct,
        forall|name: Seq<char>| entry_lookup(first, name) == entry_lookup(second, name),
    ensures
        encode_spec(abi, ty, ValueView::Struct(first)) == encode_spec(
            abi,
            ty,
            ValueView::Struct(second),
        ),
{
    let s = resolve_spec(abi, ty)->Ok_0->Struct_0;
    match crate::resolve::struct_fields_spec(abi, s) {
        Ok(fields) => {
            law_struct_field_order(abi, fields, first, second);
        },
        Err(_) => {},
    }
}

/// Extension omission, encoding: a trailing extension field whose value is
/// `Null` adds nothing to the bytes of the fields before it.
pub proof fn law_extension_omitted(
    abi: AbiView,
    fields: Seq<AbiFieldView>,
    name: Seq<char>,
    ty: Seq<char>,
    entries: Seq<(Seq<char>, ValueView)>,
)
    requires
        resolve_spec(abi, ty) is Ok,
        entry_lookup(entries, name) == Some(ValueView::Null),
    ensures
        encode_fields_spec(
            abi,
            fields.push(AbiFieldView { name, ty: modified(ty, Modifier::Extension) }),
            entries,
        ) == match encode_fields_spec(abi, fields, entries) {
            Ok(bytes) => Ok::<Seq<u8>, CodecErrorView>(bytes),
            Err(e) => Err(e),
        },
{
    let field = AbiFieldView { name, ty: modified(ty, Modifier::Extension) };
    let all = fields.push(field);
    assert(all.drop_last() =~= fields);
    assert(all.last() == field);
    law_resolve_modified(abi, ty, Modifier::Extension);
    crate::text::lemma_index_of(entry_names(entries), name);
    let inner = resolve_spec(abi, ty)->Ok_0;
    let rt = ResolvedTypeView::Extension(Box::new(inner));
    assert(resolve_spec(abi, field.ty) == Ok::<ResolvedTypeView, CodecErrorView>(rt));
    assert(encode_resolved_spec(abi, rt, ValueView::Null) == Ok::<Seq<u8>, CodecErrorView>(
        Seq::empty(),
    ));
    let i = index_of(entry_names(entries), name)->Some_0;
    assert(entries[i].1 == ValueView::Null);
    match encode_fields_spec(abi, fields, entries) {
        Ok(bytes) => {
            assert(bytes + Seq::<u8>::empty() =~= bytes);
        },
        Err(_) => {},
    }
}

/// Extension omission, decoding: where the fields before a trailing
/// extension field take the input to its end, the extension field is `Null`
/// and no byte is read for it.
pub proof fn law_extension_absent(
    abi: AbiView,
    fields: Seq<AbiFieldView>,
    name: Seq<char>,
    ty: Seq<char>,
    data: Seq<u8>,
    pos: nat,
    fuel: nat,
)
    requires
        resolve_spec(abi, ty) is Ok,
        fuel > 0,
        decode_fields_spec(abi, fields, data, pos, fuel) matches Ok((_, next)) && next
            >= data.len(),
    ensures
        decode_fields_spec(
            abi,
            fields.push(AbiFieldView { name, ty: modified(ty, Modifier::Extension) }),
            data,
            pos,
            fuel,
        ) == Ok::<(Seq<(Seq<char>, ValueView)>, nat), CodecErrorView>(
            (
                entries_insert(
                    decode_fields_spec(abi, fields, data, pos, fuel)->Ok_0.0,
                    name,
                    ValueView::Null,
                ),
                decode_fields_spec(abi, fields, data, pos, fuel)->Ok_0.1,
            ),
        ),
{
    let field = AbiFieldView { name, ty: modified(ty, Modifier::Extension) };
    let all = fields.push(field);
    assert(all.drop_last() =~= fields);
    assert(all.last() == field);
    law_resolve_modified(abi, ty, Modifier::Extension);
    let inner = resolve_spec(abi, ty)->Ok_0;
    let rt = ResolvedTypeView::Extension(Box::new(inner));
    assert(resolve_spec(abi, field.ty) == Ok::<ResolvedTypeView, CodecErrorView>(rt));
    let at = decode_fields_spec(abi, fields, data, pos, fuel)->Ok_0.1;
    assert(decode_resolved_spec(abi, rt, data, at, (fuel - 1) as nat) == Ok::<
        (ValueView, nat),
        CodecErrorView,
    >((ValueView::Null, at)));
}

/// Extension omission, alone: at the end of the input an extension type
/// decodes to `Null` and leaves the position where it was, and `Null`
/// encodes to no bytes against it.
pub proof fn law_extension_null(abi: AbiView, ty: Seq<char>, data: Seq<u8>, fuel: nat)
    requires
        resolve_spec(abi, ty) matches Ok(rt) && rt is Extension,
    ensures
        decode_resolved_spec(abi, resolve_spec(abi, ty)->Ok_0, data, data.len(), fuel) == Ok::<
            (ValueView, nat),
            CodecErrorView,
        >((ValueView::Null, data.len())),
        encode_spec(abi, ty, ValueView::Null) == Ok::<Seq<u8>, CodecErrorView>(Seq::empty()),
{
}

/// Extension presence: a trailing extension field whose value is not `Null`
/// adds the encoding of the value against the type without the modifier to
/// the bytes of the fields before it.
pub proof fn law_extension_present(
    abi: AbiView,
    fields: Seq<AbiFieldView>,
    name: Seq<char>,
    ty: Seq<char>,
    entries: Seq<(Seq<char>, ValueView)>,
    v: ValueView,
)
    requires
        v != ValueView::Null,
        entry_lookup(entries, name) == Some(v),
        encode_fields_spec(abi, fields, entries) is Ok,
        encode_spec(abi, ty, v) is Ok,
    ensures
        encode_fields_spec(
            abi,
            fields.push(AbiFieldView { name, ty: modified(ty, Modifier::Extension) }),
            entries,
        ) == Ok::<Seq<u8>, CodecErrorView>(
            encode_fields_spec(abi, fields, entries)->Ok_0 + encode_spec(abi, ty, v)->Ok_0,
        ),
{
    let field = AbiFieldView { name, ty: modified(ty, Modifier::Extension) };
    let all = fields.push(field);
    assert(all.drop_last() =~= fields);
    assert(all.last() == field);
    law_resolve_modified(abi, ty, Modifier::Extension);
    crate::text::lemma_index_of(entry_names(entries), name);
    let inner = resolve_spec(abi, ty)->Ok_0;
    let rt = ResolvedTypeView::Extension(Box::new(inner));
    assert(resolve_spec(abi, field.ty) == Ok::<ResolvedTypeView, CodecErrorView>(rt));
    assert(encode_resolved_spec(abi, rt, v) == encode_resolved_spec(abi, inner, v));
    let i = index_of(entry_names(entries), name)->Some_0;
    assert(entries[i].1 == v);
}

/// The encoding of each of `fields` against its type, from the value that
/// `entries` holds under its name.
pub open spec fn field_encodings(
    abi: AbiView,
    fields: Seq<AbiFieldView>,
    entries: Seq<(Seq<char>, ValueView)>,
) -> Seq<Seq<u8>> {
    Seq::new(
        fields.len(),
        |i: int| encode_spec(abi, fields[i].ty, entry_lookup(entries, fields[i].name)->Some_0)->Ok_0,
    )
}

/// Struct field order, field by field: where every field has a value that
/// encodes against the type of the field, the fields of a struct value are
/// the encodings of those values, one after the other in the order of the
/// fields.
pub proof fn law_struct_fields_in_order(
    abi: AbiView,
    fields: Seq<AbiFieldView>,
    entries: Seq<(Seq<char>, ValueView)>,
)
    requires
        forall|i: int|
            0 <= i < fields.len() ==> entry_lookup(entries, (#[trigger] fields[i]).name) is Some
                && encode_spec(
                abi,
                fields[i].ty,
                entry_lookup(entries, fields[i].name)->Some_0,
            ) is Ok,
    ensures
        encode_fields_spec(abi, fields, entries) == Ok::<Seq<u8>, CodecErrorView>(
            field_encodings(abi, fields, entries).flatten(),
        ),
    decreases fields.len(),
{
    let all = field_encodings(abi, fields, entries);
    if fields.len() == 0 {
        assert(all =~= Seq::<Seq<u8>>::empty());
        assert(all.flatten() =~= Seq::<u8>::empty());
    } else {
        let front = fields.drop_last();
        let field = fields.last();
        assert forall|i: int| 0 <= i < front.len() implies entry_lookup(
            entries,
            (#[trigger] front[i]).name,
        ) is Some && encode_spec(
            abi,
            front[i].ty,
            entry_lookup(entries, front[i].name)->Some_0,
        ) is Ok by {
            assert(front[i] == fields[i]);
        }
        law_struct_fields_in_order(abi, front, entries);
        assert(field == fields[fields.len() - 1]);
        crate::text::lemma_index_of(entry_names(entries), field.name);
        let last = encode_spec(abi, field.ty, entry_lookup(entries, field.name)->Some_0)->Ok_0;
        assert(all =~= field_encodings(abi, front, entries).push(last)) by {
            assert forall|i: int| 0 <= i < front.len() implies all[i] == field_encodings(
                abi,
                front,
                entries,
            )[i] by {
                assert(front[i] == fields[i]);
            }
        }
        field_encodings(abi, front, entries).lemma_flatten_push(last);
    }
}

} // verus!
