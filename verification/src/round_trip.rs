//! The two round-trip laws: what was encoded decodes to the value it came
//! from, and what was decoded encodes to the bytes it came from.
//!
//! Neither holds of every input. A struct value with its entries in another
//! order than the fields decodes to the declared order; an extension field
//! that is `Null` can only be told from a present one at the end of the
//! input; a count written in more bytes than it needs is read, but never
//! written. Each law is stated with the predicate that leaves such inputs
//! out.
use vstd::prelude::*;
use crate::abi::{AbiFieldView, AbiView};
use crate::decode::{
    decode_at_spec, decode_fields_spec, decode_items_spec, decode_resolved_spec, decode_spec,
};
use crate::encode::{encode_fields_spec, encode_items_spec, encode_resolved_spec, encode_spec};
use crate::error::CodecErrorView;
use crate::primitive::{
    decode_builtin_spec, decode_count_spec, encode_builtin_spec, fixed_width,
};
use crate::resolve::Builtin;
use crate::resolve::{ResolvedTypeView, builtin_spec, resolve_spec, struct_fields_spec};
use crate::text::{index_of, lemma_index_of};
use crate::value::{ValueView, entry_names};
use crate::wire::{
    le_bytes, le_value, lemma_le_bytes_value, lemma_le_value_bytes, lemma_pow256,
    lemma_signed_unsigned, lemma_unsigned_signed, lemma_varuint_round_trip, pow256,
    to_unsigned, varuint_bytes,
};

verus! {

/// Whether a decoding stopped because types nested deeper than its fuel
/// allowed.
pub open spec fn ran_out<T>(r: Result<T, CodecErrorView>) -> bool {
    r matches Err(CodecErrorView::SchemaParseError { .. })
}

/// The built-in type `name` reads `v` back: wherever the bytes of `v` stand
/// in an input, decoding there gives `v` and the position after them.
pub open spec fn builtin_reads_back(name: Seq<char>, v: ValueView) -> bool {
    match builtin_spec(name) {
        None => true,
        Some(b) => match encode_builtin_spec(b, name, v) {
            Err(_) => true,
            Ok(enc) => forall|data: Seq<u8>, pos: nat|
                stands_at(data, pos, enc) ==> #[trigger] decode_builtin_spec(b, name, data, pos)
                    == Ok::<(ValueView, nat), CodecErrorView>((v, pos + enc.len())),
        },
    }
}

/// The bytes `enc` stand at `pos` in `data`.
pub open spec fn stands_at(data: Seq<u8>, pos: nat, enc: Seq<u8>) -> bool {
    pos + enc.len() <= data.len() && data.subrange(pos as int, (pos + enc.len()) as int) == enc
}

/// Where two runs of bytes stand one after the other, each stands at its
/// place.
pub proof fn lemma_stands_split(data: Seq<u8>, pos: nat, a: Seq<u8>, b: Seq<u8>)
    requires
        stands_at(data, pos, a + b),
    ensures
        stands_at(data, pos, a),
        stands_at(data, pos + a.len(), b),
{
    let whole = data.subrange(pos as int, (pos + (a + b).len()) as int);
    assert(data.subrange(pos as int, (pos + a.len()) as int) =~= a) by {
        assert forall|i: int| 0 <= i < a.len() implies data[pos + i] == a[i] by {
            assert(whole[i] == (a + b)[i]);
        }
    }
    assert(data.subrange((pos + a.len()) as int, (pos + a.len() + b.len()) as int) =~= b) by {
        assert forall|i: int| 0 <= i < b.len() implies data[pos + a.len() + i] == b[i] by {
            assert(whole[a.len() + i] == (a + b)[a.len() + i]);
        }
    }
}

/// Where bytes stand at `pos`, what is left of the input from `pos` starts
/// with them.
pub proof fn lemma_stands_prefix(data: Seq<u8>, pos: nat, a: Seq<u8>)
    requires
        stands_at(data, pos, a),
    ensures
        a.len() <= data.subrange(pos as int, data.len() as int).len(),
        data.subrange(pos as int, data.len() as int).subrange(0, a.len() as int) == a,
{
    let rest = data.subrange(pos as int, data.len() as int);
    assert(rest.subrange(0, a.len() as int) =~= data.subrange(
        pos as int,
        (pos + a.len()) as int,
    ));
}

/// Number of bytes of an encoding, 0 for a failure.
pub open spec fn encoded_len(r: Result<Seq<u8>, CodecErrorView>) -> nat {
    match r {
        Ok(bytes) => bytes.len(),
        Err(_) => 0,
    }
}

/// The names of the fields, in order.
pub open spec fn field_names(fields: Seq<AbiFieldView>) -> Seq<Seq<char>> {
    fields.map_values(|f: AbiFieldView| f.name)
}

/// No name occurs twice.
pub open spec fn distinct(names: Seq<Seq<char>>) -> bool {
    forall|i: int, j: int| 0 <= i < names.len() && 0 <= j < names.len() && i != j ==> names[i]
        != names[j]
}

/// The value `v` of the type `rt` is one that decoding gives back, when
/// `after` bytes follow its encoding in the input.
///
/// * A struct value holds exactly the fields of the struct, in their order,
///   and no two fields have one name.
/// * A variant value is a pair of a member type name and a value.
/// * An extension that is `Null` stands at the end of the input, and one
///   that is not is followed by input or has bytes of its own.
/// * A value of a built-in type is one that the type reads back.
pub open spec fn reads_back(abi: AbiView, rt: ResolvedTypeView, v: ValueView, after: nat) -> bool
    decreases v, rt.depth(),
{
    match rt {
        ResolvedTypeView::Standard(name) => builtin_reads_back(name, v),
        ResolvedTypeView::Alias(inner) => reads_back(abi, *inner, v, after),
        ResolvedTypeView::Optional(inner) => v == ValueView::Null || reads_back(
            abi,
            *inner,
            v,
            after,
        ),
        ResolvedTypeView::Extension(inner) => if v == ValueView::Null {
            after == 0
        } else {
            reads_back(abi, *inner, v, after) && (after > 0 || encoded_len(
                encode_resolved_spec(abi, *inner, v),
            ) > 0)
        },
        ResolvedTypeView::Array(inner) => match v {
            ValueView::Array(items) => items_read_back(abi, *inner, items, after),
            _ => true,
        },
        ResolvedTypeView::Variant(variant) => match v {
            ValueView::Array(items) => if items.len() == 2 && items[0] is String {
                match resolve_spec(abi, items[0]->String_0) {
                    Ok(member) => reads_back(abi, member, items[1], after),
                    Err(_) => true,
                }
            } else {
                true
            },
            _ => true,
        },
        ResolvedTypeView::Struct(s) => match v {
            ValueView::Struct(entries) => match struct_fields_spec(abi, s) {
                Ok(fields) => entry_names(entries) == field_names(fields) && distinct(
                    field_names(fields),
                ) && fields_read_back(abi, fields, entries, after),
                Err(_) => true,
            },
            _ => true,
        },
    }
}

/// Each of `items` is a value of the type `inner` that decoding gives back,
/// when `after` bytes follow the encoding of the last.
pub open spec fn items_read_back(
    abi: AbiView,
    inner: ResolvedTypeView,
    items: Seq<ValueView>,
    after: nat,
) -> bool
    decreases items, 0nat,
{
    if items.len() == 0 {
        true
    } else {
        reads_back(abi, inner, items.last(), after) && items_read_back(
            abi,
            inner,
            items.drop_last(),
            after + encoded_len(encode_resolved_spec(abi, inner, items.last())),
        )
    }
}

/// The entry of each of `fields` is a value of the type of the field that
/// decoding gives back, when `after` bytes follow the encoding of the last.
pub open spec fn fields_read_back(
    abi: AbiView,
    fields: Seq<AbiFieldView>,
    entries: Seq<(Seq<char>, ValueView)>,
    after: nat,
) -> bool
    decreases entries, fields.len(),
{
    if fields.len() == 0 {
        true
    } else {
        let field = fields.last();
        match index_of(entry_names(entries), field.name) {
            None => true,
            Some(i) => if 0 <= i < entries.len() {
                match resolve_spec(abi, field.ty) {
                    Err(_) => true,
                    Ok(rt) => reads_back(abi, rt, entries[i].1, after) && fields_read_back(
                        abi,
                        fields.drop_last(),
                        entries,
                        after + encoded_len(encode_resolved_spec(abi, rt, entries[i].1)),
                    ),
                }
            } else {
                true
            },
        }
    }
}

/// Inverse round trip, for one value: where the encoding of `v` stands at
/// `pos` in `data`, and `v` is a value that decoding gives back, decoding at
/// `pos` gives `v` and the position after the encoding, unless it stops for
/// want of fuel.
pub proof fn law_encode_then_decode_at(
    abi: AbiView,
    rt: ResolvedTypeView,
    v: ValueView,
    data: Seq<u8>,
    pos: nat,
    fuel: nat,
)
    requires
        encode_resolved_spec(abi, rt, v) matches Ok(enc) && stands_at(data, pos, enc)
            && reads_back(abi, rt, v, (data.len() - pos - enc.len()) as nat),
        !ran_out(decode_resolved_spec(abi, rt, data, pos, fuel)),
    ensures
        decode_resolved_spec(abi, rt, data, pos, fuel) == Ok::<(ValueView, nat), CodecErrorView>(
            (v, pos + encode_resolved_spec(abi, rt, v)->Ok_0.len()),
        ),
    decreases v, rt.depth(),
{
    let enc = encode_resolved_spec(abi, rt, v)->Ok_0;
    match rt {
        ResolvedTypeView::Standard(name) => {},
        ResolvedTypeView::Alias(inner) => {
            law_encode_then_decode_at(abi, *inner, v, data, pos, fuel);
        },
        ResolvedTypeView::Optional(inner) => {
            if v == ValueView::Null {
                assert(enc == seq![0u8]);
                assert(data.subrange(pos as int, (pos + 1) as int)[0] == data[pos as int]);
            } else {
                let rest = encode_resolved_spec(abi, *inner, v)->Ok_0;
                assert(enc == seq![1u8] + rest);
                lemma_stands_split(data, pos, seq![1u8], rest);
                assert(data.subrange(pos as int, (pos + 1) as int)[0] == data[pos as int]);
                law_encode_then_decode_at(abi, *inner, v, data, pos + 1, fuel);
            }
        },
        ResolvedTypeView::Extension(inner) => {
            if v != ValueView::Null {
                law_encode_then_decode_at(abi, *inner, v, data, pos, fuel);
            }
        },
        ResolvedTypeView::Array(inner) => {
            let items = v->Array_0;
            let head = varuint_bytes(items.len());
            let body = encode_items_spec(abi, *inner, items)->Ok_0;
            assert(enc == head + body);
            lemma_stands_split(data, pos, head, body);
            lemma_stands_prefix(data, pos, head);
            lemma_varuint_round_trip(items.len(), data.subrange(pos as int, data.len() as int));
            lemma_encode_items_then_decode(abi, *inner, items, data, pos + head.len(), fuel);
        },
        ResolvedTypeView::Variant(variant) => {
            let items = v->Array_0;
            let tag = items[0]->String_0;
            let i = index_of(variant.types, tag)->Some_0;
            lemma_index_of(variant.types, tag);
            let member = resolve_spec(abi, tag)->Ok_0;
            let head = varuint_bytes(i as nat);
            let body = encode_resolved_spec(abi, member, items[1])->Ok_0;
            assert(enc == head + body);
            lemma_stands_split(data, pos, head, body);
            lemma_stands_prefix(data, pos, head);
            lemma_varuint_round_trip(i as nat, data.subrange(pos as int, data.len() as int));
            if fuel > 0 {
                law_encode_then_decode_at(
                    abi,
                    member,
                    items[1],
                    data,
                    pos + head.len(),
                    (fuel - 1) as nat,
                );
                assert(seq![ValueView::String(tag), items[1]] =~= items);
            }
        },
        ResolvedTypeView::Struct(s) => {
            let entries = v->Struct_0;
            let fields = struct_fields_spec(abi, s)->Ok_0;
            assert(entries.len() == fields.len()) by {
                assert(entry_names(entries).len() == field_names(fields).len());
            }
            assert forall|k: int| 0 <= k < fields.len() implies entries[k].0
                == #[trigger] fields[k].name by {
                assert(entry_names(entries)[k] == field_names(fields)[k]);
            }
            lemma_encode_fields_then_decode(abi, fields, entries, data, pos, fuel);
            assert(entries.take(fields.len() as int) =~= entries);
        },
    }
}

/// Inverse round trip, for the items of an array.
proof fn lemma_encode_items_then_decode(
    abi: AbiView,
    inner: ResolvedTypeView,
    items: Seq<ValueView>,
    data: Seq<u8>,
    pos: nat,
    fuel: nat,
)
    requires
        encode_items_spec(abi, inner, items) matches Ok(enc) && stands_at(data, pos, enc)
            && items_read_back(abi, inner, items, (data.len() - pos - enc.len()) as nat),
        !ran_out(decode_items_spec(abi, inner, data, pos, items.len(), fuel)),
    ensures
        decode_items_spec(abi, inner, data, pos, items.len(), fuel) == Ok::<
            (Seq<ValueView>, nat),
            CodecErrorView,
        >((items, pos + encode_items_spec(abi, inner, items)->Ok_0.len())),
    decreases items, 0nat,
{
    let enc = encode_items_spec(abi, inner, items)->Ok_0;
    if items.len() == 0 {
        assert(items =~= Seq::<ValueView>::empty());
    } else {
        let head = encode_items_spec(abi, inner, items.drop_last())->Ok_0;
        let last = encode_resolved_spec(abi, inner, items.last())->Ok_0;
        assert(enc == head + last);
        lemma_stands_split(data, pos, head, last);
        assert(items.drop_last().len() == items.len() - 1);
        lemma_encode_items_then_decode(abi, inner, items.drop_last(), data, pos, fuel);
        law_encode_then_decode_at(abi, inner, items.last(), data, pos + head.len(), fuel);
        assert(items.drop_last().push(items.last()) =~= items);
    }
}

/// Inverse round trip, for the fields of a struct: the entries are those of
/// the fields, in their order.
proof fn lemma_encode_fields_then_decode(
    abi: AbiView,
    fields: Seq<AbiFieldView>,
    entries: Seq<(Seq<char>, ValueView)>,
    data: Seq<u8>,
    pos: nat,
    fuel: nat,
)
    requires
        fields.len() <= entries.len(),
        distinct(entry_names(entries)),
        forall|k: int| 0 <= k < fields.len() ==> entries[k].0 == #[trigger] fields[k].name,
        encode_fields_spec(abi, fields, entries) matches Ok(enc) && stands_at(data, pos, enc)
            && fields_read_back(abi, fields, entries, (data.len() - pos - enc.len()) as nat),
        !ran_out(decode_fields_spec(abi, fields, data, pos, fuel)),
    ensures
        decode_fields_spec(abi, fields, data, pos, fuel) == Ok::<
            (Seq<(Seq<char>, ValueView)>, nat),
            CodecErrorView,
        >(
            (
                entries.take(fields.len() as int),
                pos + encode_fields_spec(abi, fields, entries)->Ok_0.len(),
            ),
        ),
    decreases entries, fields.len(),
{
    let enc = encode_fields_spec(abi, fields, entries)->Ok_0;
    let names = entry_names(entries);
    if fields.len() == 0 {
        assert(entries.take(0) =~= Seq::<(Seq<char>, ValueView)>::empty());
    } else {
        let n = fields.len() - 1;
        let field = fields.last();
        let head = encode_fields_spec(abi, fields.drop_last(), entries)->Ok_0;
        lemma_index_of(names, field.name);
        assert(names[n] == field.name) by {
            assert(entries[n].0 == fields[n].name);
        }
        let i = index_of(names, field.name)->Some_0;
        assert(i == n);
        let rt = resolve_spec(abi, field.ty)->Ok_0;
        let last = encode_resolved_spec(abi, rt, entries[n].1)->Ok_0;
        assert(enc == head + last);
        lemma_stands_split(data, pos, head, last);
        assert forall|k: int| 0 <= k < fields.drop_last().len() implies entries[k].0
            == #[trigger] fields.drop_last()[k].name by {
            assert(fields.drop_last()[k] == fields[k]);
        }
        lemma_encode_fields_then_decode(abi, fields.drop_last(), entries, data, pos, fuel);
        if fuel > 0 {
            law_encode_then_decode_at(
                abi,
                rt,
                entries[n].1,
                data,
                pos + head.len(),
                (fuel - 1) as nat,
            );
            let before = entries.take(n);
            lemma_index_of(entry_names(before), field.name);
            assert(index_of(entry_names(before), field.name).is_none()) by {
                if index_of(entry_names(before), field.name).is_some() {
                    let j = index_of(entry_names(before), field.name)->Some_0;
                    assert(entry_names(before)[j] == names[j]);
                }
            }
            assert(before.push((field.name, entries[n].1)) =~= entries.take(n + 1));
        }
    }
}

/// Inverse round trip: where encoding `v` as a value of the type named `ty`
/// gives `bytes`, and `v` is a value that decoding gives back, decoding
/// `bytes` gives `v`, unless it stops for want of fuel.
pub proof fn law_encode_then_decode(abi: AbiView, ty: Seq<char>, v: ValueView)
    requires
        encode_spec(abi, ty, v) matches Ok(bytes) && reads_back(
            abi,
            resolve_spec(abi, ty)->Ok_0,
            v,
            0,
        ) && !ran_out(decode_spec(abi, ty, bytes)),
    ensures
        decode_spec(abi, ty, encode_spec(abi, ty, v)->Ok_0) == Ok::<ValueView, CodecErrorView>(v),
{
    let bytes = encode_spec(abi, ty, v)->Ok_0;
    let rt = resolve_spec(abi, ty)->Ok_0;
    assert(bytes.subrange(0, bytes.len() as int) =~= bytes);
    assert(stands_at(bytes, 0, bytes));
    law_encode_then_decode_at(abi, rt, v, bytes, 0, crate::decode::decode_fuel(abi, bytes.len()));
}

/// The built-in type `name` writes back what it reads at `pos` in `data`:
/// the value that decoding gives there encodes to the bytes that were read.
pub open spec fn builtin_writes_back(name: Seq<char>, data: Seq<u8>, pos: nat) -> bool {
    match builtin_spec(name) {
        None => true,
        Some(b) => match decode_builtin_spec(b, name, data, pos) {
            Err(_) => true,
            Ok((v, next)) => pos <= next <= data.len() && encode_builtin_spec(b, name, v) == Ok::<
                Seq<u8>,
                CodecErrorView,
            >(data.subrange(pos as int, next as int)),
        },
    }
}

/// The count at `pos` in `data` is written in as few bytes as it needs.
pub open spec fn count_is_shortest(ty: Seq<char>, data: Seq<u8>, pos: nat) -> bool {
    let rest = data.subrange(pos as int, data.len() as int);
    match decode_count_spec(ty, rest, pos) {
        Err(_) => true,
        Ok((n, k)) => k <= rest.len() && varuint_bytes(n as nat) == rest.subrange(0, k as int),
    }
}

/// The input at `pos` in `data` is one that encoding gives back for the type
/// `rt`.
///
/// * A count and a variant tag are written in as few bytes as they need.
/// * A variant tag is the first position of its member type.
/// * No two fields of a struct have one name.
/// * A present optional does not hold `Null`, and neither does a present
///   extension, unless no byte was read for it.
/// * What is read for a built-in type is what the type writes back.
pub open spec fn writes_back(
    abi: AbiView,
    rt: ResolvedTypeView,
    data: Seq<u8>,
    pos: nat,
    fuel: nat,
) -> bool
    decreases fuel, 1nat, 2 * rt.depth(), 0nat,
{
    match rt {
        ResolvedTypeView::Standard(name) => builtin_writes_back(name, data, pos),
        ResolvedTypeView::Alias(inner) => writes_back(abi, *inner, data, pos, fuel),
        ResolvedTypeView::Optional(inner) => if pos < data.len() && data[pos as int] == 1 {
            writes_back(abi, *inner, data, pos + 1, fuel) && !(decode_resolved_spec(
                abi,
                *inner,
                data,
                pos + 1,
                fuel,
            ) matches Ok((ValueView::Null, _)))
        } else {
            true
        },
        ResolvedTypeView::Extension(inner) => if pos < data.len() {
            writes_back(abi, *inner, data, pos, fuel) && match decode_resolved_spec(
                abi,
                *inner,
                data,
                pos,
                fuel,
            ) {
                Ok((value, next)) => value != ValueView::Null || next == pos,
                Err(_) => true,
            }
        } else {
            true
        },
        ResolvedTypeView::Array(inner) => count_is_shortest("[]"@, data, pos)
            && match decode_count_spec("[]"@, data.subrange(pos as int, data.len() as int), pos) {
            Err(_) => true,
            Ok((n, k)) => items_write_back(abi, *inner, data, pos + k, n as nat, fuel),
        },
        ResolvedTypeView::Variant(variant) => count_is_shortest(variant.name, data, pos)
            && match decode_count_spec(
            variant.name,
            data.subrange(pos as int, data.len() as int),
            pos,
        ) {
            Err(_) => true,
            Ok((tag, k)) => if tag < variant.types.len() && fuel > 0 {
                index_of(variant.types, variant.types[tag as int]) == Some(tag as int)
                    && match resolve_spec(abi, variant.types[tag as int]) {
                    Err(_) => true,
                    Ok(member) => writes_back(abi, member, data, pos + k, (fuel - 1) as nat),
                }
            } else {
                true
            },
        },
        ResolvedTypeView::Struct(s) => match struct_fields_spec(abi, s) {
            Err(_) => true,
            Ok(fields) => distinct(field_names(fields)) && fields_write_back(
                abi,
                fields,
                data,
                pos,
                fuel,
            ),
        },
    }
}

/// The `n` items from `pos` in `data` are input that encoding gives back
/// for the type `inner`.
pub open spec fn items_write_back(
    abi: AbiView,
    inner: ResolvedTypeView,
    data: Seq<u8>,
    pos: nat,
    n: nat,
    fuel: nat,
) -> bool
    decreases fuel, 1nat, 2 * inner.depth() + 1, n,
{
    if n == 0 {
        true
    } else {
        items_write_back(abi, inner, data, pos, (n - 1) as nat, fuel) && match decode_items_spec(
            abi,
            inner,
            data,
            pos,
            (n - 1) as nat,
            fuel,
        ) {
            Err(_) => true,
            Ok((_, at)) => writes_back(abi, inner, data, at, fuel),
        }
    }
}

/// The fields from `pos` in `data` are input that encoding gives back for
/// the types of `fields`.
pub open spec fn fields_write_back(
    abi: AbiView,
    fields: Seq<AbiFieldView>,
    data: Seq<u8>,
    pos: nat,
    fuel: nat,
) -> bool
    decreases fuel, 0nat, fields.len(), 0nat,
{
    if fields.len() == 0 {
        true
    } else {
        fields_write_back(abi, fields.drop_last(), data, pos, fuel) && match decode_fields_spec(
            abi,
            fields.drop_last(),
            data,
            pos,
            fuel,
        ) {
            Err(_) => true,
            Ok((_, at)) => if fuel > 0 {
                match resolve_spec(abi, fields.last().ty) {
                    Err(_) => true,
                    Ok(rt) => writes_back(abi, rt, data, at, (fuel - 1) as nat),
                }
            } else {
                true
            },
        }
    }
}

/// Two runs of input that follow one another are one run.
pub proof fn lemma_subrange_joined(data: Seq<u8>, from: nat, mid: nat, to: nat)
    requires
        from <= mid <= to <= data.len(),
    ensures
        data.subrange(from as int, mid as int) + data.subrange(mid as int, to as int)
            == data.subrange(from as int, to as int),
{
    assert(data.subrange(from as int, mid as int) + data.subrange(mid as int, to as int)
        =~= data.subrange(from as int, to as int));
}

/// Round trip, for one value: where decoding at `pos` in `data` gives a
/// value and the position `next`, and the input is one that encoding gives
/// back, the value encodes to the bytes from `pos` to `next`.
pub proof fn law_decode_then_encode_at(
    abi: AbiView,
    rt: ResolvedTypeView,
    data: Seq<u8>,
    pos: nat,
    fuel: nat,
)
    requires
        pos <= data.len(),
        decode_resolved_spec(abi, rt, data, pos, fuel) is Ok,
        writes_back(abi, rt, data, pos, fuel),
    ensures
        pos <= decode_resolved_spec(abi, rt, data, pos, fuel)->Ok_0.1 <= data.len(),
        encode_resolved_spec(abi, rt, decode_resolved_spec(abi, rt, data, pos, fuel)->Ok_0.0)
            == Ok::<Seq<u8>, CodecErrorView>(
            data.subrange(
                pos as int,
                decode_resolved_spec(abi, rt, data, pos, fuel)->Ok_0.1 as int,
            ),
        ),
    decreases fuel, 1nat, 2 * rt.depth(), 0nat,
{
    let v = decode_resolved_spec(abi, rt, data, pos, fuel)->Ok_0.0;
    let next = decode_resolved_spec(abi, rt, data, pos, fuel)->Ok_0.1;
    let rest = data.subrange(pos as int, data.len() as int);
    match rt {
        ResolvedTypeView::Standard(name) => {},
        ResolvedTypeView::Alias(inner) => {
            law_decode_then_encode_at(abi, *inner, data, pos, fuel);
        },
        ResolvedTypeView::Optional(inner) => {
            if data[pos as int] == 0 {
                assert(data.subrange(pos as int, (pos + 1) as int) =~= seq![0u8]);
            } else {
                law_decode_then_encode_at(abi, *inner, data, pos + 1, fuel);
                assert(data.subrange(pos as int, (pos + 1) as int) =~= seq![1u8]);
                lemma_subrange_joined(data, pos, pos + 1, next);
            }
        },
        ResolvedTypeView::Extension(inner) => {
            if pos < data.len() {
                law_decode_then_encode_at(abi, *inner, data, pos, fuel);
                if v == ValueView::Null {
                    assert(data.subrange(pos as int, pos as int) =~= Seq::<u8>::empty());
                }
            } else {
                assert(data.subrange(pos as int, pos as int) =~= Seq::<u8>::empty());
            }
        },
        ResolvedTypeView::Array(inner) => {
            let (n, k) = decode_count_spec("[]"@, rest, pos)->Ok_0;
            lemma_decode_items_then_encode(abi, *inner, data, pos + k, n as nat, fuel);
            assert(rest.subrange(0, k as int) =~= data.subrange(pos as int, (pos + k) as int));
            lemma_subrange_joined(data, pos, pos + k, next);
        },
        ResolvedTypeView::Variant(variant) => {
            let (tag, k) = decode_count_spec(variant.name, rest, pos)->Ok_0;
            let member = variant.types[tag as int];
            let inner = resolve_spec(abi, member)->Ok_0;
            law_decode_then_encode_at(abi, inner, data, pos + k, (fuel - 1) as nat);
            assert(rest.subrange(0, k as int) =~= data.subrange(pos as int, (pos + k) as int));
            lemma_subrange_joined(data, pos, pos + k, next);
        },
        ResolvedTypeView::Struct(s) => {
            let fields = struct_fields_spec(abi, s)->Ok_0;
            let got = decode_fields_spec(abi, fields, data, pos, fuel)->Ok_0.0;
            assert(got.take(got.len() as int) =~= got);
            lemma_decode_fields_then_encode(abi, fields, data, pos, fuel, got);
        },
    }
}

/// Round trip, for the items of an array.
proof fn lemma_decode_items_then_encode(
    abi: AbiView,
    inner: ResolvedTypeView,
    data: Seq<u8>,
    pos: nat,
    n: nat,
    fuel: nat,
)
    requires
        pos <= data.len(),
        decode_items_spec(abi, inner, data, pos, n, fuel) is Ok,
        items_write_back(abi, inner, data, pos, n, fuel),
    ensures
        pos <= decode_items_spec(abi, inner, data, pos, n, fuel)->Ok_0.1 <= data.len(),
        decode_items_spec(abi, inner, data, pos, n, fuel)->Ok_0.0.len() == n,
        encode_items_spec(abi, inner, decode_items_spec(abi, inner, data, pos, n, fuel)->Ok_0.0)
            == Ok::<Seq<u8>, CodecErrorView>(
            data.subrange(
                pos as int,
                decode_items_spec(abi, inner, data, pos, n, fuel)->Ok_0.1 as int,
            ),
        ),
    decreases fuel, 1nat, 2 * inner.depth() + 1, n,
{
    if n == 0 {
        assert(data.subrange(pos as int, pos as int) =~= Seq::<u8>::empty());
    } else {
        let (head, at) = decode_items_spec(abi, inner, data, pos, (n - 1) as nat, fuel)->Ok_0;
        let (value, next) = decode_resolved_spec(abi, inner, data, at, fuel)->Ok_0;
        lemma_decode_items_then_encode(abi, inner, data, pos, (n - 1) as nat, fuel);
        law_decode_then_encode_at(abi, inner, data, at, fuel);
        let items = head.push(value);
        assert(items.drop_last() =~= head);
        assert(items.last() == value);
        lemma_subrange_joined(data, pos, at, next);
    }
}

/// Round trip, for the fields of a struct: the entries that decoding gives
/// are those of the fields, in their order, and any struct value that
/// starts with them encodes, for these fields, to the bytes that were read.
proof fn lemma_decode_fields_then_encode(
    abi: AbiView,
    fields: Seq<AbiFieldView>,
    data: Seq<u8>,
    pos: nat,
    fuel: nat,
    entries: Seq<(Seq<char>, ValueView)>,
)
    requires
        pos <= data.len(),
        decode_fields_spec(abi, fields, data, pos, fuel) matches Ok((got, _)) && got.len()
            <= entries.len() && entries.take(got.len() as int) == got,
        fields_write_back(abi, fields, data, pos, fuel),
        distinct(field_names(fields)),
        distinct(entry_names(entries)) || entries.len() == decode_fields_spec(
            abi,
            fields,
            data,
            pos,
            fuel,
        )->Ok_0.0.len(),
    ensures
        pos <= decode_fields_spec(abi, fields, data, pos, fuel)->Ok_0.1 <= data.len(),
        entry_names(decode_fields_spec(abi, fields, data, pos, fuel)->Ok_0.0) == field_names(
            fields,
        ),
        encode_fields_spec(abi, fields, entries) == Ok::<Seq<u8>, CodecErrorView>(
            data.subrange(
                pos as int,
                decode_fields_spec(abi, fields, data, pos, fuel)->Ok_0.1 as int,
            ),
        ),
    decreases fuel, 0nat, fields.len(), 0nat,
{
    let (got, next) = decode_fields_spec(abi, fields, data, pos, fuel)->Ok_0;
    if fields.len() == 0 {
        assert(data.subrange(pos as int, pos as int) =~= Seq::<u8>::empty());
        assert(entry_names(got) =~= field_names(fields));
    } else {
        let n = fields.len() - 1;
        let field = fields.last();
        let front = fields.drop_last();
        let (head, at) = decode_fields_spec(abi, front, data, pos, fuel)->Ok_0;
        let rt = resolve_spec(abi, field.ty)->Ok_0;
        let (value, after) = decode_resolved_spec(abi, rt, data, at, (fuel - 1) as nat)->Ok_0;
        assert(distinct(field_names(front))) by {
            assert forall|i: int, j: int|
                0 <= i < front.len() && 0 <= j < front.len() && i != j implies field_names(
                front,
            )[i] != field_names(front)[j] by {
                assert(field_names(front)[i] == field_names(fields)[i]);
                assert(field_names(front)[j] == field_names(fields)[j]);
            }
        }
        assert(head.take(head.len() as int) =~= head);
        lemma_decode_fields_then_encode(abi, front, data, pos, fuel, head);
        assert(entry_names(head) == field_names(front));
        assert(head.len() == n) by {
            assert(entry_names(head).len() == field_names(front).len());
        }
        lemma_index_of(entry_names(head), field.name);
        assert(index_of(entry_names(head), field.name).is_none()) by {
            if index_of(entry_names(head), field.name).is_some() {
                let j = index_of(entry_names(head), field.name)->Some_0;
                assert(field_names(front)[j] == field_names(fields)[j]);
                assert(field_names(fields)[n] == field.name);
            }
        }
        assert(got == head.push((field.name, value)));
        assert(entry_names(got) =~= field_names(fields)) by {
            assert forall|i: int| 0 <= i < got.len() implies entry_names(got)[i] == field_names(
                fields,
            )[i] by {
                if i < n {
                    assert(entry_names(head)[i] == field_names(front)[i]);
                    assert(field_names(front)[i] == field_names(fields)[i]);
                }
            }
        }
        assert(distinct(entry_names(entries))) by {
            if entries.len() == got.len() {
                assert(entries =~= entries.take(got.len() as int));
            }
        }
        assert(entries.take(n) =~= head) by {
            assert forall|i: int| 0 <= i < n implies entries[i] == head[i] by {
                assert(entries.take(got.len() as int)[i] == got[i]);
            }
        }
        lemma_decode_fields_then_encode(abi, front, data, pos, fuel, entries);
        law_decode_then_encode_at(abi, rt, data, at, (fuel - 1) as nat);
        assert(entries[n] == (field.name, value)) by {
            assert(entries.take(got.len() as int)[n] == got[n]);
        }
        lemma_index_of(entry_names(entries), field.name);
        assert(entry_names(entries)[n] == field.name);
        assert(index_of(entry_names(entries), field.name) == Some(n as int));
        lemma_subrange_joined(data, pos, at, after);
    }
}

/// Round trip: where decoding `data` as a value of the type named `ty`
/// gives a value, and the input is one that encoding gives back, the value
/// encodes to the bytes of `data` that were read.
pub proof fn law_decode_then_encode(abi: AbiView, ty: Seq<char>, data: Seq<u8>)
    requires
        decode_at_spec(abi, ty, data, 0) is Ok,
        writes_back(
            abi,
            resolve_spec(abi, ty)->Ok_0,
            data,
            0,
            crate::decode::decode_fuel(abi, data.len()),
        ),
    ensures
        decode_at_spec(abi, ty, data, 0)->Ok_0.1 <= data.len(),
        encode_spec(abi, ty, decode_spec(abi, ty, data)->Ok_0) == Ok::<Seq<u8>, CodecErrorView>(
            data.subrange(0, decode_at_spec(abi, ty, data, 0)->Ok_0.1 as int),
        ),
{
    let rt = resolve_spec(abi, ty)->Ok_0;
    law_decode_then_encode_at(abi, rt, data, 0, crate::decode::decode_fuel(abi, data.len()));
}

/// The built-in type `b` decodes to a value of the same shape as the one
/// that it encodes: a number, a float, a truth value, bytes or a string of
/// its own type, or the binary form of a name, a symbol code, a symbol, an
/// asset or an extended asset.
pub open spec fn keeps_shape(b: Builtin, v: ValueView) -> bool {
    match (b, v) {
        (Builtin::Bool, ValueView::Bool(_)) => true,
        (Builtin::Int8, ValueView::Int8(_)) => true,
        (Builtin::Int16, ValueView::Int16(_)) => true,
        (Builtin::Int32, ValueView::Int32(_)) => true,
        (Builtin::Int64, ValueView::Int64(_)) => true,
        (Builtin::Int128, ValueView::Int128(_)) => true,
        (Builtin::Uint8, ValueView::Uint8(_)) => true,
        (Builtin::Uint16, ValueView::Uint16(_)) => true,
        (Builtin::Uint32, ValueView::Uint32(_)) => true,
        (Builtin::Uint64, ValueView::Uint64(_)) => true,
        (Builtin::Uint128, ValueView::Uint128(_)) => true,
        (Builtin::Varuint32, ValueView::Uint32(_)) => true,
        (Builtin::Float32, ValueView::Float32(_)) => true,
        (Builtin::Float64, ValueView::Float64(_)) => true,
        (Builtin::Bytes, ValueView::Bytes(_)) => true,
        (Builtin::String, ValueView::String(_)) => true,
        (Builtin::Name, ValueView::Semantic(_, _)) => true,
        (Builtin::SymbolCode, ValueView::Semantic(_, _)) => true,
        (Builtin::Symbol, ValueView::Semantic(_, _)) => true,
        (Builtin::Asset, ValueView::Semantic(_, _)) => true,
        (Builtin::ExtendedAsset, ValueView::Semantic(_, _)) => true,
        _ => false,
    }
}

/// The number that a fixed count of bytes holds is below 256 to that count.
proof fn lemma_fixed_bytes(v: nat, w: nat, data: Seq<u8>, pos: nat)
    requires
        v < pow256(w),
        stands_at(data, pos, le_bytes(v, w)),
    ensures
        le_bytes(v, w).len() == w,
        data.subrange(pos as int, data.len() as int).len() >= w,
        le_value(data.subrange(pos as int, data.len() as int).subrange(0, w as int)) == v,
{
    lemma_le_bytes_value(v, w);
    lemma_stands_prefix(data, pos, le_bytes(v, w));
}

/// Inverse round trip, for built-in types: a value that keeps its shape
/// reads back.
pub proof fn law_builtin_reads_back(name: Seq<char>, v: ValueView)
    requires
        builtin_spec(name) matches Some(b) && keeps_shape(b, v),
    ensures
        builtin_reads_back(name, v),
{
    let b = builtin_spec(name)->Some_0;
    lemma_pow256();
    match encode_builtin_spec(b, name, v) {
        Err(_) => {},
        Ok(enc) => {
            assert forall|data: Seq<u8>, pos: nat| stands_at(data, pos, enc) implies #[trigger] decode_builtin_spec(
                b,
                name,
                data,
                pos,
            ) == Ok::<(ValueView, nat), CodecErrorView>((v, pos + enc.len())) by {
                let rest = data.subrange(pos as int, data.len() as int);
                lemma_stands_prefix(data, pos, enc);
                match (b, v) {
                    (Builtin::Bool, ValueView::Bool(x)) => {
                        assert(enc.len() == 1);
                        let one = rest.subrange(0, 1);
                        assert(one.drop_first() =~= Seq::<u8>::empty());
                        assert(le_value(one) == one[0] as nat) by {
                            reveal_with_fuel(le_value, 2);
                        }
                    },
                    (Builtin::Int8, ValueView::Int8(n)) => {
                        lemma_signed_unsigned(n as int, 1);
                        lemma_fixed_bytes(to_unsigned(n as int, 1), 1, data, pos);
                    },
                    (Builtin::Int16, ValueView::Int16(n)) => {
                        lemma_signed_unsigned(n as int, 2);
                        lemma_fixed_bytes(to_unsigned(n as int, 2), 2, data, pos);
                    },
                    (Builtin::Int32, ValueView::Int32(n)) => {
                        lemma_signed_unsigned(n as int, 4);
                        lemma_fixed_bytes(to_unsigned(n as int, 4), 4, data, pos);
                    },
                    (Builtin::Int64, ValueView::Int64(n)) => {
                        lemma_signed_unsigned(n as int, 8);
                        lemma_fixed_bytes(to_unsigned(n as int, 8), 8, data, pos);
                    },
                    (Builtin::Int128, ValueView::Int128(n)) => {
                        lemma_signed_unsigned(n as int, 16);
                        lemma_fixed_bytes(to_unsigned(n as int, 16), 16, data, pos);
                    },
                    (Builtin::Uint8, ValueView::Uint8(n)) => {
                        lemma_fixed_bytes(n as nat, 1, data, pos);
                    },
                    (Builtin::Uint16, ValueView::Uint16(n)) => {
                        lemma_fixed_bytes(n as nat, 2, data, pos);
                    },
                    (Builtin::Uint32, ValueView::Uint32(n)) => {
                        lemma_fixed_bytes(n as nat, 4, data, pos);
                    },
                    (Builtin::Uint64, ValueView::Uint64(n)) => {
                        lemma_fixed_bytes(n as nat, 8, data, pos);
                    },
                    (Builtin::Uint128, ValueView::Uint128(n)) => {
                        lemma_fixed_bytes(n as nat, 16, data, pos);
                    },
                    (Builtin::Float32, ValueView::Float32(n)) => {
                        lemma_fixed_bytes(n as nat, 4, data, pos);
                    },
                    (Builtin::Float64, ValueView::Float64(n)) => {
                        lemma_fixed_bytes(n as nat, 8, data, pos);
                    },
                    (Builtin::Varuint32, ValueView::Uint32(n)) => {
                        lemma_varuint_round_trip(n as nat, rest);
                    },
                    (Builtin::Bytes, ValueView::Bytes(bytes)) => {
                        let head = varuint_bytes(bytes.len());
                        lemma_stands_split(data, pos, head, bytes);
                        lemma_stands_prefix(data, pos, head);
                        lemma_varuint_round_trip(bytes.len(), rest);
                        assert(rest.subrange(head.len() as int, (head.len() + bytes.len()) as int)
                            =~= bytes) by {
                            assert(rest.subrange(0, enc.len() as int) == enc);
                            assert forall|i: int| 0 <= i < bytes.len() implies rest[head.len() + i]
                                == bytes[i] by {
                                assert(rest.subrange(0, enc.len() as int)[head.len() + i] == enc[
                                    head.len() + i
                                ]);
                            }
                        }
                    },
                    (Builtin::String, ValueView::String(text)) => {
                        let bytes = vstd::utf8::encode_utf8(text);
                        let head = varuint_bytes(bytes.len());
                        lemma_stands_split(data, pos, head, bytes);
                        lemma_stands_prefix(data, pos, head);
                        lemma_varuint_round_trip(bytes.len(), rest);
                        assert(rest.subrange(head.len() as int, (head.len() + bytes.len()) as int)
                            =~= bytes) by {
                            assert(rest.subrange(0, enc.len() as int) == enc);
                            assert forall|i: int| 0 <= i < bytes.len() implies rest[head.len() + i]
                                == bytes[i] by {
                                assert(rest.subrange(0, enc.len() as int)[head.len() + i] == enc[
                                    head.len() + i
                                ]);
                            }
                        }
                        vstd::utf8::encode_utf8_valid_utf8(text);
                        vstd::utf8::encode_utf8_decode_utf8(text);
                    },
                    (_, ValueView::Semantic(kind, bytes)) => {},
                    _ => {},
                }
            }
        },
    }
}

/// What is read for the built-in type `b` at `pos` in `data` is in the form
/// in which the type writes it: a truth value is the byte 0 or 1, and a
/// count, or the count before bytes or a string, is written in as few bytes
/// as it needs. A number, a float, a binary form and a checksum always
/// are. The text of a key, of a signature and of a time is left out:
/// whether it is written back as it was read rests with the crates that
/// render and parse it.
pub open spec fn plainly_written(b: Builtin, name: Seq<char>, data: Seq<u8>, pos: nat) -> bool {
    match b {
        Builtin::Bool => pos < data.len() ==> data[pos as int] <= 1,
        Builtin::Varuint32 | Builtin::Bytes | Builtin::String => count_is_shortest(name, data, pos),
        Builtin::Int8 | Builtin::Int16 | Builtin::Int32 | Builtin::Int64 | Builtin::Int128
        | Builtin::Uint8 | Builtin::Uint16 | Builtin::Uint32 | Builtin::Uint64 | Builtin::Uint128
        | Builtin::Float32 | Builtin::Float64 | Builtin::Name | Builtin::SymbolCode
        | Builtin::Symbol | Builtin::Asset | Builtin::ExtendedAsset | Builtin::Checksum160
        | Builtin::Checksum256 | Builtin::Checksum512 => true,
        _ => false,
    }
}

/// Bytes of a fixed count write back as they were read.
proof fn lemma_fixed_value_bytes(bytes: Seq<u8>, w: nat)
    requires
        bytes.len() == w,
    ensures
        le_value(bytes) < pow256(w),
        le_bytes(le_value(bytes), w) == bytes,
{
    lemma_le_value_bytes(bytes);
}

/// Round trip, for built-in types: input in the form in which a type
/// writes it is written back as it was read.
pub proof fn law_builtin_writes_back(name: Seq<char>, data: Seq<u8>, pos: nat)
    requires
        pos <= data.len(),
        builtin_spec(name) matches Some(b) && plainly_written(b, name, data, pos),
    ensures
        builtin_writes_back(name, data, pos),
{
    let b = builtin_spec(name)->Some_0;
    let rest = data.subrange(pos as int, data.len() as int);
    lemma_pow256();
    match decode_builtin_spec(b, name, data, pos) {
        Err(_) => {},
        Ok((v, next)) => {
            match fixed_width(b) {
                Some(w) => {
                    let bytes = rest.subrange(0, w as int);
                    assert(bytes =~= data.subrange(pos as int, next as int));
                    lemma_fixed_value_bytes(bytes, w);
                    let u = le_value(bytes);
                    match b {
                        Builtin::Bool => {
                            assert(bytes.drop_first() =~= Seq::<u8>::empty());
                            assert(u == bytes[0] as nat) by {
                                reveal_with_fuel(le_value, 2);
                            }
                            assert(bytes[0] == data[pos as int]);
                            assert(bytes =~= seq![bytes[0]]);
                        },
                        Builtin::Int8 => {
                            lemma_unsigned_signed(u, 1);
                        },
                        Builtin::Int16 => {
                            lemma_unsigned_signed(u, 2);
                        },
                        Builtin::Int32 => {
                            lemma_unsigned_signed(u, 4);
                        },
                        Builtin::Int64 => {
                            lemma_unsigned_signed(u, 8);
                        },
                        Builtin::Int128 => {
                            lemma_unsigned_signed(u, 16);
                        },
                        Builtin::Checksum160 | Builtin::Checksum256 | Builtin::Checksum512 => {
                            crate::chain_text::lemma_hex_round_trip(bytes);
                        },
                        _ => {},
                    }
                },
                None => {
                    let (n, k) = decode_count_spec(name, rest, pos)->Ok_0;
                    assert(rest.subrange(0, k as int) =~= data.subrange(
                        pos as int,
                        (pos + k) as int,
                    ));
                    if b != Builtin::Varuint32 {
                        let payload = rest.subrange(k as int, k + n);
                        assert(payload =~= data.subrange((pos + k) as int, next as int));
                        lemma_subrange_joined(data, pos, pos + k, next);
                        if b == Builtin::String {
                            vstd::utf8::decode_utf8_encode_utf8(payload);
                        }
                    }
                },
            }
        },
    }
}

} // verus!
