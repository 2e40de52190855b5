//! The dynamically typed value that the codec reads and produces.
use vstd::prelude::*;
use crate::text::{index_of, index_of_from, str_eq};

verus! {

/// The chain primitives whose binary form is carried as it is.
#[derive(Clone, Copy, Debug, PartialEq, Eq, Structural)]
pub enum SemanticKind {
    Name,
    SymbolCode,
    Symbol,
    Asset,
    ExtendedAsset,
    Checksum160,
    Checksum256,
    Checksum512,
    PublicKey,
    Signature,
}

impl SemanticKind {
    /// Number of bytes of the binary form.
    pub open spec fn spec_size(self) -> nat {
        match self {
            SemanticKind::Name => 8,
            SemanticKind::SymbolCode => 8,
            SemanticKind::Symbol => 8,
            SemanticKind::Asset => 16,
            SemanticKind::ExtendedAsset => 24,
            SemanticKind::Checksum160 => 20,
            SemanticKind::Checksum256 => 32,
            SemanticKind::Checksum512 => 64,
            SemanticKind::PublicKey => 34,
            SemanticKind::Signature => 66,
        }
    }

    /// Number of bytes of the binary form.
    pub fn size(self) -> (n: usize)
        ensures
            n == self.spec_size(),
    {
        match self {
            SemanticKind::Name => 8,
            SemanticKind::SymbolCode => 8,
            SemanticKind::Symbol => 8,
            SemanticKind::Asset => 16,
            SemanticKind::ExtendedAsset => 24,
            SemanticKind::Checksum160 => 20,
            SemanticKind::Checksum256 => 32,
            SemanticKind::Checksum512 => 64,
            SemanticKind::PublicKey => 34,
            SemanticKind::Signature => 66,
        }
    }
}

/// The tag of a value, without its content.
#[derive(Clone, Copy, Debug, PartialEq, Eq, Structural)]
pub enum ValueKind {
    Null,
    Bool,
    Int8,
    Int16,
    Int32,
    Int64,
    Int128,
    Uint8,
    Uint16,
    Uint32,
    Uint64,
    Uint128,
    Float32,
    Float64,
    Bytes,
    String,
    Array,
    Struct,
    Semantic,
}

/// A schema-typed value, independent of any host language.
///
/// A float is held by the bits of its IEEE 754 form. The entries of a
/// `Struct` are ordered; a name is looked up at its first entry.
#[derive(Debug, PartialEq, Eq)]
pub enum Value {
    Null,
    Bool(bool),
    Int8(i8),
    Int16(i16),
    Int32(i32),
    Int64(i64),
    Int128(i128),
    Uint8(u8),
    Uint16(u16),
    Uint32(u32),
    Uint64(u64),
    Uint128(u128),
    Float32(u32),
    Float64(u64),
    Bytes(Vec<u8>),
    String(String),
    Array(Vec<Value>),
    Struct(Vec<(String, Value)>),
    Semantic(SemanticKind, Vec<u8>),
}

/// The mathematical model of [`Value`].
pub ghost enum ValueView {
    Null,
    Bool(bool),
    Int8(i8),
    Int16(i16),
    Int32(i32),
    Int64(i64),
    Int128(i128),
    Uint8(u8),
    Uint16(u16),
    Uint32(u32),
    Uint64(u64),
    Uint128(u128),
    Float32(u32),
    Float64(u64),
    Bytes(Seq<u8>),
    String(Seq<char>),
    Array(Seq<ValueView>),
    Struct(Seq<(Seq<char>, ValueView)>),
    Semantic(SemanticKind, Seq<u8>),
}

impl ValueView {
    /// The tag of the value.
    pub open spec fn kind(self) -> ValueKind {
        match self {
            ValueView::Null => ValueKind::Null,
            ValueView::Bool(_) => ValueKind::Bool,
            ValueView::Int8(_) => ValueKind::Int8,
            ValueView::Int16(_) => ValueKind::Int16,
            ValueView::Int32(_) => ValueKind::Int32,
            ValueView::Int64(_) => ValueKind::Int64,
            ValueView::Int128(_) => ValueKind::Int128,
            ValueView::Uint8(_) => ValueKind::Uint8,
            ValueView::Uint16(_) => ValueKind::Uint16,
            ValueView::Uint32(_) => ValueKind::Uint32,
            ValueView::Uint64(_) => ValueKind::Uint64,
            ValueView::Uint128(_) => ValueKind::Uint128,
            ValueView::Float32(_) => ValueKind::Float32,
            ValueView::Float64(_) => ValueKind::Float64,
            ValueView::Bytes(_) => ValueKind::Bytes,
            ValueView::String(_) => ValueKind::String,
            ValueView::Array(_) => ValueKind::Array,
            ValueView::Struct(_) => ValueKind::Struct,
            ValueView::Semantic(_, _) => ValueKind::Semantic,
        }
    }
}

/// The names of the entries of a struct value, in order.
pub open spec fn entry_names(entries: Seq<(Seq<char>, ValueView)>) -> Seq<Seq<char>> {
    entries.map_values(|e: (Seq<char>, ValueView)| e.0)
}

/// The value that a struct value holds under `name`: that of the first entry
/// so named.
pub open spec fn entry_lookup(entries: Seq<(Seq<char>, ValueView)>, name: Seq<char>) -> Option<
    ValueView,
> {
    match index_of(entry_names(entries), name) {
        Some(i) => Some(entries[i].1),
        None => None,
    }
}

/// The views of the items of an array value.
pub open spec fn item_views(items: Seq<Value>) -> Seq<ValueView> {
    Seq::new(items.len(), |i: int| items[i]@)
}

/// The views of the entries of a struct value.
pub open spec fn entry_views(entries: Seq<(String, Value)>) -> Seq<(Seq<char>, ValueView)> {
    Seq::new(entries.len(), |i: int| (entries[i].0@, entries[i].1@))
}

/// The model of `v`, by recursion on its structure.
pub open spec fn value_view(v: Value) -> ValueView
    decreases v,
{
    match v {
        Value::Null => ValueView::Null,
        Value::Bool(b) => ValueView::Bool(b),
        Value::Int8(n) => ValueView::Int8(n),
        Value::Int16(n) => ValueView::Int16(n),
        Value::Int32(n) => ValueView::Int32(n),
        Value::Int64(n) => ValueView::Int64(n),
        Value::Int128(n) => ValueView::Int128(n),
        Value::Uint8(n) => ValueView::Uint8(n),
        Value::Uint16(n) => ValueView::Uint16(n),
        Value::Uint32(n) => ValueView::Uint32(n),
        Value::Uint64(n) => ValueView::Uint64(n),
        Value::Uint128(n) => ValueView::Uint128(n),
        Value::Float32(bits) => ValueView::Float32(bits),
        Value::Float64(bits) => ValueView::Float64(bits),
        Value::Bytes(b) => ValueView::Bytes(b@),
        Value::String(s) => ValueView::String(s@),
        Value::Array(items) => ValueView::Array(
            Seq::new(
                items@.len(),
                |i: int|
                    if 0 <= i < items@.len() {
                        value_view(items@[i])
                    } else {
                        ValueView::Null
                    },
            ),
        ),
        Value::Struct(entries) => ValueView::Struct(
            Seq::new(
                entries@.len(),
                |i: int|
                    if 0 <= i < entries@.len() {
                        (entries@[i].0@, value_view(entries@[i].1))
                    } else {
                        (Seq::empty(), ValueView::Null)
                    },
            ),
        ),
        Value::Semantic(kind, bytes) => ValueView::Semantic(kind, bytes@),
    }
}

impl View for Value {
    type V = ValueView;

    open spec fn view(&self) -> ValueView {
        value_view(*self)
    }
}

impl Value {
    /// The views of the items of an array are the items of its view.
    pub proof fn lemma_view_array(items: Vec<Value>)
        ensures
            Value::Array(items)@ == ValueView::Array(item_views(items@)),
    {
        assert(Value::Array(items)@->Array_0 =~= item_views(items@));
    }

    /// The views of the entries of a struct are the entries of its view.
    pub proof fn lemma_view_struct(entries: Vec<(String, Value)>)
        ensures
            Value::Struct(entries)@ == ValueView::Struct(entry_views(entries@)),
    {
        assert(Value::Struct(entries)@->Struct_0 =~= entry_views(entries@));
    }

    /// The tag of the value.
    pub fn kind(&self) -> (k: ValueKind)
        ensures
            k == self@.kind(),
    {
        match self {
            Value::Null => ValueKind::Null,
            Value::Bool(_) => ValueKind::Bool,
            Value::Int8(_) => ValueKind::Int8,
            Value::Int16(_) => ValueKind::Int16,
            Value::Int32(_) => ValueKind::Int32,
            Value::Int64(_) => ValueKind::Int64,
            Value::Int128(_) => ValueKind::Int128,
            Value::Uint8(_) => ValueKind::Uint8,
            Value::Uint16(_) => ValueKind::Uint16,
            Value::Uint32(_) => ValueKind::Uint32,
            Value::Uint64(_) => ValueKind::Uint64,
            Value::Uint128(_) => ValueKind::Uint128,
            Value::Float32(_) => ValueKind::Float32,
            Value::Float64(_) => ValueKind::Float64,
            Value::Bytes(_) => ValueKind::Bytes,
            Value::String(_) => ValueKind::String,
            Value::Array(_) => ValueKind::Array,
            Value::Struct(_) => ValueKind::Struct,
            Value::Semantic(_, _) => ValueKind::Semantic,
        }
    }

    /// Whether the value is `Null`.
    pub fn is_null(&self) -> (r: bool)
        ensures
            r == (self@ == ValueView::Null),
    {
        match self {
            Value::Null => true,
            _ => false,
        }
    }
}

/// Position of the first entry of a struct value that is named `name`.
pub fn find_entry(entries: &Vec<(String, Value)>, name: &str) -> (r: Option<usize>)
    ensures
        match r {
            Some(i) => i < entries.len() && index_of(entry_names(entry_views(entries@)), name@)
                == Some(i as int),
            None => index_of(entry_names(entry_views(entries@)), name@).is_none(),
        },
{
    let ghost keys = entry_names(entry_views(entries@));
    let mut i: usize = 0;
    while i < entries.len()
        invariant
            0 <= i <= entries.len(),
            keys == entry_names(entry_views(entries@)),
            index_of(keys, name@) == index_of_from(keys, name@, i as int),
        decreases entries.len() - i,
    {
        if str_eq(entries[i].0.as_str(), name) {
            return Some(i);
        }
        i += 1;
    }
    None
}

/// A copy of a byte vector.
pub fn clone_bytes(v: &Vec<u8>) -> (r: Vec<u8>)
    ensures
        r@ == v@,
{
    let mut out: Vec<u8> = Vec::new();
    let mut i: usize = 0;
    while i < v.len()
        invariant
            0 <= i <= v.len(),
            out@ == v@.subrange(0, i as int),
        decreases v.len() - i,
    {
        out.push(v[i]);
        assert(out@ =~= v@.subrange(0, i + 1));
        i += 1;
    }
    assert(v@.subrange(0, v@.len() as int) =~= v@);
    out
}

/// A copy of the items of an array.
fn copy_items(items: &Vec<Value>) -> (r: Vec<Value>)
    ensures
        item_views(r@) == item_views(items@),
    decreases items,
{
    let mut out: Vec<Value> = Vec::new();
    let mut i: usize = 0;
    while i < items.len()
        invariant
            0 <= i <= items.len(),
            out@.len() == i,
            forall|k: int| 0 <= k < i ==> out@[k]@ == items@[k]@,
        decreases items.len() - i,
    {
        out.push(copy_value(&items[i]));
        i += 1;
    }
    assert(item_views(out@) =~= item_views(items@));
    out
}

/// A copy of the entries of a struct value.
fn copy_entries(entries: &Vec<(String, Value)>) -> (r: Vec<(String, Value)>)
    ensures
        entry_views(r@) == entry_views(entries@),
    decreases entries,
{
    let mut out: Vec<(String, Value)> = Vec::new();
    let mut i: usize = 0;
    while i < entries.len()
        invariant
            0 <= i <= entries.len(),
            out@.len() == i,
            forall|k: int|
                0 <= k < i ==> out@[k].0@ == entries@[k].0@ && out@[k].1@ == entries@[k].1@,
        decreases entries.len() - i,
    {
        out.push((entries[i].0.clone(), copy_value(&entries[i].1)));
        i += 1;
    }
    assert(entry_views(out@) =~= entry_views(entries@));
    out
}

/// A copy of a value.
fn copy_value(v: &Value) -> (r: Value)
    ensures
        r@ == v@,
    decreases v,
{
    match v {
        Value::Null => Value::Null,
        Value::Bool(b) => Value::Bool(*b),
        Value::Int8(n) => Value::Int8(*n),
        Value::Int16(n) => Value::Int16(*n),
        Value::Int32(n) => Value::Int32(*n),
        Value::Int64(n) => Value::Int64(*n),
        Value::Int128(n) => Value::Int128(*n),
        Value::Uint8(n) => Value::Uint8(*n),
        Value::Uint16(n) => Value::Uint16(*n),
        Value::Uint32(n) => Value::Uint32(*n),
        Value::Uint64(n) => Value::Uint64(*n),
        Value::Uint128(n) => Value::Uint128(*n),
        Value::Float32(bits) => Value::Float32(*bits),
        Value::Float64(bits) => Value::Float64(*bits),
        Value::Bytes(bytes) => Value::Bytes(clone_bytes(bytes)),
        Value::String(text) => Value::String(text.clone()),
        Value::Array(items) => {
            let copied: Vec<Value> = copy_items(items);
            proof {
                Value::lemma_view_array(*items);
                Value::lemma_view_array(copied);
            }
            Value::Array(copied)
        },
        Value::Struct(entries) => {
            let copied: Vec<(String, Value)> = copy_entries(entries);
            proof {
                Value::lemma_view_struct(*entries);
                Value::lemma_view_struct(copied);
            }
            Value::Struct(copied)
        },
        Value::Semantic(kind, bytes) => Value::Semantic(*kind, clone_bytes(bytes)),
    }
}

impl Clone for Value {
    fn clone(&self) -> (r: Self)
        ensures
            r@ == self@,
    {
        copy_value(self)
    }
}

} // verus!
