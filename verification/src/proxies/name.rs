//! Account and action names: up to thirteen characters packed in 64 bits.
use vstd::prelude::*;
use vstd::string::*;
use crate::chain_text::{parse_name, parse_name_spec};
use crate::primitive::{decode_u64, encode_u64};
use crate::value::{SemanticKind, Value, ValueView};
use crate::wire::{le_bytes, le_value};

verus! {

/// The text of the name with the number `value`.
pub uninterp spec fn text_of_name(value: u64) -> Seq<char>;

/// `antelope::chain::name::Name::as_string`: the text of the name with the
/// number `value`.
#[verifier::external_body]
fn name_text(value: u64) -> (r: String)
    ensures
        r@ == text_of_name(value),
{
    antelope::chain::name::Name { n: value }.as_string()
}

/// A name, by its number.
#[derive(Clone, Copy, Debug, Default, PartialEq, Eq, Hash, Structural)]
pub struct Name {
    pub inner: u64,
}

/// What a name can be made from.
#[derive(Debug)]
pub enum NameLike {
    Num(u64),
    Raw(Vec<u8>),
    Str(String),
    Cls(Name),
}

impl Name {
    /// The name with the number `value`.
    pub fn from_int(value: u64) -> (r: Name)
        ensures
            r.inner == value,
    {
        Name { inner: value }
    }

    /// The name that the first eight bytes of `buffer` hold, least
    /// significant first; nothing where there are fewer.
    pub fn from_bytes(buffer: &[u8]) -> (r: Option<Name>)
        ensures
            r == if buffer@.len() >= 8 {
                Some(Name { inner: le_value(buffer@.subrange(0, 8)) as u64 })
            } else {
                None
            },
    {
        if buffer.len() >= 8 {
            Some(Name { inner: decode_u64(buffer) })
        } else {
            None
        }
    }

    /// The name that `s` is the text of, if it is one.
    pub fn from_str_py(s: &str) -> (r: Option<Name>)
        ensures
            r == match parse_name_spec(s@) {
                Some(n) => Some(Name { inner: n }),
                None => None,
            },
    {
        match parse_name(s) {
            Some(n) => Some(Name { inner: n }),
            None => None,
        }
    }

    /// The name that `value` stands for: by its number, its bytes or its
    /// text.
    pub fn try_from(value: &NameLike) -> (r: Option<Name>)
        ensures
            r == match value {
                NameLike::Num(n) => Some(Name { inner: *n }),
                NameLike::Raw(raw) => if raw@.len() >= 8 {
                    Some(Name { inner: le_value(raw@.subrange(0, 8)) as u64 })
                } else {
                    None
                },
                NameLike::Str(s) => match parse_name_spec(s@) {
                    Some(n) => Some(Name { inner: n }),
                    None => None,
                },
                NameLike::Cls(name) => Some(*name),
            },
    {
        match value {
            NameLike::Num(n) => Some(Name::from_int(*n)),
            NameLike::Raw(raw) => Name::from_bytes(raw.as_slice()),
            NameLike::Str(s) => Name::from_str_py(s.as_str()),
            NameLike::Cls(name) => Some(*name),
        }
    }

    /// The eight bytes of the name, least significant first.
    pub fn encode(&self) -> (r: Vec<u8>)
        ensures
            r@ == le_bytes(self.inner as nat, 8),
    {
        encode_u64(self.inner)
    }

    /// The number of the name.
    pub fn value(&self) -> (r: u64)
        ensures
            r == self.inner,
    {
        self.inner
    }

    /// The text of the name.
    pub fn to_string(&self) -> (r: String)
        ensures
            r@ == text_of_name(self.inner),
    {
        name_text(self.inner)
    }

    /// The name as a codec value: its binary form.
    pub fn to_value(&self) -> (r: Value)
        ensures
            r@ == ValueView::Semantic(SemanticKind::Name, le_bytes(self.inner as nat, 8)),
    {
        Value::Semantic(SemanticKind::Name, self.encode())
    }
}

} // verus!
