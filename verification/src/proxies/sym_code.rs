//! Symbol codes: up to seven upper-case letters packed in 64 bits.
use vstd::prelude::*;
use vstd::string::*;
use crate::chain_text::{
    is_symbol_code, parse_symbol_code, parse_symbol_code_spec, symbol_code_text,
    symbol_code_text_spec, symbol_code_valid,
};
use crate::primitive::{decode_u64, encode_u64};
use crate::value::{SemanticKind, Value, ValueView};
use crate::wire::{le_bytes, le_value};

verus! {

/// A symbol code, by its number.
#[derive(Clone, Copy, Debug, Default, PartialEq, Eq, Hash, Structural)]
pub struct SymbolCode {
    pub inner: u64,
}

/// What a symbol code can be made from.
#[derive(Debug)]
pub enum SymCodeLike {
    Raw(Vec<u8>),
    Str(String),
    Int(u64),
    Cls(SymbolCode),
}

/// The symbol code with the number `value`, if it is the number of one.
pub open spec fn symbol_code_of(value: u64) -> Option<SymbolCode> {
    if is_symbol_code(value) {
        Some(SymbolCode { inner: value })
    } else {
        None
    }
}

/// The symbol code that the first eight bytes hold, if they hold one.
pub open spec fn symbol_code_of_bytes(buffer: Seq<u8>) -> Option<SymbolCode> {
    if buffer.len() >= 8 {
        symbol_code_of(le_value(buffer.subrange(0, 8)) as u64)
    } else {
        None
    }
}

/// The symbol code that a text stands for, if it stands for one.
pub open spec fn symbol_code_of_text(s: Seq<char>) -> Option<SymbolCode> {
    match parse_symbol_code_spec(s) {
        Some(n) => Some(SymbolCode { inner: n }),
        None => None,
    }
}

impl SymbolCode {
    /// The symbol code that the first eight bytes of `buffer` hold, least
    /// significant first; nothing where there are fewer or they hold none.
    pub fn from_bytes(buffer: &[u8]) -> (r: Option<SymbolCode>)
        ensures
            r == symbol_code_of_bytes(buffer@),
    {
        if buffer.len() >= 8 {
            SymbolCode::from_int(decode_u64(buffer))
        } else {
            None
        }
    }

    /// The symbol code that `sym` is the text of, if it is one.
    pub fn from_str_py(sym: &str) -> (r: Option<SymbolCode>)
        ensures
            r == symbol_code_of_text(sym@),
    {
        match parse_symbol_code(sym) {
            Some(n) => Some(SymbolCode { inner: n }),
            None => None,
        }
    }

    /// The symbol code with the number `sym`, if it is the number of one.
    pub fn from_int(sym: u64) -> (r: Option<SymbolCode>)
        ensures
            r == symbol_code_of(sym),
    {
        if symbol_code_valid(sym) {
            Some(SymbolCode { inner: sym })
        } else {
            None
        }
    }

    /// The symbol code that `value` stands for: by its bytes, its text or
    /// its number.
    pub fn try_from(value: &SymCodeLike) -> (r: Option<SymbolCode>)
        ensures
            r == match value {
                SymCodeLike::Raw(raw) => symbol_code_of_bytes(raw@),
                SymCodeLike::Str(s) => symbol_code_of_text(s@),
                SymCodeLike::Int(n) => symbol_code_of(*n),
                SymCodeLike::Cls(code) => Some(*code),
            },
    {
        match value {
            SymCodeLike::Raw(raw) => SymbolCode::from_bytes(raw.as_slice()),
            SymCodeLike::Str(s) => SymbolCode::from_str_py(s.as_str()),
            SymCodeLike::Int(n) => SymbolCode::from_int(*n),
            SymCodeLike::Cls(code) => Some(*code),
        }
    }

    /// The letters of the symbol code, if its number is that of one.
    pub fn to_builtins(&self) -> (r: Option<String>)
        ensures
            match r {
                Some(text) => symbol_code_text_spec(self.inner) == Some(text@),
                None => symbol_code_text_spec(self.inner).is_none(),
            },
    {
        symbol_code_text(self.inner)
    }

    /// The number of the symbol code.
    pub fn value(&self) -> (r: u64)
        ensures
            r == self.inner,
    {
        self.inner
    }

    /// The eight bytes of the symbol code, least significant first.
    pub fn encode(&self) -> (r: Vec<u8>)
        ensures
            r@ == le_bytes(self.inner as nat, 8),
    {
        encode_u64(self.inner)
    }

    /// Number of bytes of the binary form.
    pub fn encode_length(&self) -> (r: usize)
        ensures
            r == 8,
    {
        8
    }

    /// The symbol code as a codec value: its binary form.
    pub fn to_value(&self) -> (r: Value)
        ensures
            r@ == ValueView::Semantic(SemanticKind::SymbolCode, le_bytes(self.inner as nat, 8)),
    {
        Value::Semantic(SemanticKind::SymbolCode, self.encode())
    }
}

} // verus!
