//! Symbols: a symbol code and the number of decimal places of its amounts.
use vstd::prelude::*;
use vstd::string::*;
use crate::chain_text::{
    parse_symbol, parse_symbol_spec, symbol_code_text, symbol_code_text_spec,
};
use crate::primitive::{decode_u64, encode_u64};
use crate::proxies::sym_code::SymbolCode;
use crate::text::{decimal_text, u64_text};
use crate::value::{SemanticKind, Value, ValueView};
use crate::wire::{le_bytes, le_value};

verus! {

/// A symbol, by its number: the precision in the lowest byte, the number of
/// the symbol code above it.
#[derive(Clone, Copy, Debug, Default, PartialEq, Eq, Hash, Structural)]
pub struct Symbol {
    pub inner: u64,
}

/// What a symbol can be made from.
#[derive(Debug)]
pub enum SymLike {
    Raw(Vec<u8>),
    Str(String),
    Int(u64),
    Cls(Symbol),
}

/// The symbol that the first eight bytes hold.
pub open spec fn symbol_of_bytes(buffer: Seq<u8>) -> Option<Symbol> {
    if buffer.len() >= 8 {
        Some(Symbol { inner: le_value(buffer.subrange(0, 8)) as u64 })
    } else {
        None
    }
}

/// The symbol that a text stands for, if it stands for one.
pub open spec fn symbol_of_text(s: Seq<char>) -> Option<Symbol> {
    match parse_symbol_spec(s) {
        Some(n) => Some(Symbol { inner: n }),
        None => None,
    }
}

impl Symbol {
    /// The number of the symbol code.
    pub open spec fn spec_code(self) -> u64 {
        (self.inner / 256) as u64
    }

    /// The precision.
    pub open spec fn spec_precision(self) -> u8 {
        (self.inner % 256) as u8
    }

    /// The text: the precision, a comma and the letters of the code. There
    /// is none where the code is not the number of a symbol code.
    pub open spec fn spec_text(self) -> Option<Seq<char>> {
        match symbol_code_text_spec(self.spec_code()) {
            Some(letters) => Some(decimal_text(self.spec_precision() as nat) + ","@ + letters),
            None => None,
        }
    }

    /// The symbol that the first eight bytes of `buffer` hold, least
    /// significant first; nothing where there are fewer.
    pub fn from_bytes(buffer: &[u8]) -> (r: Option<Symbol>)
        ensures
            r == symbol_of_bytes(buffer@),
    {
        if buffer.len() >= 8 {
            Some(Symbol { inner: decode_u64(buffer) })
        } else {
            None
        }
    }

    /// The symbol that `s` is the text of, if it is one.
    pub fn from_str_py(s: &str) -> (r: Option<Symbol>)
        ensures
            r == symbol_of_text(s@),
    {
        match parse_symbol(s) {
            Some(n) => Some(Symbol { inner: n }),
            None => None,
        }
    }

    /// The symbol with the number `sym`.
    pub fn from_int(sym: u64) -> (r: Symbol)
        ensures
            r.inner == sym,
    {
        Symbol { inner: sym }
    }

    /// The symbol that `value` stands for: by its bytes, its text or its
    /// number.
    pub fn try_from(value: &SymLike) -> (r: Option<Symbol>)
        ensures
            r == match value {
                SymLike::Raw(raw) => symbol_of_bytes(raw@),
                SymLike::Str(s) => symbol_of_text(s@),
                SymLike::Int(n) => Some(Symbol { inner: *n }),
                SymLike::Cls(symbol) => Some(*symbol),
            },
    {
        match value {
            SymLike::Raw(raw) => Symbol::from_bytes(raw.as_slice()),
            SymLike::Str(s) => Symbol::from_str_py(s.as_str()),
            SymLike::Int(n) => Some(Symbol::from_int(*n)),
            SymLike::Cls(symbol) => Some(*symbol),
        }
    }

    /// The symbol code.
    pub fn code(&self) -> (r: SymbolCode)
        ensures
            r.inner == self.spec_code(),
    {
        SymbolCode { inner: self.inner / 256 }
    }

    /// The number of decimal places.
    pub fn precision(&self) -> (r: u8)
        ensures
            r == self.spec_precision(),
    {
        (self.inner % 256) as u8
    }

    /// The eight bytes of the symbol, least significant first.
    pub fn encode(&self) -> (r: Vec<u8>)
        ensures
            r@ == le_bytes(self.inner as nat, 8),
    {
        encode_u64(self.inner)
    }

    /// The text of the symbol, if its code is the number of a symbol code.
    pub fn to_string(&self) -> (r: Option<String>)
        ensures
            match r {
                Some(text) => self.spec_text() == Some(text@),
                None => self.spec_text().is_none(),
            },
    {
        match symbol_code_text(self.inner / 256) {
            None => None,
            Some(letters) => {
                let mut text: String = u64_text(self.inner % 256);
                text.append(",");
                text.append(letters.as_str());
                Some(text)
            },
        }
    }

    /// The symbol as a codec value: its binary form.
    pub fn to_value(&self) -> (r: Value)
        ensures
            r@ == ValueView::Semantic(SemanticKind::Symbol, le_bytes(self.inner as nat, 8)),
    {
        Value::Semantic(SemanticKind::Symbol, self.encode())
    }
}

} // verus!
