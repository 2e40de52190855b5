//! Unsigned 32-bit numbers in their variable-length form.
use vstd::prelude::*;
use vstd::string::*;
use crate::chain_text::{all_digits, ascii_bytes, ascii_of, check_digits, digits_value_from};
use crate::primitive::{decode_count, encode_count};
use crate::text::{decimal_text, u64_text};
use crate::wire::{varuint_bytes, varuint_len, varuint_value};
use vstd::utf8::is_ascii_chars;

verus! {

/// An unsigned 32-bit number that is written in from one to five bytes.
#[derive(Clone, Copy, Debug, Default, PartialEq, Eq, Structural)]
pub struct VarUint32 {
    pub inner: u32,
}

/// What a variable-length number can be made from.
#[derive(Debug)]
pub enum VarUInt32Like {
    Raw(Vec<u8>),
    Str(String),
    Int(u32),
    Cls(VarUint32),
}

/// The number that starts the bytes in variable-length form.
pub open spec fn varuint_of_bytes(buffer: Seq<u8>) -> Option<VarUint32> {
    match varuint_len(buffer) {
        Some(k) => Some(VarUint32 { inner: varuint_value(buffer, k) as u32 }),
        None => None,
    }
}

/// The number that decimal digits write, where it fits in 32 bits.
pub open spec fn varuint_of_text(s: Seq<char>) -> Option<VarUint32> {
    if is_ascii_chars(s) && s.len() > 0 && all_digits(ascii_bytes(s)) && digits_value_from(
        0,
        ascii_bytes(s),
    ) <= u32::MAX {
        Some(VarUint32 { inner: digits_value_from(0, ascii_bytes(s)) as u32 })
    } else {
        None
    }
}

impl VarUint32 {
    /// The number `n`.
    pub fn from_int(n: u32) -> (r: VarUint32)
        ensures
            r.inner == n,
    {
        VarUint32 { inner: n }
    }

    /// The number that starts `buffer` in variable-length form; nothing
    /// where none of its first five bytes ends a number.
    pub fn from_bytes(buffer: &[u8]) -> (r: Option<VarUint32>)
        ensures
            r == varuint_of_bytes(buffer@),
    {
        assert(buffer@.subrange(0, buffer@.len() as int) =~= buffer@);
        match decode_count("varuint32", buffer, 0) {
            Ok((n, k)) => Some(VarUint32 { inner: n }),
            Err(_) => None,
        }
    }

    /// The number that the decimal digits `s` write, if it fits in 32 bits.
    pub fn from_str_py(s: &str) -> (r: Option<VarUint32>)
        ensures
            r == varuint_of_text(s@),
    {
        let bytes: &[u8] = match ascii_of(s) {
            None => {
                return None;
            },
            Some(b) => b,
        };
        if bytes.len() == 0 || !check_digits(bytes) {
            return None;
        }
        match crate::chain_text::digits_to_value(bytes, 0, 0xffff_ffff) {
            Some(v) => Some(VarUint32 { inner: v as u32 }),
            None => None,
        }
    }

    /// The number that `value` stands for: by its bytes, its digits or
    /// itself.
    pub fn try_from(value: &VarUInt32Like) -> (r: Option<VarUint32>)
        ensures
            r == match value {
                VarUInt32Like::Raw(raw) => varuint_of_bytes(raw@),
                VarUInt32Like::Str(s) => varuint_of_text(s@),
                VarUInt32Like::Int(n) => Some(VarUint32 { inner: *n }),
                VarUInt32Like::Cls(number) => Some(*number),
            },
    {
        match value {
            VarUInt32Like::Raw(raw) => VarUint32::from_bytes(raw.as_slice()),
            VarUInt32Like::Str(s) => VarUint32::from_str_py(s.as_str()),
            VarUInt32Like::Int(n) => Some(VarUint32::from_int(*n)),
            VarUInt32Like::Cls(number) => Some(*number),
        }
    }

    /// The number itself.
    pub fn to_builtins(&self) -> (r: u32)
        ensures
            r == self.inner,
    {
        self.inner
    }

    /// The variable-length form of the number.
    pub fn encode(&self) -> (r: Vec<u8>)
        ensures
            r@ == varuint_bytes(self.inner as nat),
    {
        encode_count(self.inner)
    }

    /// Number of bytes of the variable-length form.
    pub fn encode_length(&self) -> (r: usize)
        ensures
            r == varuint_bytes(self.inner as nat).len(),
    {
        self.encode().len()
    }

    /// The decimal digits of the number.
    pub fn to_string(&self) -> (r: String)
        ensures
            r@ == decimal_text(self.inner as nat),
    {
        u64_text(self.inner as u64)
    }
}

} // verus!
