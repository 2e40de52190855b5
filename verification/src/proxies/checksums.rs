//! Checksums of 160, 256 and 512 bits.
use vstd::prelude::*;
use vstd::slice::{slice_subrange, slice_to_vec};
use vstd::string::*;
use crate::chain_text::{hex_encode, hex_text};
use crate::value::clone_bytes;
use crate::utils::{decode_string_bytes_spec, try_decode_string_bytes};

verus! {

/// A checksum of `N` bytes.
#[derive(Debug, PartialEq, Eq)]
pub struct Checksum<const N: usize> {
    pub inner: Vec<u8>,
}

/// A checksum of 160 bits.
pub type Checksum160 = Checksum<20>;

/// A checksum of 256 bits.
pub type Checksum256 = Checksum<32>;

/// A checksum of 512 bits.
pub type Checksum512 = Checksum<64>;

/// What a checksum can be made from.
#[derive(Debug)]
pub enum SumLike<const N: usize> {
    Raw(Vec<u8>),
    Str(String),
    Cls(Checksum<N>),
}

/// The first `n` of the bytes, where there are as many.
pub open spec fn leading_bytes(data: Seq<u8>, n: nat) -> Option<Seq<u8>> {
    if data.len() >= n {
        Some(data.subrange(0, n as int))
    } else {
        None
    }
}

/// The bytes of the checksum of `n` bytes that a text stands for: the first
/// `n` of the bytes that the text holds in base 64 or in hexadecimal, and
/// `n` zero bytes for the text `0`.
pub open spec fn checksum_of_text(s: Seq<char>, n: usize) -> Option<Seq<u8>> {
    match decode_string_bytes_spec(s, Some(n)) {
        Some(bytes) => leading_bytes(bytes, n as nat),
        None => None,
    }
}

impl<const N: usize> Clone for Checksum<N> {
    fn clone(&self) -> (r: Self)
        ensures
            r.inner@ == self.inner@,
    {
        Checksum { inner: clone_bytes(&self.inner) }
    }
}

impl<const N: usize> Checksum<N> {
    /// The checksum that the first `N` bytes of `data` are; nothing where
    /// there are fewer.
    pub fn from_bytes(data: &[u8]) -> (r: Option<Self>)
        ensures
            match r {
                Some(sum) => leading_bytes(data@, N as nat) == Some(sum.inner@),
                None => leading_bytes(data@, N as nat).is_none(),
            },
    {
        if data.len() < N {
            None
        } else {
            Some(Checksum { inner: slice_to_vec(slice_subrange(data, 0, N)) })
        }
    }

    /// The checksum that `s` is the text of, in base 64 or in hexadecimal.
    pub fn from_str_py(s: &str) -> (r: Option<Self>)
        ensures
            match r {
                Some(sum) => checksum_of_text(s@, N) == Some(sum.inner@),
                None => checksum_of_text(s@, N).is_none(),
            },
    {
        match try_decode_string_bytes(s, Some(N)) {
            Some(bytes) => Self::from_bytes(bytes.as_slice()),
            None => None,
        }
    }

    /// The checksum that `value` stands for: by its bytes or its text.
    pub fn try_from(value: &SumLike<N>) -> (r: Option<Self>)
        ensures
            match r {
                Some(sum) => Some(sum.inner@) == match value {
                    SumLike::Raw(raw) => leading_bytes(raw@, N as nat),
                    SumLike::Str(s) => checksum_of_text(s@, N),
                    SumLike::Cls(sum) => Some(sum.inner@),
                },
                None => match value {
                    SumLike::Raw(raw) => leading_bytes(raw@, N as nat).is_none(),
                    SumLike::Str(s) => checksum_of_text(s@, N).is_none(),
                    SumLike::Cls(sum) => false,
                },
            },
    {
        match value {
            SumLike::Raw(raw) => Self::from_bytes(raw.as_slice()),
            SumLike::Str(s) => Self::from_str_py(s.as_str()),
            SumLike::Cls(sum) => Some(sum.clone()),
        }
    }

    /// The bytes of the checksum.
    pub fn to_builtins(&self) -> (r: &Vec<u8>)
        ensures
            r@ == self.inner@,
    {
        &self.inner
    }

    /// The bytes of the checksum, which are its binary form.
    pub fn encode(&self) -> (r: Vec<u8>)
        ensures
            r@ == self.inner@,
    {
        clone_bytes(&self.inner)
    }

    /// The hexadecimal text of the checksum.
    pub fn to_string(&self) -> (r: String)
        ensures
            r@ == hex_text(self.inner@),
    {
        hex_encode(self.inner.as_slice())
    }
}

} // verus!
