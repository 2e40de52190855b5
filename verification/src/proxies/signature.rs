//! Signatures: the byte of a curve and 65 bytes.
use vstd::prelude::*;
use vstd::slice::{slice_subrange, slice_to_vec};
use vstd::string::*;
use crate::chain_text::{Keyed, keyed_text, keyed_text_spec, parse_keyed, parse_keyed_spec};
use crate::value::clone_bytes;

verus! {

/// A signature, by its binary form.
#[derive(Debug, PartialEq, Eq)]
pub struct Signature {
    pub inner: Vec<u8>,
}

/// What a signature can be made from.
#[derive(Debug)]
pub enum SigLike {
    Raw(Vec<u8>),
    Str(String),
    Cls(Signature),
}

/// The binary form of the signature that starts the bytes: 66 bytes, the
/// first of them 0 or 1 for the curve.
pub open spec fn signature_of_bytes(buffer: Seq<u8>) -> Option<Seq<u8>> {
    if buffer.len() >= 66 && buffer[0] <= 1 {
        Some(buffer.subrange(0, 66))
    } else {
        None
    }
}

impl Clone for Signature {
    fn clone(&self) -> (r: Self)
        ensures
            r.inner@ == self.inner@,
    {
        Signature { inner: clone_bytes(&self.inner) }
    }
}

impl Signature {
    /// The signature that the first 66 bytes of `buffer` hold; nothing
    /// where there are fewer or the curve is unknown.
    pub fn from_bytes(buffer: &[u8]) -> (r: Option<Signature>)
        ensures
            match r {
                Some(sig) => signature_of_bytes(buffer@) == Some(sig.inner@),
                None => signature_of_bytes(buffer@).is_none(),
            },
    {
        if buffer.len() >= 66 && buffer[0] <= 1 {
            Some(Signature { inner: slice_to_vec(slice_subrange(buffer, 0, 66)) })
        } else {
            None
        }
    }

    /// The signature that `s` is the text of, if it is one.
    pub fn from_str_py(s: &str) -> (r: Option<Signature>)
        ensures
            match r {
                Some(sig) => parse_keyed_spec(Keyed::Signature, s@) == Some(sig.inner@),
                None => parse_keyed_spec(Keyed::Signature, s@).is_none(),
            },
    {
        match parse_keyed(Keyed::Signature, s) {
            Some(bytes) => Some(Signature { inner: bytes }),
            None => None,
        }
    }

    /// The signature that `value` stands for: by its bytes or its text.
    pub fn try_from(value: &SigLike) -> (r: Option<Signature>)
        ensures
            match r {
                Some(sig) => Some(sig.inner@) == match value {
                    SigLike::Raw(raw) => signature_of_bytes(raw@),
                    SigLike::Str(s) => parse_keyed_spec(Keyed::Signature, s@),
                    SigLike::Cls(sig) => Some(sig.inner@),
                },
                None => match value {
                    SigLike::Raw(raw) => signature_of_bytes(raw@).is_none(),
                    SigLike::Str(s) => parse_keyed_spec(Keyed::Signature, s@).is_none(),
                    SigLike::Cls(sig) => false,
                },
            },
    {
        match value {
            SigLike::Raw(raw) => Signature::from_bytes(raw.as_slice()),
            SigLike::Str(s) => Signature::from_str_py(s.as_str()),
            SigLike::Cls(sig) => Some(sig.clone()),
        }
    }

    /// The binary form of the signature.
    pub fn encode(&self) -> (r: Vec<u8>)
        ensures
            r@ == self.inner@,
    {
        clone_bytes(&self.inner)
    }

    /// The text of the signature, if its curve is known.
    pub fn to_string(&self) -> (r: Option<String>)
        ensures
            match r {
                Some(text) => keyed_text_spec(Keyed::Signature, self.inner@) == Some(text@),
                None => keyed_text_spec(Keyed::Signature, self.inner@).is_none(),
            },
    {
        keyed_text(Keyed::Signature, self.inner.as_slice())
    }
}

} // verus!
