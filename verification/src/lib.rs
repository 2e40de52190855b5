//! Schema-driven binary codec for Antelope contract data.
//!
//! A schema describes structs, variants and type aliases. Given a schema and
//! a type name, the encoder turns a dynamically typed value into the exact
//! wire bytes and the decoder turns the bytes back into a value. A store keeps
//! the loaded schemas addressable by account.
pub mod text;
pub mod abi;
pub mod value;
pub mod error;
pub mod resolve;
pub mod wire;
pub mod primitive;
pub mod encode;
pub mod decode;
pub mod abi_store;
pub mod laws;
pub mod round_trip;
pub mod chain_text;
pub mod utils;
pub mod proxies;
