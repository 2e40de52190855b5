//! The chain types as plain values: names, symbols, assets, checksums,
//! signatures, time points and variable-length integers. Each can be made
//! from its number, its bytes or its text, and gives them back.
pub mod asset;
pub mod checksums;
pub mod name;
pub mod signature;
pub mod sym;
pub mod sym_code;
pub mod time;
pub mod varint;
