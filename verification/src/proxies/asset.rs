//! Assets: an amount of a symbol, alone or with the contract that issues
//! it.
use vstd::prelude::*;
use vstd::slice::slice_subrange;
use vstd::string::*;
use crate::chain_text::{
    MAX_AMOUNT, all_digits, ascii_bytes, ascii_of, asset_text, asset_text_spec, check_digits,
    digits_to_value, digits_value_from, is_symbol_code, parse_asset, parse_asset_spec,
    parse_extended_asset, parse_extended_asset_spec, symbol_code_valid, symbol_of,
    symbol_of_spec,
};
use crate::primitive::{decode_u64, encode_u64};
use crate::proxies::name::{Name, text_of_name};
use crate::proxies::sym::{SymLike, Symbol};
use crate::text::{decimal_text, u64_text};
use crate::value::{SemanticKind, Value, ValueView};
use crate::wire::{i64_bits, i64_from_bits, le_bytes, le_value, to_signed, to_unsigned};
use vstd::utf8::is_ascii_chars;

verus! {

/// An amount of a symbol. The amount counts the smallest units: 1.5000 of
/// a symbol with four decimal places is the amount 15000.
#[derive(Clone, Copy, Debug, Default, PartialEq, Eq, Structural)]
pub struct Asset {
    pub amount: i64,
    pub symbol: Symbol,
}

/// What an asset can be made from. A decimal number is given by its text.
#[derive(Debug)]
pub enum AssetLike {
    Raw(Vec<u8>),
    Str(String),
    Int(i64, SymLike),
    Decimal(String, SymLike),
    Cls(Asset),
}

/// The asset of `amount` units of `symbol`, if the amount is within
/// `MAX_AMOUNT` either way and the symbol has the number of a symbol code.
pub open spec fn asset_of(amount: i64, symbol: Symbol) -> Option<Asset> {
    if -(MAX_AMOUNT as int) <= amount <= MAX_AMOUNT && is_symbol_code(symbol.spec_code()) {
        Some(Asset { amount, symbol })
    } else {
        None
    }
}

/// The asset that the first sixteen bytes hold: the amount in two's
/// complement, then the symbol, each least significant byte first.
pub open spec fn asset_of_bytes(buffer: Seq<u8>) -> Option<Asset> {
    if buffer.len() >= 16 {
        asset_of(
            to_signed(le_value(buffer.subrange(0, 8)), 8) as i64,
            Symbol { inner: le_value(buffer.subrange(8, 16)) as u64 },
        )
    } else {
        None
    }
}

/// The asset that a text stands for, if it stands for one.
pub open spec fn asset_of_text(s: Seq<char>) -> Option<Asset> {
    match parse_asset_spec(s) {
        Some((amount, symbol)) => Some(Asset { amount, symbol: Symbol { inner: symbol } }),
        None => None,
    }
}

/// The bytes without those that equal `c`.
pub open spec fn without_byte(b: Seq<u8>, c: u8) -> Seq<u8>
    decreases b.len(),
{
    if b.len() == 0 {
        b
    } else if b.last() == c {
        without_byte(b.drop_last(), c)
    } else {
        without_byte(b.drop_last(), c).push(b.last())
    }
}

/// The whole number that a decimal number stands for once its dots are
/// left out: an optional sign and at least one digit. Nothing where the
/// text is otherwise or the number is beyond `MAX_AMOUNT` either way.
pub open spec fn units_of_decimal(d: Seq<char>) -> Option<i64> {
    if !is_ascii_chars(d) {
        None
    } else {
        let plain = without_byte(ascii_bytes(d), 46);
        let signed = plain.len() > 0 && (plain[0] == 45 || plain[0] == 43);
        let digits = if signed {
            plain.skip(1)
        } else {
            plain
        };
        if digits.len() > 0 && all_digits(digits) && digits_value_from(0, digits) <= MAX_AMOUNT {
            if plain[0] == 45 {
                Some((-(digits_value_from(0, digits) as int)) as i64)
            } else {
                Some(digits_value_from(0, digits) as i64)
            }
        } else {
            None
        }
    }
}

/// The symbol that a value stands for.
pub open spec fn symbol_like(value: SymLike) -> Option<Symbol> {
    match value {
        SymLike::Raw(raw) => crate::proxies::sym::symbol_of_bytes(raw@),
        SymLike::Str(s) => crate::proxies::sym::symbol_of_text(s@),
        SymLike::Int(n) => Some(Symbol { inner: n }),
        SymLike::Cls(symbol) => Some(symbol),
    }
}

/// The asset that a decimal number of a symbol stands for.
pub open spec fn asset_of_decimal(d: Seq<char>, sym: SymLike) -> Option<Asset> {
    match (symbol_like(sym), units_of_decimal(d)) {
        (Some(symbol), Some(amount)) => asset_of(amount, symbol),
        _ => None,
    }
}

/// The whole number that the text of a decimal number stands for once its
/// dots are left out.
pub fn decimal_units(d: &str) -> (r: Option<i64>)
    ensures
        r == units_of_decimal(d@),
{
    let bytes: &[u8] = match ascii_of(d) {
        None => {
            return None;
        },
        Some(b) => b,
    };
    let mut plain: Vec<u8> = Vec::new();
    let mut i: usize = 0;
    let n: usize = bytes.len();
    assert(bytes@.take(0) =~= Seq::<u8>::empty());
    while i < n
        invariant
            0 <= i <= n,
            n == bytes@.len(),
            plain@ == without_byte(bytes@.take(i as int), 46),
        decreases n - i,
    {
        assert(bytes@.take(i + 1).drop_last() =~= bytes@.take(i as int));
        if bytes[i] != 46 {
            plain.push(bytes[i]);
        }
        i += 1;
    }
    assert(bytes@.take(n as int) =~= bytes@);
    let m: usize = plain.len();
    let signed: bool = m > 0 && (plain[0] == 45 || plain[0] == 43);
    let start: usize = if signed {
        1
    } else {
        0
    };
    let digits = slice_subrange(plain.as_slice(), start, m);
    assert(digits@ =~= if signed {
        plain@.skip(1)
    } else {
        plain@
    });
    if digits.len() == 0 || !check_digits(digits) {
        return None;
    }
    match digits_to_value(digits, 0, MAX_AMOUNT) {
        None => None,
        Some(v) => {
            if plain[0] == 45 {
                Some(-(v as i64))
            } else {
                Some(v as i64)
            }
        },
    }
}

/// The decimal text of a whole number: a minus sign where it is below
/// zero, then its digits.
pub open spec fn integer_text(n: int) -> Seq<char> {
    if n < 0 {
        "-"@ + decimal_text((-n) as nat)
    } else {
        decimal_text(n as nat)
    }
}

/// `count` zeros.
pub open spec fn zeros(count: nat) -> Seq<char> {
    Seq::new(count, |i: int| '0')
}

/// The text of the amount as a decimal number of `precision` places: the
/// text of the whole number, filled up with zeros in front to one more
/// character than the places, with a dot before the last `precision`
/// characters where there are places.
pub open spec fn decimal_of_units(amount: i64, precision: u8) -> Seq<char> {
    let plain = integer_text(amount as int);
    let filled = if plain.len() < precision + 1 {
        zeros((precision + 1 - plain.len()) as nat) + plain
    } else {
        plain
    };
    if precision > 0 {
        filled.subrange(0, filled.len() - precision) + "."@ + filled.subrange(
            filled.len() - precision,
            filled.len() as int,
        )
    } else {
        filled
    }
}

/// The decimal text of `n`.
pub fn i64_text(n: i64) -> (r: String)
    ensures
        r@ == integer_text(n as int),
{
    if n < 0 {
        let magnitude: u64 = (-(n + 1)) as u64 + 1;
        let mut text: String = String::from_str("-");
        text.append(u64_text(magnitude).as_str());
        text
    } else {
        u64_text(n as u64)
    }
}

impl Asset {
    /// The asset of `amount` units of `symbol`, if the amount is within
    /// `MAX_AMOUNT` either way and the symbol has the number of a symbol
    /// code.
    pub fn new(amount: i64, symbol: Symbol) -> (r: Option<Asset>)
        ensures
            r == asset_of(amount, symbol),
    {
        if amount < -(MAX_AMOUNT as i64) || amount > MAX_AMOUNT as i64 {
            return None;
        }
        if symbol_code_valid(symbol.inner / 256) {
            Some(Asset { amount, symbol })
        } else {
            None
        }
    }

    /// The asset that the first sixteen bytes of `buffer` hold.
    pub fn from_bytes(buffer: &[u8]) -> (r: Option<Asset>)
        ensures
            r == asset_of_bytes(buffer@),
    {
        if buffer.len() < 16 {
            return None;
        }
        let amount: i64 = i64_from_bits(decode_u64(buffer));
        let rest = slice_subrange(buffer, 8, buffer.len());
        assert(rest@.subrange(0, 8) =~= buffer@.subrange(8, 16));
        let symbol: u64 = decode_u64(rest);
        Asset::new(amount, Symbol { inner: symbol })
    }

    /// The asset that `s` is the text of, if it is one.
    pub fn from_str_py(s: &str) -> (r: Option<Asset>)
        ensures
            r == asset_of_text(s@),
    {
        match parse_asset(s) {
            Some((amount, symbol)) => Some(Asset { amount, symbol: Symbol { inner: symbol } }),
            None => None,
        }
    }

    /// The asset of `amount` units of the symbol with the code `sym` and
    /// the precision `precision`.
    pub fn from_ints(amount: i64, precision: u8, sym: &str) -> (r: Option<Asset>)
        ensures
            r == match symbol_of_spec(sym@, precision) {
                Some(symbol) => asset_of(amount, Symbol { inner: symbol }),
                None => None,
            },
    {
        match symbol_of(sym, precision) {
            Some(symbol) => Asset::new(amount, Symbol { inner: symbol }),
            None => None,
        }
    }

    /// The asset that the decimal number with the text `d` stands for, of
    /// the symbol `sym`. The digits of the number, with the dot left out,
    /// are the amount.
    pub fn from_decimal(d: &str, sym: &SymLike) -> (r: Option<Asset>)
        ensures
            r == asset_of_decimal(d@, *sym),
    {
        let symbol: Symbol = match Symbol::try_from(sym) {
            None => {
                return None;
            },
            Some(s) => s,
        };
        match decimal_units(d) {
            None => None,
            Some(amount) => Asset::new(amount, symbol),
        }
    }

    /// The asset that `value` stands for.
    pub fn try_from(value: &AssetLike) -> (r: Option<Asset>)
        ensures
            r == match value {
                AssetLike::Raw(raw) => asset_of_bytes(raw@),
                AssetLike::Str(s) => asset_of_text(s@),
                AssetLike::Int(amount, sym) => match symbol_like(*sym) {
                    Some(symbol) => asset_of(*amount, symbol),
                    None => None,
                },
                AssetLike::Decimal(d, sym) => asset_of_decimal(d@, *sym),
                AssetLike::Cls(asset) => Some(*asset),
            },
    {
        match value {
            AssetLike::Raw(raw) => Asset::from_bytes(raw.as_slice()),
            AssetLike::Str(s) => Asset::from_str_py(s.as_str()),
            AssetLike::Int(amount, sym) => match Symbol::try_from(sym) {
                Some(symbol) => Asset::new(*amount, symbol),
                None => None,
            },
            AssetLike::Decimal(d, sym) => Asset::from_decimal(d.as_str(), sym),
            AssetLike::Cls(asset) => Some(*asset),
        }
    }

    /// The text of the asset, if it has one.
    pub fn to_builtins(&self) -> (r: Option<String>)
        ensures
            match r {
                Some(text) => asset_text_spec(self.amount, self.symbol.inner) == Some(text@),
                None => asset_text_spec(self.amount, self.symbol.inner).is_none(),
            },
    {
        asset_text(self.amount, self.symbol.inner)
    }

    /// The text of the amount as a decimal number with as many places as
    /// the symbol has.
    pub fn to_decimal(&self) -> (r: String)
        ensures
            r@ == decimal_of_units(self.amount, self.symbol.spec_precision()),
    {
        let precision: usize = (self.symbol.inner % 256) as usize;
        let plain: String = i64_text(self.amount);
        let length: usize = plain.as_str().unicode_len();
        let mut filled: String = String::new();
        let mut i: usize = length;
        while i < precision + 1
            invariant
                length <= i || i == length,
                length == plain@.len(),
                precision <= 255,
                i <= precision + 1 || i == length,
                filled@ == zeros((i - length) as nat),
            decreases precision + 1 - i,
        {
            let ghost before = filled@;
            proof {
                reveal_strlit("0");
            }
            filled.append("0");
            assert(filled@ =~= zeros((i + 1 - length) as nat));
            i += 1;
        }
        filled.append(plain.as_str());
        if precision > 0 {
            let total: usize = filled.as_str().unicode_len();
            let mut text: String = filled.as_str().substring_char(0, total - precision).to_owned();
            text.append(".");
            text.append(filled.as_str().substring_char(total - precision, total));
            text
        } else {
            filled
        }
    }

    /// The sixteen bytes of the asset: the amount in two's complement, then
    /// the symbol, each least significant byte first.
    pub fn encode(&self) -> (r: Vec<u8>)
        ensures
            r@ == le_bytes(to_unsigned(self.amount as int, 8), 8) + le_bytes(
                self.symbol.inner as nat,
                8,
            ),
    {
        let mut out: Vec<u8> = encode_u64(i64_bits(self.amount));
        let mut rest: Vec<u8> = encode_u64(self.symbol.inner);
        out.append(&mut rest);
        out
    }

    /// The amount, in the smallest units of the symbol.
    pub fn amount(&self) -> (r: i64)
        ensures
            r == self.amount,
    {
        self.amount
    }

    /// The symbol.
    pub fn symbol(&self) -> (r: Symbol)
        ensures
            r == self.symbol,
    {
        self.symbol
    }

    /// The sum of two assets of one symbol, if it is within `MAX_AMOUNT`
    /// either way.
    pub fn try_add(&self, other: &Asset) -> (r: Option<Asset>)
        ensures
            r == if self.symbol == other.symbol && -(MAX_AMOUNT as int) <= self.amount
                + other.amount <= MAX_AMOUNT {
                Some(
                    Asset { amount: (self.amount + other.amount) as i64, symbol: self.symbol },
                )
            } else {
                None
            },
    {
        if self.symbol.inner != other.symbol.inner {
            return None;
        }
        let sum: i128 = self.amount as i128 + other.amount as i128;
        if sum < -(MAX_AMOUNT as i128) || sum > MAX_AMOUNT as i128 {
            return None;
        }
        Some(Asset { amount: sum as i64, symbol: self.symbol })
    }

    /// The difference of two assets of one symbol, if it is within
    /// `MAX_AMOUNT` either way.
    pub fn try_sub(&self, other: &Asset) -> (r: Option<Asset>)
        ensures
            r == if self.symbol == other.symbol && -(MAX_AMOUNT as int) <= self.amount
                - other.amount <= MAX_AMOUNT {
                Some(
                    Asset { amount: (self.amount - other.amount) as i64, symbol: self.symbol },
                )
            } else {
                None
            },
    {
        if self.symbol.inner != other.symbol.inner {
            return None;
        }
        let difference: i128 = self.amount as i128 - other.amount as i128;
        if difference < -(MAX_AMOUNT as i128) || difference > MAX_AMOUNT as i128 {
            return None;
        }
        Some(Asset { amount: difference as i64, symbol: self.symbol })
    }

    /// The asset as a codec value: its binary form.
    pub fn to_value(&self) -> (r: Value)
        ensures
            r@ == ValueView::Semantic(
                SemanticKind::Asset,
                le_bytes(to_unsigned(self.amount as int, 8), 8) + le_bytes(
                    self.symbol.inner as nat,
                    8,
                ),
            ),
    {
        Value::Semantic(SemanticKind::Asset, self.encode())
    }
}

/// An asset with the contract that issues it.
#[derive(Clone, Copy, Debug, Default, PartialEq, Eq, Structural)]
pub struct ExtendedAsset {
    pub quantity: Asset,
    pub contract: Name,
}

/// What an extended asset can be made from.
#[derive(Debug)]
pub enum ExtAssetLike {
    Raw(Vec<u8>),
    Str(String),
    Cls(ExtendedAsset),
}

/// The extended asset that the first twenty-four bytes hold: an asset and
/// the name of the contract.
pub open spec fn extended_asset_of_bytes(buffer: Seq<u8>) -> Option<ExtendedAsset> {
    if buffer.len() >= 24 {
        match asset_of_bytes(buffer) {
            Some(quantity) => Some(
                ExtendedAsset {
                    quantity,
                    contract: Name { inner: le_value(buffer.subrange(16, 24)) as u64 },
                },
            ),
            None => None,
        }
    } else {
        None
    }
}

/// The extended asset that a text stands for, if it stands for one.
pub open spec fn extended_asset_of_text(s: Seq<char>) -> Option<ExtendedAsset> {
    match parse_extended_asset_spec(s) {
        Some((amount, symbol, contract)) => Some(
            ExtendedAsset {
                quantity: Asset { amount, symbol: Symbol { inner: symbol } },
                contract: Name { inner: contract },
            },
        ),
        None => None,
    }
}

impl ExtendedAsset {
    /// The text: that of the asset, `@` and the name of the contract.
    pub open spec fn spec_text(self) -> Option<Seq<char>> {
        match asset_text_spec(self.quantity.amount, self.quantity.symbol.inner) {
            Some(text) => Some(text + "@"@ + text_of_name(self.contract.inner)),
            None => None,
        }
    }

    /// The extended asset that the first twenty-four bytes of `buffer`
    /// hold.
    pub fn from_bytes(buffer: &[u8]) -> (r: Option<ExtendedAsset>)
        ensures
            r == extended_asset_of_bytes(buffer@),
    {
        if buffer.len() < 24 {
            return None;
        }
        match Asset::from_bytes(buffer) {
            None => None,
            Some(quantity) => {
                let rest = slice_subrange(buffer, 16, buffer.len());
                assert(rest@.subrange(0, 8) =~= buffer@.subrange(16, 24));
                Some(ExtendedAsset { quantity, contract: Name { inner: decode_u64(rest) } })
            },
        }
    }

    /// The extended asset that `s` is the text of, if it is one.
    pub fn from_str_py(s: &str) -> (r: Option<ExtendedAsset>)
        ensures
            r == extended_asset_of_text(s@),
    {
        match parse_extended_asset(s) {
            Some((amount, symbol, contract)) => Some(
                ExtendedAsset {
                    quantity: Asset { amount, symbol: Symbol { inner: symbol } },
                    contract: Name { inner: contract },
                },
            ),
            None => None,
        }
    }

    /// The extended asset that `value` stands for.
    pub fn try_from(value: &ExtAssetLike) -> (r: Option<ExtendedAsset>)
        ensures
            r == match value {
                ExtAssetLike::Raw(raw) => extended_asset_of_bytes(raw@),
                ExtAssetLike::Str(s) => extended_asset_of_text(s@),
                ExtAssetLike::Cls(asset) => Some(*asset),
            },
    {
        match value {
            ExtAssetLike::Raw(raw) => ExtendedAsset::from_bytes(raw.as_slice()),
            ExtAssetLike::Str(s) => ExtendedAsset::from_str_py(s.as_str()),
            ExtAssetLike::Cls(asset) => Some(*asset),
        }
    }

    /// The text of the extended asset, if its asset has one.
    pub fn to_builtins(&self) -> (r: Option<String>)
        ensures
            match r {
                Some(text) => self.spec_text() == Some(text@),
                None => self.spec_text().is_none(),
            },
    {
        match self.quantity.to_builtins() {
            None => None,
            Some(quantity) => {
                let mut text: String = quantity;
                text.append("@");
                text.append(self.contract.to_string().as_str());
                Some(text)
            },
        }
    }

    /// The twenty-four bytes of the extended asset: the asset and the name
    /// of the contract.
    pub fn encode(&self) -> (r: Vec<u8>)
        ensures
            r@ == le_bytes(to_unsigned(self.quantity.amount as int, 8), 8) + le_bytes(
                self.quantity.symbol.inner as nat,
                8,
            ) + le_bytes(self.contract.inner as nat, 8),
    {
        let mut out: Vec<u8> = self.quantity.encode();
        let mut rest: Vec<u8> = self.contract.encode();
        out.append(&mut rest);
        out
    }

    /// The sum of the two quantities, with the contract of `other`.
    pub fn try_add(&self, other: &ExtendedAsset) -> (r: Option<ExtendedAsset>)
        ensures
            r == match self.quantity.spec_sum(other.quantity) {
                Some(quantity) => Some(ExtendedAsset { quantity, contract: other.contract }),
                None => None,
            },
    {
        match self.quantity.try_add(&other.quantity) {
            Some(quantity) => Some(ExtendedAsset { quantity, contract: other.contract }),
            None => None,
        }
    }

    /// The difference of the two quantities, with the contract of `other`.
    pub fn try_sub(&self, other: &ExtendedAsset) -> (r: Option<ExtendedAsset>)
        ensures
            r == match self.quantity.spec_difference(other.quantity) {
                Some(quantity) => Some(ExtendedAsset { quantity, contract: other.contract }),
                None => None,
            },
    {
        match self.quantity.try_sub(&other.quantity) {
            Some(quantity) => Some(ExtendedAsset { quantity, contract: other.contract }),
            None => None,
        }
    }
}

impl Asset {
    /// The sum of two assets of one symbol, if it is within `MAX_AMOUNT`
    /// either way.
    pub open spec fn spec_sum(self, other: Asset) -> Option<Asset> {
        if self.symbol == other.symbol && -(MAX_AMOUNT as int) <= self.amount + other.amount
            <= MAX_AMOUNT {
            Some(Asset { amount: (self.amount + other.amount) as i64, symbol: self.symbol })
        } else {
            None
        }
    }

    /// The difference of two assets of one symbol, if it is within
    /// `MAX_AMOUNT` either way.
    pub open spec fn spec_difference(self, other: Asset) -> Option<Asset> {
        if self.symbol == other.symbol && -(MAX_AMOUNT as int) <= self.amount - other.amount
            <= MAX_AMOUNT {
            Some(Asset { amount: (self.amount - other.amount) as i64, symbol: self.symbol })
        } else {
            None
        }
    }
}

} // verus!
