//! The text forms of the chain types: names, symbols, assets, checksums and
//! keys.
//!
//! Text is parsed and rendered by the `antelope` and `hex` crates. Their
//! parsers panic on malformed text, so each text is checked here first, and
//! the contract of each call says on which text it may be made.
use vstd::prelude::*;
use vstd::slice::slice_subrange;
use vstd::string::*;
use vstd::utf8::{encode_utf8, is_ascii_chars, is_ascii_chars_encode_utf8};
use crate::wire::{le_bytes, le_value};

verus! {

/// The bytes of a text of ASCII characters.
pub open spec fn ascii_bytes(s: Seq<char>) -> Seq<u8> {
    Seq::new(s.len(), |i: int| s[i] as u8)
}

/// The bytes of `s`, where `s` holds ASCII characters only.
pub(crate) fn ascii_of(s: &str) -> (r: Option<&[u8]>)
    ensures
        match r {
            Some(bytes) => is_ascii_chars(s@) && bytes@ == ascii_bytes(s@),
            None => !is_ascii_chars(s@),
        },
{
    if s.is_ascii() {
        let bytes = s.as_bytes();
        proof {
            is_ascii_chars_encode_utf8(s@);
            assert(bytes@ =~= ascii_bytes(s@));
        }
        Some(bytes)
    } else {
        None
    }
}

/// A character of a name: a dot, a digit from 1 to 5 or a lower-case letter.
pub open spec fn is_name_byte(b: u8) -> bool {
    b == 46 || (49 <= b <= 53) || (97 <= b <= 122)
}

/// A character that may stand last in a name of thirteen: a dot, a digit
/// from 1 to 5 or a letter from `a` to `j`.
pub open spec fn is_last_name_byte(b: u8) -> bool {
    b == 46 || (49 <= b <= 53) || (97 <= b <= 106)
}

/// The one text of name characters that is no name: twelve `z` and a `j`.
pub open spec fn is_void_name(b: Seq<u8>) -> bool {
    b.len() == 13 && b[12] == 106 && forall|i: int| 0 <= i < 12 ==> b[i] == 122
}

/// The bytes are the text of a name: at most thirteen name characters, the
/// thirteenth, if there is one, no later than `j`.
pub open spec fn name_bytes_ok(b: Seq<u8>) -> bool {
    b.len() <= 13 && (forall|i: int| 0 <= i < b.len() ==> is_name_byte(#[trigger] b[i])) && (b.len()
        == 13 ==> is_last_name_byte(b[12])) && !is_void_name(b)
}

/// The text is that of a name.
pub open spec fn name_text_ok(s: Seq<char>) -> bool {
    is_ascii_chars(s) && name_bytes_ok(ascii_bytes(s))
}

/// The number of the name that a text stands for.
pub uninterp spec fn name_from_text(s: Seq<char>) -> u64;

/// `antelope::chain::name::Name::new_from_str`: the number of the name that
/// `s` is the text of. It panics on a text that is not a name, which is
/// left out.
#[verifier::external_body]
fn name_value(s: &str) -> (n: u64)
    requires
        name_text_ok(s@),
    ensures
        n == name_from_text(s@),
{
    antelope::chain::name::Name::new_from_str(s).n
}

/// Whether the bytes are the text of a name.
fn check_name_bytes(b: &[u8]) -> (r: bool)
    ensures
        r == name_bytes_ok(b@),
{
    let n: usize = b.len();
    if n > 13 {
        return false;
    }
    let mut all_z: bool = true;
    let mut i: usize = 0;
    while i < n
        invariant
            0 <= i <= n <= 13,
            n == b@.len(),
            forall|k: int| 0 <= k < i ==> is_name_byte(#[trigger] b@[k]),
            all_z == (forall|k: int| 0 <= k < i && k < 12 ==> b@[k] == 122),
        decreases n - i,
    {
        let c: u8 = b[i];
        if !(c == 46 || (49 <= c && c <= 53) || (97 <= c && c <= 122)) {
            return false;
        }
        if i < 12 && c != 122 {
            all_z = false;
        }
        i += 1;
    }
    if n == 13 {
        let last: u8 = b[12];
        if !(last == 46 || (49 <= last && last <= 53) || (97 <= last && last <= 106)) {
            return false;
        }
        if all_z && last == 106 {
            return false;
        }
    }
    true
}

/// The number of the name that `s` is the text of, if it is one.
pub open spec fn parse_name_spec(s: Seq<char>) -> Option<u64> {
    if name_text_ok(s) {
        Some(name_from_text(s))
    } else {
        None
    }
}

/// The number of the name that `s` is the text of, if it is one.
pub fn parse_name(s: &str) -> (r: Option<u64>)
    ensures
        r == parse_name_spec(s@),
{
    match ascii_of(s) {
        None => None,
        Some(bytes) => {
            if check_name_bytes(bytes) {
                Some(name_value(s))
            } else {
                None
            }
        },
    }
}

/// A decimal digit.
pub open spec fn is_digit(b: u8) -> bool {
    48 <= b <= 57
}

/// An upper-case letter.
pub open spec fn is_upper(b: u8) -> bool {
    65 <= b <= 90
}

/// Every byte is a decimal digit.
pub open spec fn all_digits(b: Seq<u8>) -> bool {
    forall|i: int| 0 <= i < b.len() ==> is_digit(#[trigger] b[i])
}

/// Every byte is an upper-case letter.
pub open spec fn all_upper(b: Seq<u8>) -> bool {
    forall|i: int| 0 <= i < b.len() ==> is_upper(#[trigger] b[i])
}

/// The first position at or after `from` of the byte `c`.
pub open spec fn first_byte_from(b: Seq<u8>, c: u8, from: int) -> Option<int>
    decreases b.len() - from,
{
    if from < 0 || from >= b.len() {
        None
    } else if b[from] == c {
        Some(from)
    } else {
        first_byte_from(b, c, from + 1)
    }
}

/// The first position of the byte `c`.
pub open spec fn first_byte(b: Seq<u8>, c: u8) -> Option<int> {
    first_byte_from(b, c, 0)
}

/// The first position of the byte `c` in `b`.
pub(crate) fn find_byte(b: &[u8], c: u8) -> (r: Option<usize>)
    ensures
        match r {
            Some(i) => first_byte(b@, c) == Some(i as int) && i < b@.len() && b@[i as int] == c,
            None => first_byte(b@, c).is_none(),
        },
{
    let n: usize = b.len();
    let mut i: usize = 0;
    while i < n
        invariant
            0 <= i <= n,
            n == b@.len(),
            first_byte(b@, c) == first_byte_from(b@, c, i as int),
        decreases n - i,
    {
        if b[i] == c {
            return Some(i);
        }
        i += 1;
    }
    None
}

/// Whether every byte is a decimal digit.
pub(crate) fn check_digits(b: &[u8]) -> (r: bool)
    ensures
        r == all_digits(b@),
{
    let n: usize = b.len();
    let mut i: usize = 0;
    while i < n
        invariant
            0 <= i <= n,
            n == b@.len(),
            forall|k: int| 0 <= k < i ==> is_digit(#[trigger] b@[k]),
        decreases n - i,
    {
        if !(48 <= b[i] && b[i] <= 57) {
            return false;
        }
        i += 1;
    }
    true
}

/// The bytes are the text of a symbol code: from one to six upper-case
/// letters.
pub open spec fn code_bytes_ok(b: Seq<u8>) -> bool {
    1 <= b.len() <= 6 && all_upper(b)
}

/// Whether the bytes are the text of a symbol code.
pub(crate) fn check_code_bytes(b: &[u8]) -> (r: bool)
    ensures
        r == code_bytes_ok(b@),
{
    let n: usize = b.len();
    if n < 1 || n > 6 {
        return false;
    }
    let mut i: usize = 0;
    while i < n
        invariant
            0 <= i <= n,
            n == b@.len(),
            forall|k: int| 0 <= k < i ==> is_upper(#[trigger] b@[k]),
        decreases n - i,
    {
        if !(65 <= b[i] && b[i] <= 90) {
            return false;
        }
        i += 1;
    }
    true
}

/// The text is that of a symbol code.
pub open spec fn code_text_ok(s: Seq<char>) -> bool {
    is_ascii_chars(s) && code_bytes_ok(ascii_bytes(s))
}

/// The number of the symbol code that a text stands for: the number that
/// its letters hold as bytes, the first letter least significant.
pub open spec fn symbol_code_from_text(s: Seq<char>) -> u64 {
    le_value(ascii_bytes(s)) as u64
}

/// `antelope::chain::asset::SymbolCode::new`: the number of the symbol code
/// that `s` is the text of, which holds the letters of `s` as its bytes,
/// the first letter least significant. It panics on a text that is not from
/// one to six upper-case letters, which is left out.
#[verifier::external_body]
fn symbol_code_value(s: &str) -> (n: u64)
    requires
        code_text_ok(s@),
    ensures
        n == le_value(ascii_bytes(s@)),
{
    antelope::chain::asset::SymbolCode::new(s).value
}

/// The number of the symbol code that `s` is the text of, if it is one.
pub open spec fn parse_symbol_code_spec(s: Seq<char>) -> Option<u64> {
    if code_text_ok(s) {
        Some(symbol_code_from_text(s))
    } else {
        None
    }
}

/// The number of the symbol code that `s` is the text of, if it is one.
pub fn parse_symbol_code(s: &str) -> (r: Option<u64>)
    ensures
        r == parse_symbol_code_spec(s@),
{
    match ascii_of(s) {
        None => None,
        Some(bytes) => {
            if check_code_bytes(bytes) {
                Some(symbol_code_value(s))
            } else {
                None
            }
        },
    }
}

/// The number that the digits `b` write after the number `acc`.
pub open spec fn digits_value_from(acc: nat, b: Seq<u8>) -> nat
    decreases b.len(),
{
    if b.len() == 0 {
        acc
    } else {
        10 * digits_value_from(acc, b.drop_last()) + (b.last() - 48) as nat
    }
}

/// More digits write no smaller a number.
pub proof fn lemma_digits_value_grows(acc: nat, b: Seq<u8>, n: int)
    requires
        0 <= n <= b.len(),
        all_digits(b),
    ensures
        digits_value_from(acc, b.take(n)) <= digits_value_from(acc, b),
    decreases b.len() - n,
{
    if n == b.len() {
        assert(b.take(n) =~= b);
    } else {
        lemma_digits_value_grows(acc, b, n + 1);
        assert(b.take(n + 1).drop_last() =~= b.take(n));
        assert(is_digit(b[n]));
    }
}

/// The greatest precision of a symbol.
pub const MAX_PRECISION: u8 = 18;

/// The greatest amount of an asset: 2 to the power 62, less 1.
pub const MAX_AMOUNT: u64 = 0x3fff_ffff_ffff_ffff;

/// The number that the digits `b` write after `start`, where it is at most
/// `limit`.
pub(crate) fn digits_to_value(b: &[u8], start: u64, limit: u64) -> (r: Option<u64>)
    requires
        all_digits(b@),
        start <= limit,
        limit <= MAX_AMOUNT,
    ensures
        match r {
            Some(v) => v == digits_value_from(start as nat, b@) && v <= limit,
            None => digits_value_from(start as nat, b@) > limit,
        },
{
    let n: usize = b.len();
    let mut acc: u64 = start;
    let mut i: usize = 0;
    assert(b@.take(0) =~= Seq::<u8>::empty());
    while i < n
        invariant
            0 <= i <= n,
            n == b@.len(),
            all_digits(b@),
            limit <= MAX_AMOUNT,
            acc <= limit,
            acc == digits_value_from(start as nat, b@.take(i as int)),
        decreases n - i,
    {
        assert(b@.take(i + 1).drop_last() =~= b@.take(i as int));
        assert(is_digit(b@[i as int]));
        let next: u128 = acc as u128 * 10 + (b[i] - 48) as u128;
        if next > limit as u128 {
            proof {
                lemma_digits_value_grows(start as nat, b@, i + 1);
            }
            return None;
        }
        acc = next as u64;
        i += 1;
    }
    assert(b@.take(n as int) =~= b@);
    Some(acc)
}

/// The text is that of a symbol: the precision in decimal digits, at most
/// 18, a comma, and a symbol code.
pub open spec fn symbol_bytes_ok(b: Seq<u8>) -> bool {
    match first_byte(b, 44) {
        None => false,
        Some(c) => 1 <= c <= 3 && all_digits(b.take(c)) && digits_value_from(0, b.take(c))
            <= MAX_PRECISION && code_bytes_ok(b.skip(c + 1)),
    }
}

/// The text is that of a symbol.
pub open spec fn symbol_text_ok(s: Seq<char>) -> bool {
    is_ascii_chars(s) && symbol_bytes_ok(ascii_bytes(s))
}

/// The number of the symbol with the code `code` and the precision
/// `precision`: the precision in the lowest byte, the number of the code
/// above it.
pub open spec fn symbol_from_parts(code: Seq<char>, precision: u8) -> u64 {
    (le_value(ascii_bytes(code)) * 256 + precision) as u64
}

/// `antelope::chain::asset::Symbol::new`: the number of the symbol with the
/// code `code` and the precision `precision`, which holds the precision in
/// its lowest byte and the letters of the code in the bytes above it. It
/// panics on a code that is not from one to six upper-case letters, which
/// is left out.
#[verifier::external_body]
fn symbol_value(code: &str, precision: u8) -> (n: u64)
    requires
        code_text_ok(code@),
    ensures
        n == le_value(ascii_bytes(code@)) * 256 + precision,
{
    antelope::chain::asset::Symbol::new(code, precision).value()
}

/// The number of the symbol that `s` is the text of, if it is one.
pub open spec fn parse_symbol_spec(s: Seq<char>) -> Option<u64> {
    if symbol_text_ok(s) {
        let c = first_byte(ascii_bytes(s), 44)->Some_0;
        Some(
            symbol_from_parts(
                s.subrange(c + 1, s.len() as int),
                digits_value_from(0, ascii_bytes(s).take(c)) as u8,
            ),
        )
    } else {
        None
    }
}

/// The number of the symbol that `s` is the text of, if it is one.
pub fn parse_symbol(s: &str) -> (r: Option<u64>)
    ensures
        r == parse_symbol_spec(s@),
{
    let bytes: &[u8] = match ascii_of(s) {
        None => {
            return None;
        },
        Some(b) => b,
    };
    let n: usize = bytes.len();
    let comma: usize = match find_byte(bytes, 44) {
        None => {
            return None;
        },
        Some(c) => c,
    };
    if comma < 1 || comma > 3 {
        return None;
    }
    let digits = slice_subrange(bytes, 0, comma);
    let letters = slice_subrange(bytes, comma + 1, n);
    assert(digits@ =~= bytes@.take(comma as int));
    assert(letters@ =~= bytes@.skip(comma + 1));
    if !check_digits(digits) {
        return None;
    }
    let precision: u64 = match digits_to_value(digits, 0, MAX_PRECISION as u64) {
        None => {
            return None;
        },
        Some(p) => p,
    };
    if !check_code_bytes(letters) {
        return None;
    }
    let code: &str = s.substring_ascii(comma + 1, n);
    assert(ascii_bytes(code@) =~= letters@);
    Some(symbol_value(code, precision as u8))
}

/// The bytes are the amount of an asset: decimal digits, with at most one
/// dot among them and at most 18 digits after it, that write a number of at
/// most `MAX_AMOUNT` when the dot is left out.
pub open spec fn amount_bytes_ok(b: Seq<u8>) -> bool {
    match first_byte(b, 46) {
        None => all_digits(b) && digits_value_from(0, b) <= MAX_AMOUNT,
        Some(d) => all_digits(b.take(d)) && all_digits(b.skip(d + 1)) && b.len() - d - 1
            <= MAX_PRECISION && digits_value_from(digits_value_from(0, b.take(d)), b.skip(d + 1))
            <= MAX_AMOUNT,
    }
}

/// The bytes are the text of an asset: an optional minus sign, an amount, a
/// space and a symbol code.
pub open spec fn asset_bytes_ok(b: Seq<u8>) -> bool {
    let body = if b.len() > 0 && b[0] == 45 {
        b.skip(1)
    } else {
        b
    };
    match first_byte(body, 32) {
        None => false,
        Some(sp) => amount_bytes_ok(body.take(sp)) && code_bytes_ok(body.skip(sp + 1)),
    }
}

/// The text is that of an asset.
pub open spec fn asset_text_ok(s: Seq<char>) -> bool {
    is_ascii_chars(s) && asset_bytes_ok(ascii_bytes(s))
}

/// The number that the digits of an amount write, the dot left out.
pub open spec fn amount_units(b: Seq<u8>) -> nat {
    match first_byte(b, 46) {
        None => digits_value_from(0, b),
        Some(d) => digits_value_from(digits_value_from(0, b.take(d)), b.skip(d + 1)),
    }
}

/// Number of digits after the dot of an amount.
pub open spec fn amount_places(b: Seq<u8>) -> nat {
    match first_byte(b, 46) {
        None => 0,
        Some(d) => (b.len() - d - 1) as nat,
    }
}

/// The amount and the number of the symbol of the asset that the bytes are
/// the text of. The amount is the number that all its digits write, below
/// zero after a minus sign; the symbol has the code after the space and as
/// many places as the amount has digits after its dot.
pub open spec fn asset_from_bytes(b: Seq<u8>) -> (i64, u64) {
    let minus = b.len() > 0 && b[0] == 45;
    let body = if minus {
        b.skip(1)
    } else {
        b
    };
    let space = first_byte(body, 32)->Some_0;
    let units = amount_units(body.take(space));
    let places = amount_places(body.take(space));
    (
        if minus {
            (-(units as int)) as i64
        } else {
            units as i64
        },
        (le_value(body.skip(space + 1)) * 256 + places) as u64,
    )
}

/// The amount and the number of the symbol of the asset that a text stands
/// for.
pub open spec fn asset_from_text(s: Seq<char>) -> (i64, u64) {
    asset_from_bytes(ascii_bytes(s))
}

/// `antelope::chain::asset::Asset::from_string`: the amount and the symbol
/// of the asset that `s` is the text of. The amount is the number that its
/// digits write with the dot left out, below zero after a minus sign; the
/// symbol holds the count of the digits after the dot in its lowest byte
/// and the letters after the space above it. It panics on a text that is
/// not an amount, a space and a symbol code, or whose amount is beyond
/// `MAX_AMOUNT` or has more than 18 digits after the dot: all left out.
#[verifier::external_body]
fn asset_value(s: &str) -> (r: (i64, u64))
    requires
        asset_text_ok(s@),
    ensures
        r == asset_from_text(s@),
{
    let asset = antelope::chain::asset::Asset::from_string(s);
    (asset.amount(), asset.symbol().value())
}

/// Whether the bytes are the amount of an asset.
fn check_amount_bytes(b: &[u8]) -> (r: bool)
    ensures
        r == amount_bytes_ok(b@),
{
    let n: usize = b.len();
    match find_byte(b, 46) {
        None => check_digits(b) && digits_to_value(b, 0, MAX_AMOUNT).is_some(),
        Some(d) => {
            let whole = slice_subrange(b, 0, d);
            let fraction = slice_subrange(b, d + 1, n);
            assert(whole@ =~= b@.take(d as int));
            assert(fraction@ =~= b@.skip(d + 1));
            if !check_digits(whole) || !check_digits(fraction) {
                return false;
            }
            if fraction.len() > MAX_PRECISION as usize {
                return false;
            }
            match digits_to_value(whole, 0, MAX_AMOUNT) {
                None => {
                    proof {
                        lemma_digits_value_grows(
                            digits_value_from(0, whole@),
                            fraction@,
                            0,
                        );
                        assert(fraction@.take(0) =~= Seq::<u8>::empty());
                    }
                    false
                },
                Some(v) => digits_to_value(fraction, v, MAX_AMOUNT).is_some(),
            }
        },
    }
}

/// Whether the bytes are the text of an asset.
fn check_asset_bytes(b: &[u8]) -> (r: bool)
    ensures
        r == asset_bytes_ok(b@),
{
    let n: usize = b.len();
    let start: usize = if n > 0 && b[0] == 45 {
        1
    } else {
        0
    };
    let body = slice_subrange(b, start, n);
    assert(body@ =~= if b@.len() > 0 && b@[0] == 45 {
        b@.skip(1)
    } else {
        b@
    });
    match find_byte(body, 32) {
        None => false,
        Some(sp) => {
            let amount = slice_subrange(body, 0, sp);
            let code = slice_subrange(body, sp + 1, body.len());
            assert(amount@ =~= body@.take(sp as int));
            assert(code@ =~= body@.skip(sp + 1));
            check_amount_bytes(amount) && check_code_bytes(code)
        },
    }
}

/// The amount and the symbol of the asset that `s` is the text of, if it is
/// one.
pub open spec fn parse_asset_spec(s: Seq<char>) -> Option<(i64, u64)> {
    if asset_text_ok(s) {
        Some(asset_from_text(s))
    } else {
        None
    }
}

/// The amount and the symbol of the asset that `s` is the text of, if it is
/// one.
pub fn parse_asset(s: &str) -> (r: Option<(i64, u64)>)
    ensures
        r == parse_asset_spec(s@),
{
    match ascii_of(s) {
        None => None,
        Some(bytes) => {
            if check_asset_bytes(bytes) {
                Some(asset_value(s))
            } else {
                None
            }
        },
    }
}

/// The value of a hexadecimal digit, in either case.
pub open spec fn hex_digit_value(b: u8) -> Option<u8> {
    if 48 <= b <= 57 {
        Some((b - 48) as u8)
    } else if 97 <= b <= 102 {
        Some((b - 87) as u8)
    } else if 65 <= b <= 70 {
        Some((b - 55) as u8)
    } else {
        None
    }
}

/// The bytes that hexadecimal text stands for, two digits to a byte, or
/// nothing where the text has an odd length or holds another character.
pub open spec fn hex_decoded(text: Seq<u8>) -> Option<Seq<u8>> {
    if text.len() % 2 == 0 && (forall|i: int|
        0 <= i < text.len() ==> hex_digit_value(#[trigger] text[i]).is_some()) {
        Some(
            Seq::new(
                text.len() / 2,
                |i: int|
                    (16 * hex_digit_value(text[2 * i]).unwrap() + hex_digit_value(
                        text[2 * i + 1],
                    ).unwrap()) as u8,
            ),
        )
    } else {
        None
    }
}

/// The lower-case hexadecimal digit of a number below 16.
pub open spec fn hex_digit(n: u8) -> char {
    if n < 10 {
        (48 + n) as u8 as char
    } else {
        (87 + n) as u8 as char
    }
}

/// The lower-case hexadecimal text of bytes, two digits to a byte.
pub open spec fn hex_text(data: Seq<u8>) -> Seq<char> {
    Seq::new(
        2 * data.len(),
        |i: int|
            if i % 2 == 0 {
                hex_digit(data[i / 2] / 16)
            } else {
                hex_digit(data[i / 2] % 16)
            },
    )
}

/// The hexadecimal text of bytes stands for those bytes.
pub proof fn lemma_hex_round_trip(data: Seq<u8>)
    ensures
        is_ascii_chars(hex_text(data)),
        hex_decoded(encode_utf8(hex_text(data))) == Some(data),
{
    let text = hex_text(data);
    assert forall|i: int| 0 <= i < text.len() implies '\0' <= #[trigger] text[i] <= '\u{7f}' by {
        let n: u8 = if i % 2 == 0 {
            data[i / 2] / 16
        } else {
            data[i / 2] % 16
        };
        assert(text[i] == hex_digit(n));
        assert(n < 16);
    }
    is_ascii_chars_encode_utf8(text);
    let bytes = encode_utf8(text);
    assert forall|i: int| 0 <= i < bytes.len() implies hex_digit_value(#[trigger] bytes[i])
        == Some(
        if i % 2 == 0 {
            data[i / 2] / 16
        } else {
            (data[i / 2] % 16) as u8
        },
    ) by {
        let n: u8 = if i % 2 == 0 {
            data[i / 2] / 16
        } else {
            data[i / 2] % 16
        };
        assert(text[i] == hex_digit(n));
        assert(bytes[i] == text[i] as u8);
    }
    let back = hex_decoded(bytes)->Some_0;
    assert(back =~= data) by {
        assert forall|k: int| 0 <= k < data.len() implies back[k] == data[k] by {
            assert(hex_digit_value(bytes[2 * k]) == Some(data[k] / 16));
            assert(hex_digit_value(bytes[2 * k + 1]) == Some((data[k] % 16) as u8));
        }
    }
}

/// `hex::decode`: the bytes that the hexadecimal text `s` stands for, or
/// nothing where `s` has an odd number of bytes or one that is no
/// hexadecimal digit.
#[verifier::external_body]
pub(crate) fn hex_decode(s: &str) -> (r: Option<Vec<u8>>)
    ensures
        match r {
            Some(bytes) => hex_decoded(encode_utf8(s@)) == Some(bytes@),
            None => hex_decoded(encode_utf8(s@)).is_none(),
        },
{
    hex::decode(s).ok()
}

/// `hex::encode`: the lower-case hexadecimal text of `data`.
#[verifier::external_body]
pub(crate) fn hex_encode(data: &[u8]) -> (r: String)
    ensures
        r@ == hex_text(data@),
{
    hex::encode(data)
}

/// The bytes of the checksum of `size` bytes that `s` is the hexadecimal
/// text of, if it is one.
pub open spec fn parse_checksum_spec(s: Seq<char>, size: nat) -> Option<Seq<u8>> {
    match hex_decoded(encode_utf8(s)) {
        Some(bytes) => if bytes.len() == size {
            Some(bytes)
        } else {
            None
        },
        None => None,
    }
}

/// The bytes of the checksum of `size` bytes that `s` is the hexadecimal
/// text of, if it is one.
pub fn parse_checksum(s: &str, size: usize) -> (r: Option<Vec<u8>>)
    ensures
        match r {
            Some(bytes) => parse_checksum_spec(s@, size as nat) == Some(bytes@),
            None => parse_checksum_spec(s@, size as nat).is_none(),
        },
{
    match hex_decode(s) {
        Some(bytes) => {
            if bytes.len() == size {
                Some(bytes)
            } else {
                None
            }
        },
        None => None,
    }
}

/// The curve of a key or of a signature.
#[derive(Clone, Copy, Debug, PartialEq, Eq, Structural)]
pub enum Curve {
    K1,
    R1,
}

impl Curve {
    /// The byte that stands for the curve on the wire.
    pub open spec fn code(self) -> u8 {
        match self {
            Curve::K1 => 0,
            Curve::R1 => 1,
        }
    }
}

/// The byte of the curve that a checksum was made for, 2 for none.
pub open spec fn curve_code(curve: Option<Curve>) -> u8 {
    match curve {
        Some(c) => c.code(),
        None => 2,
    }
}

/// The name of the curve with the wire byte `curve`: `K1` for 0, else `R1`.
pub open spec fn curve_suffix(curve: u8) -> Seq<char> {
    if curve == 0 {
        "K1"@
    } else {
        "R1"@
    }
}

/// The bytes that a text in base 58 with a checksum stands for, without the
/// checksum, where the checksum is right for the curve with the byte
/// `curve`; 2 stands for a checksum that was made without a curve.
pub uninterp spec fn ripemd160_check_decoded(text: Seq<char>, size: usize, curve: u8) -> Option<
    Seq<u8>,
>;

/// `antelope::base58::decode_ripemd160_check`, with the checksum looked at:
/// the bytes that `text` stands for, or nothing where `text` is not base 58
/// or its checksum is wrong.
#[verifier::external_body]
fn ripemd160_check_decode(text: &str, size: usize, curve: Option<Curve>) -> (r: Option<Vec<u8>>)
    ensures
        match r {
            Some(bytes) => ripemd160_check_decoded(text@, size, curve_code(curve)) == Some(
                bytes@,
            ),
            None => ripemd160_check_decoded(text@, size, curve_code(curve)).is_none(),
        },
{
    let key_type = match curve {
        Some(Curve::K1) => Some(antelope::chain::key_type::KeyType::K1),
        Some(Curve::R1) => Some(antelope::chain::key_type::KeyType::R1),
        None => None,
    };
    antelope::base58::decode_ripemd160_check(text, Some(size), key_type, false).ok()
}

/// The text in base 58 of bytes and their checksum for the curve named
/// `suffix`.
pub uninterp spec fn ripemd160_check_text(data: Seq<u8>, suffix: Seq<char>) -> Seq<char>;

/// `antelope::base58::encode_ripemd160_check`: the text in base 58 of
/// `data` followed by its checksum for the curve named `suffix`.
#[verifier::external_body]
fn ripemd160_check_encode(data: &[u8], suffix: &str) -> (r: String)
    ensures
        r@ == ripemd160_check_text(data@, suffix@),
{
    antelope::base58::encode_ripemd160_check(data.to_vec(), Some(suffix))
}

/// The kind of thing that a text with a curve stands for.
#[derive(Clone, Copy, Debug, PartialEq, Eq, Structural)]
pub enum Keyed {
    PublicKey,
    Signature,
}

impl Keyed {
    /// The three letters that start the text.
    pub open spec fn prefix(self) -> Seq<char> {
        match self {
            Keyed::PublicKey => "PUB"@,
            Keyed::Signature => "SIG"@,
        }
    }

    /// Number of bytes after the byte of the curve.
    pub open spec fn payload(self) -> nat {
        match self {
            Keyed::PublicKey => 33,
            Keyed::Signature => 65,
        }
    }

    /// The size that the checksum decoder is told.
    pub open spec fn told_size(self) -> usize {
        match self {
            Keyed::PublicKey => 32,
            Keyed::Signature => 65,
        }
    }
}

/// The binary form of the key or signature that `s` is the text of: the
/// byte of the curve and the bytes that the text stands for.
///
/// The text is three letters for the kind, `_`, the curve `K1` or `R1`, `_`
/// and the bytes with their checksum in base 58. A public key may also be
/// written in the older form, which is longer than 50 characters and ends
/// in the 50 characters of the bytes and a checksum without a curve; its
/// curve is `K1`.
pub open spec fn parse_keyed_spec(kind: Keyed, s: Seq<char>) -> Option<Seq<u8>> {
    if !is_ascii_chars(s) {
        None
    } else if s.len() >= 7 && s.subrange(0, 3) == kind.prefix() && s[3] == '_' && s[6] == '_' && (
    s.subrange(4, 6) == "K1"@ || s.subrange(4, 6) == "R1"@) {
        let curve: u8 = if s.subrange(4, 6) == "K1"@ {
            0
        } else {
            1
        };
        match ripemd160_check_decoded(s.subrange(7, s.len() as int), kind.told_size(), curve) {
            Some(bytes) => if bytes.len() == kind.payload() {
                Some(seq![curve] + bytes)
            } else {
                None
            },
            None => None,
        }
    } else if kind == Keyed::PublicKey && s.len() > 50 && !(s.len() >= 4 && s.subrange(0, 4)
        == "PUB_"@) {
        match ripemd160_check_decoded(s.subrange(s.len() - 50, s.len() as int), 32, 2) {
            Some(bytes) => if bytes.len() == 33 {
                Some(seq![0u8] + bytes)
            } else {
                None
            },
            None => None,
        }
    } else {
        None
    }
}

/// The binary form of the key or signature that `s` is the text of, if it
/// is one.
pub fn parse_keyed(kind: Keyed, s: &str) -> (r: Option<Vec<u8>>)
    ensures
        match r {
            Some(bytes) => parse_keyed_spec(kind, s@) == Some(bytes@),
            None => parse_keyed_spec(kind, s@).is_none(),
        },
{
    if !s.is_ascii() {
        return None;
    }
    let n: usize = s.unicode_len();
    let prefix: &str = match kind {
        Keyed::PublicKey => "PUB",
        Keyed::Signature => "SIG",
    };
    let (told, payload): (usize, usize) = match kind {
        Keyed::PublicKey => (32, 33),
        Keyed::Signature => (65, 65),
    };
    if n >= 7 && crate::text::str_eq(s.substring_ascii(0, 3), prefix) && s.get_char(3) == '_'
        && s.get_char(6) == '_' && (crate::text::str_eq(s.substring_ascii(4, 6), "K1")
        || crate::text::str_eq(s.substring_ascii(4, 6), "R1")) {
        let curve: Curve = if crate::text::str_eq(s.substring_ascii(4, 6), "K1") {
            Curve::K1
        } else {
            Curve::R1
        };
        match ripemd160_check_decode(s.substring_ascii(7, n), told, Some(curve)) {
            Some(bytes) => {
                if bytes.len() == payload {
                    let mut out: Vec<u8> = Vec::new();
                    let first: u8 = match curve {
                        Curve::K1 => 0,
                        Curve::R1 => 1,
                    };
                    out.push(first);
                    let mut rest: Vec<u8> = bytes;
                    out.append(&mut rest);
                    assert(out@ =~= seq![first] + bytes@);
                    Some(out)
                } else {
                    None
                }
            },
            None => None,
        }
    } else if kind == Keyed::PublicKey && n > 50 && !(n >= 4 && crate::text::str_eq(
        s.substring_ascii(0, 4),
        "PUB_",
    )) {
        match ripemd160_check_decode(s.substring_ascii(n - 50, n), 32, None) {
            Some(bytes) => {
                if bytes.len() == 33 {
                    let mut out: Vec<u8> = Vec::new();
                    out.push(0u8);
                    let mut rest: Vec<u8> = bytes;
                    out.append(&mut rest);
                    assert(out@ =~= seq![0u8] + bytes@);
                    Some(out)
                } else {
                    None
                }
            },
            None => None,
        }
    } else {
        None
    }
}

/// The text of the key or signature with the binary form `data`: the kind,
/// the curve and the bytes with their checksum in base 58. There is none
/// where the byte of the curve is neither 0 nor 1.
pub open spec fn keyed_text_spec(kind: Keyed, data: Seq<u8>) -> Option<Seq<char>> {
    if data.len() >= 1 && data[0] <= 1 {
        Some(
            kind.prefix() + "_"@ + curve_suffix(data[0]) + "_"@ + ripemd160_check_text(
                data.subrange(1, data.len() as int),
                curve_suffix(data[0]),
            ),
        )
    } else {
        None
    }
}

/// The text of the key or signature with the binary form `data`, if its
/// curve is known.
pub fn keyed_text(kind: Keyed, data: &[u8]) -> (r: Option<String>)
    ensures
        match r {
            Some(text) => keyed_text_spec(kind, data@) == Some(text@),
            None => keyed_text_spec(kind, data@).is_none(),
        },
{
    if data.len() < 1 || data[0] > 1 {
        return None;
    }
    let suffix: &str = if data[0] == 0 {
        "K1"
    } else {
        "R1"
    };
    let prefix: &str = match kind {
        Keyed::PublicKey => "PUB",
        Keyed::Signature => "SIG",
    };
    let body: String = ripemd160_check_encode(slice_subrange(data, 1, data.len()), suffix);
    let mut text: String = String::from_str(prefix);
    text.append("_");
    text.append(suffix);
    text.append("_");
    text.append(body.as_str());
    Some(text)
}

/// The binary form of the extended asset that `s` is the text of: the text
/// of an asset, `@` and the name of the contract.
pub open spec fn parse_extended_asset_spec(s: Seq<char>) -> Option<(i64, u64, u64)> {
    if !is_ascii_chars(s) {
        None
    } else {
        match first_byte(ascii_bytes(s), 64) {
            None => None,
            Some(at) => match (
                parse_asset_spec(s.subrange(0, at)),
                parse_name_spec(s.subrange(at + 1, s.len() as int)),
            ) {
                (Some(asset), Some(contract)) => Some((asset.0, asset.1, contract)),
                _ => None,
            },
        }
    }
}

/// The amount, the symbol and the contract of the extended asset that `s`
/// is the text of, if it is one.
pub fn parse_extended_asset(s: &str) -> (r: Option<(i64, u64, u64)>)
    ensures
        r == parse_extended_asset_spec(s@),
{
    let bytes: &[u8] = match ascii_of(s) {
        None => {
            return None;
        },
        Some(b) => b,
    };
    let n: usize = bytes.len();
    match find_byte(bytes, 64) {
        None => None,
        Some(at) => {
            let asset = parse_asset(s.substring_ascii(0, at));
            let contract = parse_name(s.substring_ascii(at + 1, n));
            match (asset, contract) {
                (Some(a), Some(c)) => Some((a.0, a.1, c)),
                _ => None,
            }
        },
    }
}

/// The number of the symbol with the code `code` and the precision
/// `precision`, if `code` is the text of a symbol code.
pub open spec fn symbol_of_spec(code: Seq<char>, precision: u8) -> Option<u64> {
    if code_text_ok(code) {
        Some(symbol_from_parts(code, precision))
    } else {
        None
    }
}

/// The number of the symbol with the code `code` and the precision
/// `precision`, if `code` is the text of a symbol code.
pub fn symbol_of(code: &str, precision: u8) -> (r: Option<u64>)
    ensures
        r == symbol_of_spec(code@, precision),
{
    match ascii_of(code) {
        None => None,
        Some(bytes) => {
            if check_code_bytes(bytes) {
                Some(symbol_value(code, precision))
            } else {
                None
            }
        },
    }
}

/// The eight bytes are `k` upper-case letters and zeros after them.
pub open spec fn letters_then_zeros(b: Seq<u8>, k: int) -> bool {
    b.len() == 8 && 1 <= k <= 7 && (forall|i: int| 0 <= i < k ==> is_upper(#[trigger] b[i]))
        && (forall|i: int| k <= i < 8 ==> #[trigger] b[i] == 0)
}

/// Whether a number is that of a symbol code: from one to seven upper-case
/// letters in its low bytes and nothing above them.
pub open spec fn is_symbol_code(value: u64) -> bool {
    exists|k: int| letters_then_zeros(le_bytes(value as nat, 8), k)
}

/// Number of letters of the symbol code with the number `value`.
pub open spec fn symbol_code_len(value: u64) -> int {
    choose|k: int| letters_then_zeros(le_bytes(value as nat, 8), k)
}

/// `antelope::chain::asset::is_valid_symbol_code`: whether `value` is the
/// number of a symbol code, that is, holds from one to seven upper-case
/// letters in its low bytes and zeros in all bytes above them.
#[verifier::external_body]
pub(crate) fn symbol_code_valid(value: u64) -> (r: bool)
    ensures
        r == is_symbol_code(value),
{
    antelope::chain::asset::is_valid_symbol_code(value)
}

/// The text of the symbol code with the number `value`: its letters, the
/// least significant byte first.
pub open spec fn text_of_symbol_code(value: u64) -> Seq<char> {
    Seq::new(symbol_code_len(value) as nat, |i: int| le_bytes(value as nat, 8)[i] as char)
}

/// `antelope::chain::asset::SymbolCode::as_string`: the letters of the
/// symbol code with the number `value`, which are its bytes up to the
/// first zero, the least significant first. It panics on a number that is
/// no symbol code, which is left out.
#[verifier::external_body]
fn symbol_code_letters(value: u64) -> (r: String)
    requires
        is_symbol_code(value),
    ensures
        r@ == text_of_symbol_code(value),
{
    antelope::chain::asset::SymbolCode { value }.as_string()
}

/// The text of the symbol code with the number `value`, if it is one.
pub open spec fn symbol_code_text_spec(value: u64) -> Option<Seq<char>> {
    if is_symbol_code(value) {
        Some(text_of_symbol_code(value))
    } else {
        None
    }
}

/// The text of the symbol code with the number `value`, if it is one.
pub fn symbol_code_text(value: u64) -> (r: Option<String>)
    ensures
        match r {
            Some(text) => symbol_code_text_spec(value) == Some(text@),
            None => symbol_code_text_spec(value).is_none(),
        },
{
    if symbol_code_valid(value) {
        Some(symbol_code_letters(value))
    } else {
        None
    }
}

/// The text of the asset of `amount` units of the symbol with the code
/// `code` and the precision `precision`.
pub uninterp spec fn text_of_asset(amount: i64, code: Seq<char>, precision: u8) -> Seq<char>;

/// `antelope::chain::asset::Asset::as_string` of the asset that
/// `antelope::chain::asset::Asset::new` and
/// `antelope::chain::asset::Symbol::new` make of the arguments. They panic
/// on a code that is not from one to six upper-case letters and on an
/// amount beyond `MAX_AMOUNT`, and the text of an amount below zero is not
/// defined: all left out.
#[verifier::external_body]
fn asset_letters(amount: i64, code: &str, precision: u8) -> (r: String)
    requires
        code_text_ok(code@),
        0 <= amount <= MAX_AMOUNT,
    ensures
        r@ == text_of_asset(amount, code@, precision),
{
    let symbol = antelope::chain::asset::Symbol::new(code, precision);
    antelope::chain::asset::Asset::new(amount, symbol).as_string()
}

/// The text of the asset of `amount` units of the symbol `symbol`: a minus
/// sign for an amount below zero, then the text of the amount without its
/// sign. There is none where the amount is beyond `MAX_AMOUNT` or the code
/// of the symbol is not from one to six upper-case letters.
pub open spec fn asset_text_spec(amount: i64, symbol: u64) -> Option<Seq<char>> {
    let code = (symbol / 256) as u64;
    let precision = (symbol % 256) as u8;
    if -(MAX_AMOUNT as int) <= amount <= MAX_AMOUNT && is_symbol_code(code) && code_text_ok(
        text_of_symbol_code(code),
    ) {
        if amount < 0 {
            Some("-"@ + text_of_asset((-amount) as i64, text_of_symbol_code(code), precision))
        } else {
            Some(text_of_asset(amount, text_of_symbol_code(code), precision))
        }
    } else {
        None
    }
}

/// The text of the asset of `amount` units of the symbol `symbol`.
pub fn asset_text(amount: i64, symbol: u64) -> (r: Option<String>)
    ensures
        match r {
            Some(text) => asset_text_spec(amount, symbol) == Some(text@),
            None => asset_text_spec(amount, symbol).is_none(),
        },
{
    let code: u64 = symbol / 256;
    let precision: u8 = (symbol % 256) as u8;
    if amount < -(MAX_AMOUNT as i64) || amount > MAX_AMOUNT as i64 {
        return None;
    }
    let letters: String = match symbol_code_text(code) {
        None => {
            return None;
        },
        Some(l) => l,
    };
    let fits: bool = match ascii_of(letters.as_str()) {
        None => false,
        Some(bytes) => check_code_bytes(bytes),
    };
    if !fits {
        return None;
    }
    if amount < 0 {
        let body: String = asset_letters(-amount, letters.as_str(), precision);
        let mut text: String = String::from_str("-");
        text.append(body.as_str());
        Some(text)
    } else {
        Some(asset_letters(amount, letters.as_str(), precision))
    }
}

} // verus!
