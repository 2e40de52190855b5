//! The byte layouts of the wire format: little-endian integers of fixed
//! width and the variable-length unsigned integer.
use vstd::prelude::*;

verus! {

/// 256 to the power `w`: the number of values that `w` bytes can hold.
pub open spec fn pow256(w: nat) -> nat
    decreases w,
{
    if w == 0 {
        1
    } else {
        256 * pow256((w - 1) as nat)
    }
}

/// The `w` bytes of `v`, least significant first.
pub open spec fn le_bytes(v: nat, w: nat) -> Seq<u8>
    decreases w,
{
    if w == 0 {
        Seq::empty()
    } else {
        seq![(v % 256) as u8] + le_bytes(v / 256, (w - 1) as nat)
    }
}

/// The number that the bytes `b` hold, least significant first.
pub open spec fn le_value(b: Seq<u8>) -> nat
    decreases b.len(),
{
    if b.len() == 0 {
        0
    } else {
        b[0] as nat + 256 * le_value(b.drop_first())
    }
}

/// The unsigned number with the same `w` bytes as `v` in two's complement.
pub open spec fn to_unsigned(v: int, w: nat) -> nat {
    if v < 0 {
        (v + pow256(w)) as nat
    } else {
        v as nat
    }
}

/// The signed number with the same `w` bytes as `u` in two's complement.
pub open spec fn to_signed(u: nat, w: nat) -> int {
    if 2 * u >= pow256(w) {
        u - pow256(w)
    } else {
        u as int
    }
}

/// The variable-length form of `n`: seven bits to a byte, least significant
/// first, the high bit set on every byte but the last.
pub open spec fn varuint_bytes(n: nat) -> Seq<u8>
    decreases n,
{
    if n < 128 {
        seq![n as u8]
    } else {
        seq![(n % 128 + 128) as u8] + varuint_bytes(n / 128)
    }
}

/// Whether the byte continues a variable-length integer.
pub open spec fn continues(b: u8) -> bool {
    b >= 128
}

/// Number of bytes of the variable-length integer at the start of `b`: the
/// position after the first of the leading five bytes that does not
/// continue. `None` where there is none.
pub open spec fn varuint_len(b: Seq<u8>) -> Option<nat> {
    if b.len() >= 1 && !continues(b[0]) {
        Some(1)
    } else if b.len() >= 2 && !continues(b[1]) {
        Some(2)
    } else if b.len() >= 3 && !continues(b[2]) {
        Some(3)
    } else if b.len() >= 4 && !continues(b[3]) {
        Some(4)
    } else if b.len() >= 5 && !continues(b[4]) {
        Some(5)
    } else {
        None
    }
}

/// The sum of the low seven bits of the first `k` bytes of `b`, each group
/// weighted by its position.
pub open spec fn varuint_sum(b: Seq<u8>, k: nat) -> nat
    decreases k,
{
    if k == 0 || b.len() == 0 {
        0
    } else {
        (b[0] % 128) as nat + 128 * varuint_sum(b.drop_first(), (k - 1) as nat)
    }
}

/// The 32-bit number that the variable-length integer of `k` bytes at the
/// start of `b` holds. Bits beyond the 32nd are dropped.
pub open spec fn varuint_value(b: Seq<u8>, k: nat) -> nat {
    varuint_sum(b, k) % 0x1_0000_0000
}

pub proof fn lemma_pow256()
    ensures
        pow256(1) == 0x100,
        pow256(2) == 0x1_0000,
        pow256(4) == 0x1_0000_0000,
        pow256(8) == 0x1_0000_0000_0000_0000,
        pow256(16) == 0x1_0000_0000_0000_0000_0000_0000_0000_0000,
{
    reveal_with_fuel(pow256, 17);
}

/// The bits of a signed byte.
pub fn i8_bits(v: i8) -> (u: u8)
    ensures
        u == to_unsigned(v as int, 1),
{
    proof {
        lemma_pow256();
    }
    if v >= 0 {
        v as u8
    } else {
        (v + 127 + 1) as u8 + 128
    }
}

/// The bits of a signed 16-bit number.
pub fn i16_bits(v: i16) -> (u: u16)
    ensures
        u == to_unsigned(v as int, 2),
{
    proof {
        lemma_pow256();
    }
    if v >= 0 {
        v as u16
    } else {
        (v + 0x7fff + 1) as u16 + 0x8000
    }
}

/// The bits of a signed 32-bit number.
pub fn i32_bits(v: i32) -> (u: u32)
    ensures
        u == to_unsigned(v as int, 4),
{
    proof {
        lemma_pow256();
    }
    if v >= 0 {
        v as u32
    } else {
        (v + 0x7fff_ffff + 1) as u32 + 0x8000_0000
    }
}

/// The bits of a signed 64-bit number.
pub fn i64_bits(v: i64) -> (u: u64)
    ensures
        u == to_unsigned(v as int, 8),
{
    proof {
        lemma_pow256();
    }
    if v >= 0 {
        v as u64
    } else {
        (v + 0x7fff_ffff_ffff_ffff + 1) as u64 + 0x8000_0000_0000_0000
    }
}

/// The bits of a signed 128-bit number.
pub fn i128_bits(v: i128) -> (u: u128)
    ensures
        u == to_unsigned(v as int, 16),
{
    proof {
        lemma_pow256();
    }
    if v >= 0 {
        v as u128
    } else {
        (v + 0x7fff_ffff_ffff_ffff_ffff_ffff_ffff_ffff + 1) as u128
            + 0x8000_0000_0000_0000_0000_0000_0000_0000
    }
}

/// The signed byte with the bits `u`.
pub fn i8_from_bits(u: u8) -> (v: i8)
    ensures
        v == to_signed(u as nat, 1),
{
    proof {
        lemma_pow256();
    }
    if u < 128 {
        u as i8
    } else {
        (u - 128) as i8 - 127 - 1
    }
}

/// The signed 16-bit number with the bits `u`.
pub fn i16_from_bits(u: u16) -> (v: i16)
    ensures
        v == to_signed(u as nat, 2),
{
    proof {
        lemma_pow256();
    }
    if u < 0x8000 {
        u as i16
    } else {
        (u - 0x8000) as i16 - 0x7fff - 1
    }
}

/// The signed 32-bit number with the bits `u`.
pub fn i32_from_bits(u: u32) -> (v: i32)
    ensures
        v == to_signed(u as nat, 4),
{
    proof {
        lemma_pow256();
    }
    if u < 0x8000_0000 {
        u as i32
    } else {
        (u - 0x8000_0000) as i32 - 0x7fff_ffff - 1
    }
}

/// The signed 64-bit number with the bits `u`.
pub fn i64_from_bits(u: u64) -> (v: i64)
    ensures
        v == to_signed(u as nat, 8),
{
    proof {
        lemma_pow256();
    }
    if u < 0x8000_0000_0000_0000 {
        u as i64
    } else {
        (u - 0x8000_0000_0000_0000) as i64 - 0x7fff_ffff_ffff_ffff - 1
    }
}

/// The signed 128-bit number with the bits `u`.
pub fn i128_from_bits(u: u128) -> (v: i128)
    ensures
        v == to_signed(u as nat, 16),
{
    proof {
        lemma_pow256();
    }
    if u < 0x8000_0000_0000_0000_0000_0000_0000_0000 {
        u as i128
    } else {
        (u - 0x8000_0000_0000_0000_0000_0000_0000_0000) as i128
            - 0x7fff_ffff_ffff_ffff_ffff_ffff_ffff_ffff - 1
    }
}

/// `w` bytes hold `w` bytes, and the number read back from the bytes of a
/// number that fits is that number.
pub proof fn lemma_le_bytes_value(v: nat, w: nat)
    ensures
        le_bytes(v, w).len() == w,
        v < pow256(w) ==> le_value(le_bytes(v, w)) == v,
    decreases w,
{
    if w > 0 {
        lemma_le_bytes_value(v / 256, (w - 1) as nat);
        let b = le_bytes(v, w);
        assert(b.drop_first() =~= le_bytes(v / 256, (w - 1) as nat));
        if v < pow256(w) {
            assert(v / 256 < pow256((w - 1) as nat));
        }
    }
}

/// The number that bytes hold fits their count, and its bytes are those
/// bytes.
pub proof fn lemma_le_value_bytes(b: Seq<u8>)
    ensures
        le_value(b) < pow256(b.len()),
        le_bytes(le_value(b), b.len()) == b,
    decreases b.len(),
{
    if b.len() > 0 {
        lemma_le_value_bytes(b.drop_first());
        let v = le_value(b);
        let rest = le_value(b.drop_first());
        assert(v == b[0] as nat + 256 * rest);
        assert(v % 256 == b[0] as nat);
        assert(v / 256 == rest);
        assert(le_bytes(v, b.len()) =~= b);
    } else {
        assert(le_bytes(le_value(b), 0) =~= b);
    }
}

/// Two's complement there and back, for a number that `w` bytes can hold
/// with a sign.
pub proof fn lemma_signed_unsigned(v: int, w: nat)
    requires
        w > 0,
        -(pow256(w) as int) <= 2 * v < pow256(w),
    ensures
        to_unsigned(v, w) < pow256(w),
        to_signed(to_unsigned(v, w), w) == v,
{
}

/// Two's complement back and there, for a number that `w` bytes can hold.
pub proof fn lemma_unsigned_signed(u: nat, w: nat)
    requires
        w > 0,
        u < pow256(w),
    ensures
        -(pow256(w) as int) <= 2 * to_signed(u, w) < pow256(w),
        to_unsigned(to_signed(u, w), w) == u,
{
}

/// The variable-length form of a 32-bit number reads back as that number:
/// input that starts with it holds a number of as many bytes, of that value.
pub proof fn lemma_varuint_round_trip(n: nat, rest: Seq<u8>)
    requires
        n <= u32::MAX,
        varuint_bytes(n).len() <= rest.len(),
        rest.subrange(0, varuint_bytes(n).len() as int) == varuint_bytes(n),
    ensures
        1 <= varuint_bytes(n).len() <= 5,
        varuint_len(rest) == Some(varuint_bytes(n).len()),
        varuint_value(rest, varuint_bytes(n).len()) == n,
{
    reveal_with_fuel(varuint_bytes, 6);
    reveal_with_fuel(varuint_sum, 6);
    let b = varuint_bytes(n);
    let k = b.len();
    assert forall|i: int| 0 <= i < k implies rest[i] == b[i] by {
        assert(rest.subrange(0, k as int)[i] == rest[i]);
    }
    let r1 = rest.drop_first();
    let r2 = r1.drop_first();
    let r3 = r2.drop_first();
    let r4 = r3.drop_first();
    if n < 128 {
    } else if n < 128 * 128 {
        assert(b =~= seq![(n % 128 + 128) as u8, (n / 128) as u8]);
        assert(r1[0] == rest[1]);
    } else if n < 128 * 128 * 128 {
        assert(b =~= seq![
            (n % 128 + 128) as u8,
            (n / 128 % 128 + 128) as u8,
            (n / 128 / 128) as u8,
        ]);
        assert(r1[0] == rest[1]);
        assert(r2[0] == rest[2]);
    } else if n < 128 * 128 * 128 * 128 {
        assert(b =~= seq![
            (n % 128 + 128) as u8,
            (n / 128 % 128 + 128) as u8,
            (n / 128 / 128 % 128 + 128) as u8,
            (n / 128 / 128 / 128) as u8,
        ]);
        assert(r1[0] == rest[1]);
        assert(r2[0] == rest[2]);
        assert(r3[0] == rest[3]);
    } else {
        assert(b =~= seq![
            (n % 128 + 128) as u8,
            (n / 128 % 128 + 128) as u8,
            (n / 128 / 128 % 128 + 128) as u8,
            (n / 128 / 128 / 128 % 128 + 128) as u8,
            (n / 128 / 128 / 128 / 128) as u8,
        ]);
        assert(r1[0] == rest[1]);
        assert(r2[0] == rest[2]);
        assert(r3[0] == rest[3]);
        assert(r4[0] == rest[4]);
    }
}

} // verus!
