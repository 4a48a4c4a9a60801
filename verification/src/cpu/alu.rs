use vstd::prelude::*;
use crate::cpu::registers::{flag_of, with_flag, znhc, law_flag_roundtrip};

verus! {

/// The carry that enters an addition or subtraction: 1 when `usec` is true
/// and the carry flag of `f` is set.
pub open spec fn carry_in(f: u8, usec: bool) -> int {
    if usec && flag_of(f, 4) {
        1
    } else {
        0
    }
}

/// `a + b + c` modulo 256 and the flags it leaves: zero, half carry out of
/// bit 3, carry out of bit 7.
pub open spec fn add8(a: u8, b: u8, c: int, f: u8) -> (u8, u8) {
    let sum = a + b + c;
    ((sum % 256) as u8, znhc(f, sum % 256 == 0, false, a % 16 + b % 16 + c > 15, sum > 255))
}

/// `a - b - c` modulo 256 and the flags it leaves: zero, subtract, borrow
/// from bit 4, borrow.
pub open spec fn sub8(a: u8, b: u8, c: int, f: u8) -> (u8, u8) {
    let r = ((a + 256 - b - c) % 256) as u8;
    (r, znhc(f, r == 0, true, a % 16 < b % 16 + c, a < b + c))
}

/// The flags of a logical operation with result `r`.
pub open spec fn logic_flags(f: u8, r: u8, h: bool) -> u8 {
    znhc(f, r == 0, false, h, false)
}

/// The flags of a rotation or shift with result `r` and carry out `c`.
pub open spec fn shift_flags(f: u8, r: u8, c: bool) -> u8 {
    znhc(f, r == 0, false, false, c)
}

/// `a` rotated left by one bit: bit 7 goes to bit 0.
pub open spec fn rotate_left(a: u8) -> u8 {
    ((a * 2) % 256 + a / 128) as u8
}

/// `a` rotated right by one bit: bit 0 goes to bit 7.
pub open spec fn rotate_right(a: u8) -> u8 {
    (a / 2 + (a % 2) * 128) as u8
}

/// `a` shifted left by one bit.
pub open spec fn shift_left(a: u8) -> u8 {
    ((a * 2) % 256) as u8
}

/// `a` shifted right by one bit, bit 7 kept.
pub open spec fn shift_right_arith(a: u8) -> u8 {
    (a / 2 + (if a >= 128 { 128int } else { 0 })) as u8
}

/// `a` shifted right by one bit, 0 into bit 7.
pub open spec fn shift_right(a: u8) -> u8 {
    (a / 2) as u8
}

/// `a` with its two halves exchanged.
pub open spec fn swap_nibbles(a: u8) -> u8 {
    ((a % 16) * 16 + a / 16) as u8
}

/// `v + 1` modulo 256 and its flags; the carry flag is kept.
pub open spec fn inc8(f: u8, v: u8) -> (u8, u8) {
    let r = ((v + 1) % 256) as u8;
    (r, znhc(f, r == 0, false, v % 16 + 1 > 15, flag_of(f, 4)))
}

/// `v - 1` modulo 256 and its flags; the carry flag is kept.
pub open spec fn dec8(f: u8, v: u8) -> (u8, u8) {
    let r = ((v + 255) % 256) as u8;
    (r, znhc(f, r == 0, true, v % 16 == 0, flag_of(f, 4)))
}

/// `a + b` modulo 65536 and its flags: half carry out of the low eleven
/// bits, carry out of bit 15; the zero flag is kept.
pub open spec fn add16(a: u16, b: u16, f: u8) -> (u16, u8) {
    (((a + b) % 65536) as u16, znhc(f, flag_of(f, 7), false, a % 2048 + b % 2048 > 2047, a + b > 65535))
}

/// The 16-bit value of the signed byte `b`.
pub open spec fn sign_extend(b: u8) -> u16 {
    if b < 128 {
        b as u16
    } else {
        (b + 0xff00) as u16
    }
}

/// `a` plus the signed byte `b`, and the flags: carries out of bits 3 and 7
/// of the low byte.
pub open spec fn add16_signed(a: u16, b: u8, f: u8) -> (u16, u8) {
    let e = sign_extend(b);
    (((a + e) % 65536) as u16, znhc(f, false, false, a % 16 + e % 16 > 15, a % 256 + e % 256 > 255))
}

/// The value of the program counter after a relative jump by the signed
/// byte `b` from `pc`.
pub open spec fn relative(pc: u16, b: u8) -> u16 {
    ((pc + (if b < 128 { b as int } else { b - 256 })) % 65536) as u16
}

/// Decimal adjustment of `a` after a BCD addition or subtraction.
pub open spec fn daa8(a: u8, f: u8) -> (u8, u8) {
    let c = flag_of(f, 4);
    let h = flag_of(f, 5);
    let n = flag_of(f, 6);
    if !n {
        let corr = (if h || a % 16 > 9 { 6int } else { 0 }) + (if c || a > 0x99 { 0x60int } else { 0 });
        let r = ((a + corr) % 256) as u8;
        (r, znhc(f, r == 0, n, false, c || a > 0x99))
    } else if c {
        let r = ((a + (if h { 0x9aint } else { 0xa0 })) % 256) as u8;
        (r, znhc(f, r == 0, n, false, true))
    } else if h {
        let r = ((a + 0xfa) % 256) as u8;
        (r, znhc(f, r == 0, n, false, c))
    } else {
        (a, znhc(f, a == 0, n, false, c))
    }
}

/// The flags after a test of bit `b` of `a`: zero when the bit is clear.
pub open spec fn bit_flags(f: u8, a: u8, b: u8) -> u8 {
    znhc(f, !flag_of(a, b), false, true, flag_of(f, 4))
}

/// Facts about byte operations used by the arithmetic and logic unit.
pub proof fn lemma_u8_ops()
    ensures
        forall|a: u8| #[trigger] (a & 0xf) == a % 16,
        forall|a: u8| (#[trigger] (a & 0x80) == 0x80) == (a >= 128),
        forall|a: u8| (#[trigger] (a & 0x01) == 0x01) == (a % 2 == 1),
        forall|a: u8| #[trigger] ((a << 1i32) | 1u8) == (a * 2) % 256 + 1,
        forall|a: u8| #[trigger] ((a << 1i32) | 0u8) == (a * 2) % 256,
        forall|a: u8| #[trigger] (a << 1i32) == (a * 2) % 256,
        forall|a: u8| #[trigger] ((a >> 1i32) | 0x80u8) == a / 2 + 128,
        forall|a: u8| #[trigger] ((a >> 1i32) | 0u8) == a / 2,
        forall|a: u8| #[trigger] (a >> 1i32) == a / 2,
        forall|a: u8| #[trigger] ((a >> 1i32) | (a & 0x80)) == a / 2 + (if a >= 128 { 128int } else { 0 }),
        forall|a: u8| #[trigger] (((a & 0x0F) << 4i32) | (a >> 4i32)) == (a % 16) * 16 + a / 16,
        forall|a: u8| #[trigger] !a == 255 - a,
{
    assert((forall|a: u8| #[trigger] (a & 0xf) == a % 16)
        && (forall|a: u8| (#[trigger] (a & 0x80) == 0x80) == (a >= 128))
        && (forall|a: u8| (#[trigger] (a & 0x01) == 0x01) == (a % 2 == 1))
        && (forall|a: u8| #[trigger] ((a << 1i32) | 1u8) == (a * 2) % 256 + 1)
        && (forall|a: u8| #[trigger] ((a << 1i32) | 0u8) == (a * 2) % 256)
        && (forall|a: u8| #[trigger] (a << 1i32) == (a * 2) % 256)
        && (forall|a: u8| #[trigger] ((a >> 1i32) | 0x80u8) == a / 2 + 128)
        && (forall|a: u8| #[trigger] ((a >> 1i32) | 0u8) == a / 2)
        && (forall|a: u8| #[trigger] (a >> 1i32) == a / 2)
        && (forall|a: u8| #[trigger] ((a >> 1i32) | (a & 0x80)) == a / 2 + (if a >= 128 { 128u8 } else { 0u8 }))
        && (forall|a: u8| #[trigger] (((a & 0x0F) << 4i32) | (a >> 4i32)) == (a % 16) * 16 + a / 16)
        && (forall|a: u8| #[trigger] !a == 255 - a)) by (bit_vector);
}

/// Incrementing and decrementing a 16-bit value wraps around modulo 65536.
pub proof fn lemma_wrap16(x: u16)
    ensures
        x.wrapping_add(1) == ((x + 1) % 65536) as u16,
        x.wrapping_sub(1) == ((x + 65535) % 65536) as u16,
{
}

/// Adding two bytes wraps around modulo 256.
pub proof fn lemma_wrap8(x: u8, y: u8)
    ensures
        x.wrapping_add(y) == ((x + y) % 256) as u8,
{
}

/// Rotating left and then right, or right and then left, gives the byte back.
pub proof fn law_rotate_inverse(a: u8)
    ensures
        rotate_right(rotate_left(a)) == a,
        rotate_left(rotate_right(a)) == a,
{
}

/// Exchanging the halves of a byte twice gives the byte back.
pub proof fn law_swap_twice(a: u8)
    ensures
        swap_nibbles(swap_nibbles(a)) == a,
{
}

/// Decrementing undoes incrementing and incrementing undoes decrementing,
/// whatever the flags; neither touches the carry flag.
pub proof fn law_inc_dec(f: u8, g: u8, v: u8)
    ensures
        dec8(g, inc8(f, v).0).0 == v,
        inc8(g, dec8(f, v).0).0 == v,
        flag_of(inc8(f, v).1, 4) == flag_of(f, 4),
        flag_of(dec8(f, v).1, 4) == flag_of(f, 4),
{
    let r1 = ((v + 1) % 256) as u8;
    let r2 = ((v + 255) % 256) as u8;
    law_flag_roundtrip(with_flag(with_flag(with_flag(f, 7, r1 == 0), 6, false), 5, v % 16 + 1 > 15), 4, flag_of(f, 4));
    law_flag_roundtrip(with_flag(with_flag(with_flag(f, 7, r2 == 0), 6, true), 5, v % 16 == 0), 4, flag_of(f, 4));
}

/// Subtracting `b` undoes adding it, and adding undoes subtracting, both
/// without carry.
pub proof fn law_add_sub(a: u8, b: u8, f: u8, g: u8)
    ensures
        sub8(add8(a, b, 0, f).0, b, 0, g).0 == a,
        add8(sub8(a, b, 0, f).0, b, 0, g).0 == a,
{
    let s1 = ((a + b) % 256) as u8;
    if a + b < 256 {
        assert(s1 == a + b);
    } else {
        assert(s1 == a + b - 256);
    }
    assert(add8(a, b, 0, f).0 == s1);
    let d1 = ((a + 256 - b) % 256) as u8;
    if a >= b {
        assert(d1 == a - b);
    } else {
        assert(d1 == a + 256 - b);
    }
    assert(sub8(a, b, 0, f).0 == d1);
}

/// Whether `v` is a packed decimal byte: both halves are digits.
pub open spec fn is_bcd(v: u8) -> bool {
    v / 16 <= 9 && v % 16 <= 9
}

/// The number (0 to 99) that the packed decimal byte `v` stands for.
pub open spec fn bcd_value(v: u8) -> int {
    (v / 16) * 10 + v % 16
}

/// The packed decimal byte for the number `n` (0 to 99).
pub open spec fn bcd_of(n: int) -> u8 {
    ((n / 10) * 16 + n % 10) as u8
}

/// The flags that `znhc` writes read back as written.
pub proof fn lemma_znhc_flags(f: u8, z: bool, n: bool, h: bool, c: bool)
    ensures
        flag_of(znhc(f, z, n, h, c), 7) == z,
        flag_of(znhc(f, z, n, h, c), 6) == n,
        flag_of(znhc(f, z, n, h, c), 5) == h,
        flag_of(znhc(f, z, n, h, c), 4) == c,
{
    let f1 = with_flag(f, 7, z);
    let f2 = with_flag(f1, 6, n);
    let f3 = with_flag(f2, 5, h);
    law_flag_roundtrip(f, 7, z);
    law_flag_roundtrip(f1, 6, n);
    law_flag_roundtrip(f2, 5, h);
    law_flag_roundtrip(f3, 4, c);
}

/// The decimal correction of a sum whose tens digits add up to `hi` and
/// whose units digits add up to `lo` gives the packed decimal sum modulo
/// 100, and carries exactly when the sum reaches 100.
pub open spec fn daa_add_case(hi: int, lo: int) -> bool {
    let sum = 16 * hi + lo;
    let a = sum % 256;
    let c = sum > 255 || a > 0x99;
    let corr = (if lo > 15 || a % 16 > 9 { 6int } else { 0 }) + (if c { 0x60int } else { 0 });
    let d = (10 * hi + lo) % 100;
    &&& (a + corr) % 256 == (d / 10) * 16 + d % 10
    &&& c == (10 * hi + lo >= 100)
}

/// The decimal correction of a difference whose tens digits differ by `dh`
/// and whose units digits differ by `dl` gives the packed decimal
/// difference modulo 100, and borrows exactly when the difference is
/// negative.
pub open spec fn daa_sub_case(dh: int, dl: int) -> bool {
    let a = (16 * dh + dl + 256) % 256;
    let h = dl < 0;
    let c = 16 * dh + dl < 0;
    let r = if c {
        (a + (if h { 0x9aint } else { 0xa0 })) % 256
    } else if h {
        (a + 0xfa) % 256
    } else {
        a
    };
    let d = (10 * dh + dl + 100) % 100;
    &&& r == (d / 10) * 16 + d % 10
    &&& c == (10 * dh + dl < 0)
}

/// Every sum of two packed decimal bytes is corrected right.
proof fn lemma_daa_add_table(hi: int, lo: int)
    requires
        0 <= hi < 19,
        0 <= lo < 19,
    ensures
        daa_add_case(hi, lo),
{
    let sum = 16 * hi + lo;
    if lo <= 9 {
        if hi <= 9 {
            assert(sum % 256 == sum && sum % 16 == lo && sum <= 0x99);
            assert((10 * hi + lo) % 100 == 10 * hi + lo);
        } else if hi <= 15 {
            assert(sum % 256 == sum && sum % 16 == lo && sum > 0x99);
            assert((sum + 0x60) % 256 == 16 * (hi - 10) + lo);
            assert((10 * hi + lo) % 100 == 10 * (hi - 10) + lo);
        } else {
            assert(sum % 256 == 16 * (hi - 16) + lo && (sum - 256) % 16 == lo);
            assert((sum - 256 + 0x60) % 256 == 16 * (hi - 10) + lo);
            assert((10 * hi + lo) % 100 == 10 * (hi - 10) + lo);
        }
    } else if lo <= 15 {
        if hi <= 8 {
            assert(sum % 256 == sum && sum % 16 == lo && sum <= 0x99);
            assert((sum + 6) % 256 == 16 * (hi + 1) + lo - 10);
            assert((10 * hi + lo) % 100 == 10 * (hi + 1) + lo - 10);
        } else if hi <= 15 {
            assert(sum % 256 == sum && sum % 16 == lo && sum > 0x99);
            assert((sum + 0x66) % 256 == 16 * (hi - 9) + lo - 10);
            assert((10 * hi + lo) % 100 == 10 * (hi - 9) + lo - 10);
        } else {
            assert(sum % 256 == sum - 256 && (sum - 256) % 16 == lo);
            assert((sum - 256 + 0x66) % 256 == 16 * (hi - 9) + lo - 10);
            assert((10 * hi + lo) % 100 == 10 * (hi - 9) + lo - 10);
        }
    } else {
        if hi <= 8 {
            assert(sum % 256 == sum && sum % 16 == lo - 16 && sum <= 0x99);
            assert((sum + 6) % 256 == 16 * (hi + 1) + lo - 10);
            assert((10 * hi + lo) % 100 == 10 * (hi + 1) + lo - 10);
        } else if hi <= 14 {
            assert(sum % 256 == sum && sum % 16 == lo - 16 && sum > 0x99);
            assert((sum + 0x66) % 256 == 16 * (hi - 9) + lo - 10);
            assert((10 * hi + lo) % 100 == 10 * (hi - 9) + lo - 10);
        } else {
            assert(sum % 256 == sum - 256 && (sum - 256) % 16 == lo - 16);
            assert((sum - 256 + 0x66) % 256 == 16 * (hi - 9) + lo - 10);
            assert((10 * hi + lo) % 100 == 10 * (hi - 9) + lo - 10);
        }
    }
}

/// Every difference of two packed decimal bytes is corrected right.
proof fn lemma_daa_sub_table(dh: int, dl: int)
    requires
        -9 <= dh <= 9,
        -9 <= dl <= 9,
    ensures
        daa_sub_case(dh, dl),
{
    let diff = 16 * dh + dl;
    if diff < 0 {
        assert((diff + 256) % 256 == diff + 256);
    } else {
        assert((diff + 256) % 256 == diff);
    }
    if dh >= 0 && dl >= 0 {
        assert((10 * dh + dl + 100) % 100 == 10 * dh + dl);
    } else if dh >= 1 {
        assert((10 * dh + dl + 100) % 100 == 10 * (dh - 1) + dl + 10);
    } else if dh == 0 {
        assert((10 * dh + dl + 100) % 100 == 90 + dl + 10);
    } else if dl >= 0 {
        assert((10 * dh + dl + 100) % 100 == 10 * (dh + 10) + dl);
    } else {
        assert((10 * dh + dl + 100) % 100 == 10 * (dh + 9) + dl + 10);
    }
}

/// The decimal correction of the sum of two packed decimal bytes.
proof fn lemma_bcd_sum(x: u8, y: u8)
    requires
        is_bcd(x),
        is_bcd(y),
    ensures
        ({
            let sum = x + y;
            let a = sum % 256;
            let corr = (if x % 16 + y % 16 > 15 || a % 16 > 9 { 6int } else { 0 }) + (if sum > 255 || a > 0x99 {
                0x60int
            } else {
                0
            });
            &&& (a + corr) % 256 == bcd_of((bcd_value(x) + bcd_value(y)) % 100) as int
            &&& (sum > 255 || a > 0x99) == (bcd_value(x) + bcd_value(y) >= 100)
        }),
{
    let hi = x / 16 + y / 16;
    let lo = x % 16 + y % 16;
    assert(x + y == 16 * hi + lo);
    assert(bcd_value(x) + bcd_value(y) == 10 * hi + lo);
    lemma_daa_add_table(hi as int, lo as int);
}

/// The decimal correction of the difference of two packed decimal bytes.
proof fn lemma_bcd_difference(x: u8, y: u8)
    requires
        is_bcd(x),
        is_bcd(y),
    ensures
        ({
            let a = (x + 256 - y) % 256;
            let h = x % 16 < y % 16;
            let c = x < y;
            let r = if c {
                (a + (if h { 0x9aint } else { 0xa0 })) % 256
            } else if h {
                (a + 0xfa) % 256
            } else {
                a
            };
            &&& r == bcd_of((bcd_value(x) + 100 - bcd_value(y)) % 100) as int
            &&& c == (bcd_value(x) < bcd_value(y))
        }),
{
    let dh = x / 16 - y / 16;
    let dl = x % 16 - y % 16;
    assert(x - y == 16 * dh + dl);
    assert(bcd_value(x) - bcd_value(y) == 10 * dh + dl);
    lemma_daa_sub_table(dh, dl);
}

/// After the addition of two packed decimal bytes, the decimal adjustment
/// gives the packed decimal sum modulo 100, with the carry set exactly when
/// the sum reaches 100, the zero flag for a zero result and no half carry.
pub proof fn law_daa_add(x: u8, y: u8, f: u8)
    requires
        is_bcd(x),
        is_bcd(y),
    ensures
        daa8(add8(x, y, 0, f).0, add8(x, y, 0, f).1).0 == bcd_of((bcd_value(x) + bcd_value(y)) % 100),
        flag_of(daa8(add8(x, y, 0, f).0, add8(x, y, 0, f).1).1, 4) == (bcd_value(x) + bcd_value(y) >= 100),
        flag_of(daa8(add8(x, y, 0, f).0, add8(x, y, 0, f).1).1, 7) == (daa8(add8(x, y, 0, f).0, add8(x, y, 0, f).1).0 == 0),
        !flag_of(daa8(add8(x, y, 0, f).0, add8(x, y, 0, f).1).1, 5),
{
    let sum = x + y;
    let a = (sum % 256) as u8;
    let f1 = znhc(f, sum % 256 == 0, false, x % 16 + y % 16 > 15, sum > 255);
    assert(add8(x, y, 0, f) == (a, f1));
    lemma_znhc_flags(f, sum % 256 == 0, false, x % 16 + y % 16 > 15, sum > 255);
    lemma_bcd_sum(x, y);
    let c = sum > 255 || a > 0x99;
    let corr = (if x % 16 + y % 16 > 15 || a % 16 > 9 { 6int } else { 0 }) + (if c { 0x60int } else { 0 });
    let r = ((a + corr) % 256) as u8;
    assert(daa8(a, f1) == (r, znhc(f1, r == 0, false, false, c)));
    lemma_znhc_flags(f1, r == 0, false, false, c);
}

/// After the subtraction of two packed decimal bytes, the decimal
/// adjustment gives the packed decimal difference modulo 100, with the
/// carry set exactly when the second is larger, the zero flag for a zero
/// result and no half carry.
pub proof fn law_daa_sub(x: u8, y: u8, f: u8)
    requires
        is_bcd(x),
        is_bcd(y),
    ensures
        daa8(sub8(x, y, 0, f).0, sub8(x, y, 0, f).1).0 == bcd_of((bcd_value(x) + 100 - bcd_value(y)) % 100),
        flag_of(daa8(sub8(x, y, 0, f).0, sub8(x, y, 0, f).1).1, 4) == (bcd_value(x) < bcd_value(y)),
        flag_of(daa8(sub8(x, y, 0, f).0, sub8(x, y, 0, f).1).1, 7) == (daa8(sub8(x, y, 0, f).0, sub8(x, y, 0, f).1).0 == 0),
        !flag_of(daa8(sub8(x, y, 0, f).0, sub8(x, y, 0, f).1).1, 5),
{
    let a = ((x + 256 - y) % 256) as u8;
    let h = x % 16 < y % 16;
    let c = x < y;
    let f1 = znhc(f, a == 0, true, h, c);
    assert(sub8(x, y, 0, f) == (a, f1));
    lemma_znhc_flags(f, a == 0, true, h, c);
    lemma_bcd_difference(x, y);
    let r: u8 = if c {
        ((a + (if h { 0x9aint } else { 0xa0 })) % 256) as u8
    } else if h {
        ((a + 0xfa) % 256) as u8
    } else {
        a
    };
    assert(daa8(a, f1) == (r, znhc(f1, r == 0, true, false, c)));
    lemma_znhc_flags(f1, r == 0, true, false, c);
}

} // verus!
