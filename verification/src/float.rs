//! Binary64 floating-point numbers, held as their 64 bits.
//!
//! A pattern is read as a sign bit, an 11-bit exponent field and a 52-bit
//! fraction field. This module converts between such patterns and `i64`;
//! it does no floating-point arithmetic.

use vstd::arithmetic::power2::{lemma2_to64, lemma2_to64_rest, lemma_pow2_adds, lemma_pow2_pos, pow2};
use vstd::bits::{lemma_u64_shl_is_mul, lemma_u64_shr_is_div};
use vstd::std_specs::bits::{axiom_u64_leading_zeros, u64_leading_zeros};
use vstd::prelude::*;

verus! {

/// The sign bit of a pattern.
pub const SIGN_BIT: u64 = 0x8000_0000_0000_0000;

/// 2^52: the weight that the leading bit of a normal significand has beside
/// the fraction field.
pub const HIDDEN_BIT: u64 = 0x10_0000_0000_0000;

/// Whether the sign bit is set.
pub open spec fn is_negative(bits: u64) -> bool {
    bits >= SIGN_BIT
}

/// The exponent field, 0 to 2047.
pub open spec fn exponent_field(bits: u64) -> nat {
    ((bits / HIDDEN_BIT) % 2048) as nat
}

/// The fraction field, below 2^52.
pub open spec fn fraction_field(bits: u64) -> nat {
    (bits % HIDDEN_BIT) as nat
}

/// Whether the pattern is a NaN: all exponent bits set, fraction not zero.
pub open spec fn is_nan(bits: u64) -> bool {
    exponent_field(bits) == 2047 && fraction_field(bits) != 0
}

/// Whether the pattern is one of the two zeros.
pub open spec fn is_zero(bits: u64) -> bool {
    bits == 0 || bits == SIGN_BIT
}

/// Whether two patterns compare equal as numbers: neither is a NaN, and they
/// are the same pattern or both zeros.
pub open spec fn same_number(a: u64, b: u64) -> bool {
    !is_nan(a) && !is_nan(b) && (a == b || (is_zero(a) && is_zero(b)))
}

/// Compares two patterns as numbers: a NaN equals nothing, not even itself,
/// and the two zeros equal each other.
pub fn equal(a: u64, b: u64) -> (r: bool)
    ensures
        r == same_number(a, b),
{
    proof {
        lemma_fields(a);
        lemma_fields(b);
    }
    let a_nan = (a >> 52) & 0x7ff == 0x7ff && a & 0xf_ffff_ffff_ffff != 0;
    let b_nan = (b >> 52) & 0x7ff == 0x7ff && b & 0xf_ffff_ffff_ffff != 0;
    let a_zero = a == 0 || a == SIGN_BIT;
    let b_zero = b == 0 || b == SIGN_BIT;
    !a_nan && !b_nan && (a == b || (a_zero && b_zero))
}

/// The fields as the masks and shifts of the conversions find them.
proof fn lemma_fields(bits: u64)
    ensures
        (bits >> 52) & 0x7ff == exponent_field(bits),
        bits & 0xf_ffff_ffff_ffff == fraction_field(bits),
        (bits >> 63 == 1) == is_negative(bits),
        exponent_field(bits) < 2048,
        fraction_field(bits) < HIDDEN_BIT,
{
    assert((bits >> 52) & 0x7ff == (bits / 0x10_0000_0000_0000) % 2048) by (bit_vector);
    assert(bits & 0xf_ffff_ffff_ffff == bits % 0x10_0000_0000_0000) by (bit_vector);
    assert((bits >> 63 == 1) == (bits >= 0x8000_0000_0000_0000)) by (bit_vector);
}

/// The absolute value rounded down to a whole number.
///
/// A pattern with exponent field `e > 0` and fraction `f` stands for
/// `(2^52 + f) * 2^(e - 1075)`; with `e == 0` it stands for less than one.
/// An infinity is read as the power of two that its fields spell, which is
/// beyond every `i64`.
pub open spec fn whole_magnitude(bits: u64) -> nat {
    let e = exponent_field(bits);
    let m = HIDDEN_BIT as nat + fraction_field(bits);
    if e == 0 {
        0
    } else if e >= 1075 {
        m * pow2((e - 1075) as nat)
    } else {
        m / pow2((1075 - e) as nat)
    }
}

/// The `i64` that a pattern converts to: zero for a NaN, otherwise the value
/// rounded toward zero and then brought into the range of `i64`.
pub open spec fn truncated(bits: u64) -> int {
    if is_nan(bits) {
        0
    } else {
        let m = whole_magnitude(bits) as int;
        let v = if is_negative(bits) { -m } else { m };
        if v < i64::MIN {
            i64::MIN as int
        } else if v > i64::MAX {
            i64::MAX as int
        } else {
            v
        }
    }
}

/// Converts a pattern to `i64`, rounding toward zero; out-of-range values go
/// to the nearest end of the range and a NaN goes to zero.
pub fn to_i64(bits: u64) -> (r: i64)
    ensures
        r == truncated(bits),
{
    proof {
        lemma_fields(bits);
        lemma2_to64();
        lemma2_to64_rest();
    }
    let e: u64 = (bits >> 52) & 0x7ff;
    let f: u64 = bits & 0xf_ffff_ffff_ffff;
    let negative = bits >> 63 == 1;
    let m: u64 = HIDDEN_BIT + f;
    if e == 0x7ff && f != 0 {
        0
    } else if e < 1023 {
        proof {
            if e > 0 {
                let k = (1075 - e) as nat;
                lemma_pow2_adds(53, (k - 53) as nat);
                lemma_pow2_pos((k - 53) as nat);
                assert(pow2(k) >= pow2(53)) by (nonlinear_arith)
                    requires
                        pow2(k) == pow2(53) * pow2((k - 53) as nat),
                        pow2((k - 53) as nat) > 0,
                ;
                assert(m as nat / pow2(k) == 0) by (nonlinear_arith)
                    requires
                        m < pow2(k),
                ;
            }
        }
        0
    } else if e >= 1086 {
        proof {
            let k = (e - 1075) as nat;
            lemma_pow2_adds(11, (k - 11) as nat);
            lemma_pow2_pos((k - 11) as nat);
            assert(m as nat * pow2(k) >= 0x8000_0000_0000_0000) by (nonlinear_arith)
                requires
                    pow2(k) == 2048 * pow2((k - 11) as nat),
                    pow2((k - 11) as nat) > 0,
                    m >= 0x10_0000_0000_0000,
            ;
        }
        if negative {
            i64::MIN
        } else {
            i64::MAX
        }
    } else {
        let magnitude: u64 = if e >= 1075 {
            let k: u64 = e - 1075;
            proof {
                lemma_pow2_adds(k as nat, (10 - k) as nat);
                lemma_pow2_pos((10 - k) as nat);
                assert(m * pow2(k as nat) < 0x8000_0000_0000_0000) by (nonlinear_arith)
                    requires
                        1024 == pow2(k as nat) * pow2((10 - k) as nat),
                        pow2((10 - k) as nat) > 0,
                        m < 0x20_0000_0000_0000,
                ;
                lemma_u64_shl_is_mul(m, k);
            }
            m << k
        } else {
            let k: u64 = 1075 - e;
            proof {
                lemma_u64_shr_is_div(m, k);
                lemma_pow2_pos(k as nat);
                assert(m as nat / pow2(k as nat) <= m) by (nonlinear_arith)
                    requires
                        pow2(k as nat) > 0,
                ;
            }
            m >> k
        };
        if negative {
            -(magnitude as i64)
        } else {
            magnitude as i64
        }
    }
}

/// The number of binary digits of `n`: zero for zero, and otherwise one more
/// than the position of the highest set bit.
pub open spec fn bit_length(n: nat) -> nat
    decreases n,
{
    if n == 0 {
        0
    } else {
        1 + bit_length(n / 2)
    }
}

/// `n / 2^k` rounded to the nearest whole number, a tie going to the even one.
pub open spec fn round_half_even(n: nat, k: nat) -> nat {
    let q = n / pow2(k);
    let r = n % pow2(k);
    if 2 * r > pow2(k) || (2 * r == pow2(k) && q % 2 == 1) {
        q + 1
    } else {
        q
    }
}

/// The significand of the binary64 number nearest to `n > 0`, hidden bit
/// included: `n` scaled to 53 binary digits, rounded half to even where digits
/// are dropped. It lies between 2^52 and 2^53, both included.
pub open spec fn significand(n: nat) -> nat {
    let len = bit_length(n);
    if len <= 53 {
        n * pow2((53 - len) as nat)
    } else {
        round_half_even(n, (len - 53) as nat)
    }
}

/// The pattern of the binary64 number nearest to `i`, ties going to the even
/// significand. Zero gives the pattern of positive zero.
///
/// The hidden bit of the significand adds one to the exponent field, and a
/// significand rounded up to 2^53 carries into it, so the three parts are
/// simply summed.
pub open spec fn from_int(i: int) -> u64 {
    if i == 0 {
        0
    } else {
        let n = (if i < 0 { -i } else { i }) as nat;
        let sign: nat = if i < 0 { SIGN_BIT as nat } else { 0 };
        (sign + (bit_length(n) + 1021) * HIDDEN_BIT + significand(n)) as u64
    }
}

/// A number between 2^(len-1) and 2^len has `len` binary digits.
pub proof fn lemma_bit_length(n: nat, len: nat)
    requires
        len >= 1,
        pow2((len - 1) as nat) <= n < pow2(len),
    ensures
        bit_length(n) == len,
    decreases len,
{
    lemma2_to64();
    if len == 1 {
        assert(bit_length(1) == 1 + bit_length(0));
    } else {
        lemma_pow2_adds((len - 2) as nat, 1);
        lemma_pow2_adds((len - 1) as nat, 1);
        lemma_bit_length(n / 2, (len - 1) as nat);
    }
}

/// A positive number lies between the powers of two that its number of
/// binary digits names.
pub proof fn lemma_bit_length_bounds(n: nat)
    requires
        n > 0,
    ensures
        bit_length(n) >= 1,
        pow2((bit_length(n) - 1) as nat) <= n < pow2(bit_length(n)),
    decreases n,
{
    lemma2_to64();
    if n == 1 {
    } else {
        lemma_bit_length_bounds(n / 2);
        let l = bit_length(n / 2);
        lemma_pow2_adds((l - 1) as nat, 1);
        lemma_pow2_adds(l, 1);
    }
}

/// The number of binary digits from the number of leading zeros.
proof fn lemma_leading_zeros(n: u64)
    requires
        n != 0,
    ensures
        u64_leading_zeros(n) < 64,
        bit_length(n as nat) == 64 - u64_leading_zeros(n),
{
    axiom_u64_leading_zeros(n);
    lemma2_to64();
    lemma2_to64_rest();
    let lz = u64_leading_zeros(n) as u64;
    let top: u64 = (63 - lz) as u64;
    assert(n >> top != 0) by (bit_vector)
        requires
            (n >> top) & 1u64 != 0u64,
    ;
    lemma_u64_shr_is_div(n, top);
    lemma_pow2_pos(top as nat);
    assert(n >= pow2(top as nat)) by (nonlinear_arith)
        requires
            n as nat / pow2(top as nat) != 0,
            pow2(top as nat) > 0,
    ;
    if lz > 0 {
        let above: u64 = (64 - lz) as u64;
        lemma_u64_shr_is_div(n, above);
        lemma_pow2_pos(above as nat);
        assert(n < pow2(above as nat)) by (nonlinear_arith)
            requires
                n as nat / pow2(above as nat) == 0,
                pow2(above as nat) > 0,
        ;
    }
    lemma_bit_length(n as nat, (64 - lz) as nat);
}

/// Converts an `i64` to the pattern of the nearest binary64 number, ties
/// going to the even significand.
pub fn from_i64(i: i64) -> (bits: u64)
    ensures
        bits == from_int(i as int),
{
    if i == 0 {
        return 0;
    }
    let sign: u64 = if i < 0 { SIGN_BIT } else { 0 };
    let n: u64 = if i < 0 { (-(i + 1)) as u64 + 1 } else { i as u64 };
    proof {
        lemma_leading_zeros(n);
        lemma2_to64();
        lemma2_to64_rest();
    }
    let len: u64 = 64 - n.leading_zeros() as u64;
    proof {
        lemma_bit_length_bounds(n as nat);
    }
    let sig: u64 = if len <= 53 {
        let k: u64 = 53 - len;
        proof {
            lemma_pow2_adds(len as nat, k as nat);
            lemma_pow2_pos(k as nat);
            assert(n * pow2(k as nat) < pow2(53)) by (nonlinear_arith)
                requires
                    n < pow2(len as nat),
                    pow2(53) == pow2(len as nat) * pow2(k as nat),
                    pow2(k as nat) > 0,
            ;
            lemma_u64_shl_is_mul(n, k);
        }
        n << k
    } else {
        let k: u64 = len - 53;
        let q: u64 = n >> k;
        proof {
            lemma_u64_shr_is_div(n, k);
            lemma_pow2_pos(k as nat);
            lemma_pow2_adds(k as nat, (64 - k) as nat);
            lemma_pow2_adds((k - 1) as nat, 1);
            vstd::arithmetic::div_mod::lemma_fundamental_div_mod(n as int, pow2(k as nat) as int);
            assert(q * pow2(k as nat) <= n) by (nonlinear_arith)
                requires
                    n == pow2(k as nat) * q + (n as nat % pow2(k as nat)),
                    n as nat % pow2(k as nat) >= 0,
            ;
            lemma_u64_shl_is_mul(q, k);
            assert(1 * pow2((k - 1) as nat) <= u64::MAX) by {
                vstd::bits::lemma_u64_pow2_no_overflow((k - 1) as nat);
            }
            lemma_u64_shl_is_mul(1, (k - 1) as u64);
            assert(q & 1 == q % 2) by (bit_vector);
        }
        let r: u64 = n - (q << k);
        let half: u64 = 1u64 << (k - 1);
        assert(r == n as nat % pow2(k as nat)) by (nonlinear_arith)
            requires
                n == pow2(k as nat) * q + (n as nat % pow2(k as nat)),
                r == n - q * pow2(k as nat),
        ;
        proof {
            assert(q < pow2(53)) by (nonlinear_arith)
                requires
                    q * pow2(k as nat) <= n,
                    n < pow2(len as nat),
                    pow2(len as nat) == pow2(53) * pow2(k as nat),
                    pow2(k as nat) > 0,
            ;
        }
        if r > half || (r == half && q & 1 == 1) {
            q + 1
        } else {
            q
        }
    };
    sign + (len + 1021) * HIDDEN_BIT + sig
}

/// The fields of a pattern that is put together from a sign, an exponent
/// below 2047 and a fraction below 2^52.
proof fn lemma_assembled(sign: nat, e: nat, f: nat)
    requires
        sign == 0 || sign == SIGN_BIT,
        e < 2047,
        f < HIDDEN_BIT,
    ensures
        sign + e * HIDDEN_BIT + f <= u64::MAX,
        ({
            let bits = (sign + e * HIDDEN_BIT + f) as u64;
            &&& exponent_field(bits) == e
            &&& fraction_field(bits) == f
            &&& is_negative(bits) == (sign != 0)
            &&& !is_nan(bits)
        }),
{
}

/// How close the conversion from an integer comes.
///
/// The float that `from_int` gives has the sign of the integer and is never
/// a NaN. While the magnitude has at most 53 binary digits the float is the
/// integer itself; with `len > 53` digits it is a multiple of `2^(len-53)`,
/// the spacing of floats at that size, and lies within half of that spacing
/// of the integer; where it lies at exactly half, it is the even multiple.
pub proof fn lemma_from_int_is_near(i: i64)
    requires
        i != 0,
    ensures
        ({
            let bits = from_int(i as int);
            let n = (if i < 0 { -i } else { i as int }) as nat;
            let len = bit_length(n);
            let m = whole_magnitude(bits);
            &&& !is_nan(bits)
            &&& is_negative(bits) == (i < 0)
            &&& 1 <= len <= 64
            &&& len <= 53 ==> m == n
            &&& len > 53 ==> {
                let spacing = pow2((len - 53) as nat);
                &&& m % spacing == 0
                &&& 2 * (m - n) <= spacing
                &&& 2 * (n - m) <= spacing
                &&& (2 * (m - n) == spacing || 2 * (n - m) == spacing) ==> (m / spacing) % 2 == 0
            }
        }),
{
    let n = (if i < 0 { -i } else { i as int }) as nat;
    let sign: nat = if i < 0 { SIGN_BIT as nat } else { 0 };
    let len = bit_length(n);
    lemma_bit_length_bounds(n);
    lemma2_to64();
    lemma2_to64_rest();
    if len > 64 {
        lemma_pow2_adds(64, (len - 1 - 64) as nat);
        lemma_pow2_pos((len - 1 - 64) as nat);
        assert(pow2((len - 1) as nat) >= pow2(64)) by (nonlinear_arith)
            requires
                pow2((len - 1) as nat) == pow2(64) * pow2((len - 1 - 64) as nat),
                pow2((len - 1 - 64) as nat) > 0,
        ;
    }
    let sig = significand(n);
    if len <= 53 {
        let k = (53 - len) as nat;
        let p = pow2(k);
        lemma_pow2_adds(len, k);
        lemma_pow2_adds((len - 1) as nat, k);
        lemma_pow2_pos(k);
        assert(pow2(52) <= n * p < pow2(53)) by (nonlinear_arith)
            requires
                pow2((len - 1) as nat) <= n < pow2(len),
                pow2(53) == pow2(len) * p,
                pow2(52) == pow2((len - 1) as nat) * p,
                p > 0,
        ;
        let e = len + 1022;
        let f = (sig - HIDDEN_BIT) as nat;
        lemma_assembled(sign, e, f);
        assert((n * p) / p == n) by (nonlinear_arith)
            requires
                p > 0,
        ;
        assert(n * 1 == n);
    } else {
        let k = (len - 53) as nat;
        let p = pow2(k);
        let q = n / p;
        let r = n % p;
        lemma_pow2_pos(k);
        lemma_pow2_adds(53, k);
        lemma_pow2_adds(52, k);
        lemma_pow2_adds(k, 1);
        vstd::arithmetic::div_mod::lemma_fundamental_div_mod(n as int, p as int);
        vstd::arithmetic::div_mod::lemma_mod_bound(n as int, p as int);
        assert(pow2(52) <= q < pow2(53)) by (nonlinear_arith)
            requires
                n == p * q + r,
                0 <= r < p,
                pow2(52) * p <= n < pow2(53) * p,
        ;
        let e = len + 1022;
        if sig < pow2(53) {
            let f = (sig - HIDDEN_BIT) as nat;
            lemma_assembled(sign, e, f);
        } else {
            lemma_assembled(sign, e + 1, 0);
            assert(pow2(52) * pow2(k + 1) == sig * p) by (nonlinear_arith)
                requires
                    sig == 2 * pow2(52),
                    pow2(k + 1) == p * 2,
            ;
        }
        let m = sig * p;
        assert(m % p == 0) by {
            vstd::arithmetic::div_mod::lemma_mod_multiples_basic(sig as int, p as int);
        }
        assert(m / p == sig) by (nonlinear_arith)
            requires
                m == sig * p,
                p > 0,
        ;
        assert(2 * (m - n) <= p && 2 * (n - m) <= p && ((2 * (m - n) == p || 2 * (n - m) == p)
            ==> 2 * r == p)) by (nonlinear_arith)
            requires
                m == sig * p,
                n == p * q + r,
                0 <= r < p,
                sig == q + 1 ==> 2 * r >= p,
                sig == q ==> 2 * r <= p,
                sig == q || sig == q + 1,
        ;
    }
}

/// An integer of magnitude up to 2^53 converts to a float and back without
/// loss.
pub proof fn lemma_round_trip(i: i64)
    requires
        -0x20_0000_0000_0000 <= i <= 0x20_0000_0000_0000,
    ensures
        truncated(from_int(i as int)) == i,
{
    lemma2_to64();
    lemma2_to64_rest();
    if i == 0 {
        lemma_assembled(0, 0, 0);
    } else {
        lemma_from_int_is_near(i);
        let n = (if i < 0 { -i } else { i as int }) as nat;
        let len = bit_length(n);
        if len > 53 {
            // only 2^53 itself has more than 53 digits, and the float within
            // one of it that is even is 2^53
            lemma_bit_length_bounds(n);
            if len > 54 {
                lemma_pow2_adds(53, (len - 1 - 53) as nat);
                lemma_pow2_adds(1, (len - 1 - 54) as nat);
                lemma_pow2_pos((len - 1 - 54) as nat);
                assert(pow2((len - 1) as nat) > pow2(53)) by (nonlinear_arith)
                    requires
                        pow2((len - 1) as nat) == pow2(53) * pow2((len - 1 - 53) as nat),
                        pow2((len - 1 - 53) as nat) == 2 * pow2((len - 1 - 54) as nat),
                        pow2((len - 1 - 54) as nat) > 0,
                        pow2(53) > 0,
                ;
            }
        }
    }
}

} // verus!
