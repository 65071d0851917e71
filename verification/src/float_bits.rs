use vstd::prelude::*;

verus! {

// IEEE 754 single-precision bit patterns, handled as plain `u32` values so
// that the device wire format and the on-disk volume format can be stated
// exactly. No floating-point arithmetic happens anywhere in the library:
// this module only fixes the bit-level encodings the formats depend on —
// the enabled flag (1.0), zero, resolution counts stored as integer-valued
// floats, and a total order on bit patterns used for density min/max.

/// Bits of 0.0f32.
pub const F32_ZERO_BITS: u32 = 0;

/// Bits of 1.0f32, the `enabled` flag value of the device volume encoding.
pub const F32_ONE_BITS: u32 = 0x3F80_0000;

/// 2^e (1 for e <= 0).
pub open spec fn two_pow(e: int) -> int
    decreases e,
{
    if e <= 0 {
        1
    } else {
        2 * two_pow(e - 1)
    }
}

/// Index of the highest set bit: floor(log2(n)) for n >= 1, 0 for n <= 1.
pub open spec fn msb(n: int) -> int
    decreases n,
{
    if n < 2 {
        0
    } else {
        1 + msb(n / 2)
    }
}

/// The single-precision bit pattern that holds the non-negative integer
/// `n` exactly: biased exponent `msb(n) + 127`, mantissa the bits of `n`
/// below the leading one. Exact for `0 <= n <= 2^24`, the range the device
/// volume encoding stores resolution counts in.
pub open spec fn f32_bits_of_uint(n: int) -> int {
    if n <= 0 {
        0
    } else {
        let e = msb(n);
        if e <= 23 {
            (e + 127) * 0x80_0000 + n * two_pow(23 - e) - 0x80_0000
        } else {
            (e + 127) * 0x80_0000 + n / two_pow(e - 23) - 0x80_0000
        }
    }
}

/// Reads back the non-negative integer a single-precision bit pattern
/// holds, or `None` when the pattern is not an exactly-represented integer
/// in `[0, 2^24]` (negative, fractional, too large, or not a number).
pub open spec fn f32_bits_to_uint(b: int) -> Option<int> {
    if b == 0 {
        Some(0)
    } else if b < 0 || b >= 0x8000_0000 {
        None
    } else {
        let ef = b / 0x80_0000;
        let m = b % 0x80_0000;
        if ef < 127 {
            None
        } else if ef <= 150 {
            if (0x80_0000 + m) % two_pow(150 - ef) == 0 {
                Some((0x80_0000 + m) / two_pow(150 - ef))
            } else {
                None
            }
        } else if ef == 151 && m == 0 {
            Some(0x100_0000)
        } else {
            None
        }
    }
}

/// Monotone re-keying of single-precision bit patterns: for any two
/// non-NaN floats the numeric order of the values equals the `u32` order
/// of their keys (with -0.0 ordered just below +0.0). Patterns with the
/// sign bit set are reversed, the rest are shifted above them.
pub open spec fn f32_order_key(b: u32) -> u32 {
    if b >= 0x8000_0000 {
        (0xFFFF_FFFF - b) as u32
    } else {
        (b + 0x8000_0000) as u32
    }
}

/// Distinct bit patterns have distinct order keys, so a minimum found by
/// key comparison pins down the bit pattern itself.
pub proof fn lemma_f32_order_key_injective(a: u32, b: u32)
    requires
        f32_order_key(a) == f32_order_key(b),
    ensures
        a == b,
{
}

/// Exec mirror of `f32_order_key`.
pub fn order_key(b: u32) -> (r: u32)
    ensures
        r == f32_order_key(b),
{
    if b >= 0x8000_0000 {
        0xFFFF_FFFF - b
    } else {
        b + 0x8000_0000
    }
}

pub proof fn lemma_two_pow_positive(e: int)
    ensures
        two_pow(e) >= 1,
    decreases e,
{
    if e > 0 {
        lemma_two_pow_positive(e - 1);
    }
}

pub proof fn lemma_two_pow_monotone(a: int, b: int)
    requires
        a <= b,
    ensures
        two_pow(a) <= two_pow(b),
    decreases b,
{
    if a < b && b > 0 {
        lemma_two_pow_monotone(a, b - 1);
        lemma_two_pow_positive(b - 1);
    }
}

pub proof fn lemma_two_pow_add(a: int, c: int)
    requires
        0 <= a,
        0 <= c,
    ensures
        two_pow(a) * two_pow(c) == two_pow(a + c),
    decreases a,
{
    if a == 0 {
    } else {
        lemma_two_pow_add(a - 1, c);
        assert(two_pow(a) * two_pow(c) == 2 * (two_pow(a - 1) * two_pow(c)))
            by (nonlinear_arith)
            requires
                two_pow(a) == 2 * two_pow(a - 1),
        ;
    }
}

/// 2^b / 2^a is exactly 2^(b-a) when a <= b.
pub proof fn lemma_two_pow_div(a: int, b: int)
    requires
        0 <= a <= b,
    ensures
        two_pow(b) % two_pow(a) == 0,
        two_pow(b) / two_pow(a) == two_pow(b - a),
        two_pow(a) * two_pow(b - a) == two_pow(b),
{
    lemma_two_pow_add(a, b - a);
    lemma_two_pow_positive(a);
    lemma_two_pow_positive(b - a);
    assert(two_pow(b) % two_pow(a) == 0 && two_pow(b) / two_pow(a) == two_pow(b - a))
        by (nonlinear_arith)
        requires
            two_pow(a) * two_pow(b - a) == two_pow(b),
            two_pow(a) >= 1,
            two_pow(b - a) >= 1,
    ;
}

/// If 2^e <= n < 2^(e+1) then the highest set bit of n is e.
pub proof fn lemma_msb_from_bounds(n: int, e: int)
    requires
        0 <= e,
        two_pow(e) <= n < 2 * two_pow(e),
    ensures
        msb(n) == e,
    decreases e,
{
    lemma_two_pow_positive(e);
    if e == 0 {
    } else {
        lemma_two_pow_positive(e - 1);
        assert(two_pow(e) == 2 * two_pow(e - 1));
        assert(n >= 2);
        lemma_msb_from_bounds(n / 2, e - 1);
    }
}

/// The defining bounds of msb: 2^msb(n) <= n < 2^(msb(n)+1) for n >= 1.
pub proof fn lemma_msb_bounds(n: int)
    requires
        n >= 1,
    ensures
        0 <= msb(n),
        two_pow(msb(n)) <= n < 2 * two_pow(msb(n)),
    decreases n,
{
    if n < 2 {
    } else {
        lemma_msb_bounds(n / 2);
    }
}

/// Exec encoder: the bit pattern that holds `n` exactly.
pub fn u24_to_f32_bits(n: u32) -> (r: u32)
    requires
        n <= 0x100_0000,
    ensures
        r == f32_bits_of_uint(n as int),
{
    if n == 0 {
        return 0;
    }
    let mut e: u32 = 0;
    let mut p: u32 = 1;
    while 2 * p <= n
        invariant
            n <= 0x100_0000,
            1 <= p <= n,
            e <= 24,
            p == two_pow(e as int),
        decreases n - p,
    {
        proof {
            if e >= 24 {
                lemma_two_pow_monotone(24, e as int);
                assert(two_pow(24) == 0x100_0000) by {
                    reveal_with_fuel(two_pow, 25);
                }
                assert(false);
            }
        }
        p = 2 * p;
        e = e + 1;
    }
    proof {
        lemma_msb_from_bounds(n as int, e as int);
    }
    if e == 24 {
        // Here 2^24 <= n <= 2^24, so n is exactly 2^24: biased exponent
        // 151, mantissa 0.
        proof {
            assert(two_pow(24) == 0x100_0000 && two_pow(1) == 2) by {
                reveal_with_fuel(two_pow, 25);
            }
        }
        return 0x4B80_0000;
    }
    // 2^e <= n < 2^(e+1) with e <= 23; the mantissa field is n shifted so
    // that its leading one lands on bit 23, with that bit then dropped.
    proof {
        lemma_two_pow_div(e as int, 23);
        assert(two_pow(23) == 0x80_0000) by {
            reveal_with_fuel(two_pow, 25);
        }
        lemma_two_pow_positive(e as int);
    }
    let q: u32 = 0x80_0000 / p;
    proof {
        assert(n * q < 0x100_0000 && n * q >= 0x80_0000 && n * q == n * two_pow(23 - e as int))
            by (nonlinear_arith)
            requires
                p >= 1,
                p <= n,
                n < 2 * p,
                q == two_pow(23 - e as int),
                p * q == 0x80_0000,
        ;
    }
    let m: u32 = n * q;
    (e + 127) * 0x80_0000 + (m - 0x80_0000)
}

/// Exec decoder: reads back the integer a bit pattern holds exactly.
pub fn f32_bits_to_u24(b: u32) -> (r: Option<u32>)
    ensures
        f32_bits_to_uint(b as int) == (match r {
            Some(v) => Some(v as int),
            None => None::<int>,
        }),
        r is Some ==> r.unwrap() <= 0x100_0000,
{
    if b == 0 {
        return Some(0);
    }
    if b >= 0x8000_0000 {
        return None;
    }
    let ef: u32 = b / 0x80_0000;
    let m: u32 = b % 0x80_0000;
    if ef < 127 {
        return None;
    }
    if ef > 151 {
        return None;
    }
    if ef == 151 {
        if m == 0 {
            return Some(0x100_0000);
        } else {
            return None;
        }
    }
    // 127 <= ef <= 150: divide out 2^(150 - ef).
    let k: u32 = 150 - ef;
    let mut d: u32 = 1;
    let mut i: u32 = 0;
    while i < k
        invariant
            k <= 23,
            i <= k,
            d == two_pow(i as int),
        decreases k - i,
    {
        proof {
            lemma_two_pow_monotone(i as int, 22);
            assert(two_pow(22) == 0x40_0000) by {
                reveal_with_fuel(two_pow, 25);
            }
        }
        d = 2 * d;
        i = i + 1;
    }
    let full: u32 = 0x80_0000 + m;
    proof {
        lemma_two_pow_positive(k as int);
    }
    if full % d == 0 {
        Some(full / d)
    } else {
        None
    }
}

/// Decoding inverts encoding on the exactly-representable range: the
/// round-trip that carries resolution counts through the device volume
/// encoding loses nothing.
pub proof fn lemma_f32_bits_uint_roundtrip(n: int)
    requires
        0 <= n <= 0x100_0000,
    ensures
        f32_bits_to_uint(f32_bits_of_uint(n)) == Some(n),
        0 <= f32_bits_of_uint(n) < 0x8000_0000,
        n >= 1 ==> f32_bits_of_uint(n) >= 0x3F80_0000,
{
    if n == 0 {
        return;
    }
    lemma_msb_bounds(n);
    let e = msb(n);
    assert(two_pow(24) == 0x100_0000 && two_pow(23) == 0x80_0000 && two_pow(1) == 2) by {
        reveal_with_fuel(two_pow, 25);
    }
    if n == 0x100_0000 {
        lemma_msb_from_bounds(n, 24);
        assert(f32_bits_of_uint(n) == 151 * 0x80_0000 + 0x100_0000int / two_pow(1) - 0x80_0000);
        assert(f32_bits_of_uint(n) == 0x4B80_0000);
        assert(0x4B80_0000int / 0x80_0000 == 151 && 0x4B80_0000int % 0x80_0000 == 0);
    } else {
        if e > 23 {
            lemma_two_pow_monotone(24, e);
            assert(false);
        }
        let s = two_pow(23 - e);
        lemma_two_pow_div(e, 23);
        lemma_two_pow_positive(e);
        lemma_two_pow_positive(23 - e);
        let v = n * s;
        assert(0x80_0000 <= v < 0x100_0000) by (nonlinear_arith)
            requires
                v == n * s,
                two_pow(e) <= n < 2 * two_pow(e),
                s >= 1,
                two_pow(e) * s == 0x80_0000,
        ;
        let b = (e + 127) * 0x80_0000 + v - 0x80_0000;
        assert(f32_bits_of_uint(n) == b);
        let m = v - 0x80_0000;
        assert(b == (e + 127) * 0x80_0000 + m);
        assert(b / 0x80_0000 == e + 127 && b % 0x80_0000 == m) by (nonlinear_arith)
            requires
                b == (e + 127) * 0x80_0000 + m,
                0 <= m < 0x80_0000,
                0 <= e,
        ;
        assert(0x3F80_0000 <= b < 0x8000_0000) by (nonlinear_arith)
            requires
                b == (e + 127) * 0x80_0000 + m,
                0 <= m < 0x80_0000,
                0 <= e <= 23,
        ;
        let ef = e + 127;
        assert(127 <= ef <= 150);
        assert(150 - ef == 23 - e);
        assert(0x80_0000 + m == v);
        assert(v % s == 0 && v / s == n) by (nonlinear_arith)
            requires
                v == n * s,
                s >= 1,
        ;
        assert(f32_bits_to_uint(b) == Some(n));
    }
}

} // verus!
