use vstd::prelude::*;

verus! {

/// 2 to the power `n`.
pub open spec fn two_pow(n: nat) -> nat
    decreases n,
{
    if n == 0 {
        1
    } else {
        2 * two_pow((n - 1) as nat)
    }
}

/// `bits` is the IEEE-754 single-precision word with the given sign,
/// biased exponent and fraction fields.
pub open spec fn single_fields(bits: u32, negative: bool, exponent: nat, fraction: nat) -> bool {
    &&& exponent < 256
    &&& fraction < 0x80_0000
    &&& bits == (if negative {
        0x8000_0000nat
    } else {
        0
    }) + exponent * 0x80_0000 + fraction
}

/// `bits` is the single-precision number `k / 2^23`, for `|k| <= 2^23`:
/// positive zero for 0, else a normal number whose significand
/// `1.fraction` times `2^(exponent - 127)` equals `|k| / 2^23`.
pub open spec fn encodes_scaled(bits: u32, k: int) -> bool {
    if k == 0 {
        bits == 0
    } else {
        exists|negative: bool, exponent: nat, fraction: nat|
            #[trigger] single_fields(bits, negative, exponent, fraction) && (negative <==> k < 0)
                && 1 <= exponent <= 127 && 0x80_0000 + fraction == vstd::math::abs(k) * two_pow(
                (127 - exponent) as nat,
            )
    }
}

/// The literal that a draw of the generator stands for: the top 24 bits of
/// the 32-bit draw, recentred to `k` in `[-2^23, 2^23)`, read as `k / 2^23`,
/// a number in `[-1, 1)`.
pub open spec fn literal_numerator(draw: u64) -> int {
    (draw / 256) as int - 0x80_0000
}

proof fn lemma_two_pow_23()
    ensures
        two_pow(23) == 0x80_0000,
{
    reveal_with_fuel(two_pow, 24);
}

/// Encodes the literal of a draw as single-precision bits; the value is
/// exact, so no rounding takes place.
pub fn literal_from_draw(draw: u64) -> (r: u32)
    requires
        draw < 0x1_0000_0000,
    ensures
        encodes_scaled(r, literal_numerator(draw)),
        r == literal_bits(draw),
{
    let top: u64 = draw / 256;
    if top == 0x80_0000 {
        proof {
            assert(encodes_scaled(0u32, literal_numerator(draw)));
            lemma_encoding_unique(0, literal_bits(draw), 0);
        }
        return 0;
    }
    let negative = top < 0x80_0000;
    let magnitude: u64 = if negative {
        0x80_0000 - top
    } else {
        top - 0x80_0000
    };
    let ghost k = literal_numerator(draw);
    assert(magnitude == vstd::math::abs(k));
    let mut m: u64 = magnitude;
    let mut exponent: u64 = 127;
    assert(two_pow(0) == 1);
    assert(magnitude * two_pow(0) == magnitude);
    while m < 0x80_0000
        invariant
            1 <= m < 0x100_0000,
            104 <= exponent <= 127,
            m == magnitude * two_pow((127 - exponent) as nat),
            1 <= magnitude <= 0x80_0000,
            m >= two_pow((127 - exponent) as nat),
        decreases exponent,
    {
        proof {
            let p = two_pow((127 - exponent) as nat);
            assert(two_pow((127 - (exponent - 1)) as nat) == 2 * p);
            assert(m * 2 == magnitude * (2 * p)) by (nonlinear_arith)
                requires
                    m == magnitude * p,
            ;
            lemma_two_pow_23();
            if exponent == 104 {
                assert(m >= two_pow(23));
            }
        }
        m = m * 2;
        exponent = exponent - 1;
    }
    let sign: u64 = if negative {
        0x8000_0000
    } else {
        0
    };
    let fraction: u64 = m - 0x80_0000;
    assert(exponent * 0x80_0000 <= 127 * 0x80_0000) by (nonlinear_arith)
        requires
            exponent <= 127,
    ;
    let bits: u64 = sign + exponent * 0x80_0000 + fraction;
    let r = bits as u32;
    assert(r == bits);
    assert(single_fields(r, k < 0, exponent as nat, fraction as nat));
    proof {
        let e = exponent as nat;
        let f = fraction as nat;
        assert(0x80_0000 + f == vstd::math::abs(k) * two_pow((127 - e) as nat));
        assert(1 <= e <= 127 && single_fields(r, k < 0, e, f));
        assert(k != 0);
        assert(encodes_scaled(r, k));
        lemma_encoding_unique(r, literal_bits(draw), k);
    }
    r
}

proof fn lemma_two_pow_adds(a: nat, b: nat)
    ensures
        two_pow(a + b) == two_pow(a) * two_pow(b),
    decreases a,
{
    if a == 0 {
        assert(two_pow(0) == 1);
        assert(a + b == b);
    } else {
        lemma_two_pow_adds((a - 1) as nat, b);
        assert(two_pow(a) == 2 * two_pow((a - 1) as nat));
        assert(two_pow(a + b) == 2 * two_pow((a - 1 + b) as nat));
        assert(2 * (two_pow((a - 1) as nat) * two_pow(b)) == (2 * two_pow((a - 1) as nat)) * two_pow(
            b,
        )) by (nonlinear_arith);
    }
}

proof fn lemma_two_pow_positive(a: nat)
    ensures
        two_pow(a) >= 1,
    decreases a,
{
    if a > 0 {
        lemma_two_pow_positive((a - 1) as nat);
    }
}

/// The encoding of `k / 2^23` is unique.
pub proof fn lemma_encoding_unique(b1: u32, b2: u32, k: int)
    requires
        encodes_scaled(b1, k),
        encodes_scaled(b2, k),
    ensures
        b1 == b2,
{
    if k != 0 {
        let (n1, e1, f1) = choose|n: bool, e: nat, f: nat|
            #[trigger] single_fields(b1, n, e, f) && (n <==> k < 0) && 1 <= e <= 127 && 0x80_0000
                + f == vstd::math::abs(k) * two_pow((127 - e) as nat);
        let (n2, e2, f2) = choose|n: bool, e: nat, f: nat|
            #[trigger] single_fields(b2, n, e, f) && (n <==> k < 0) && 1 <= e <= 127 && 0x80_0000
                + f == vstd::math::abs(k) * two_pow((127 - e) as nat);
        let a = vstd::math::abs(k);
        if e1 < e2 {
            let d = (e2 - e1) as nat;
            lemma_two_pow_adds((127 - e2) as nat, d);
            lemma_two_pow_positive((d - 1) as nat);
            assert(two_pow(d) >= 2);
            let p2 = two_pow((127 - e2) as nat);
            assert(a * (p2 * two_pow(d)) == (a * p2) * two_pow(d)) by (nonlinear_arith);
            assert((0x80_0000 + f2) * two_pow(d) >= (0x80_0000 + f2) * 2) by (nonlinear_arith)
                requires
                    two_pow(d) >= 2,
            ;
        } else if e2 < e1 {
            let d = (e1 - e2) as nat;
            lemma_two_pow_adds((127 - e1) as nat, d);
            lemma_two_pow_positive((d - 1) as nat);
            assert(two_pow(d) >= 2);
            let p1 = two_pow((127 - e1) as nat);
            assert(a * (p1 * two_pow(d)) == (a * p1) * two_pow(d)) by (nonlinear_arith);
            assert((0x80_0000 + f1) * two_pow(d) >= (0x80_0000 + f1) * 2) by (nonlinear_arith)
                requires
                    two_pow(d) >= 2,
            ;
        }
    }
}

/// The single-precision bits of the literal that a draw stands for.
pub open spec fn literal_bits(draw: u64) -> u32 {
    choose|b: u32| encodes_scaled(b, literal_numerator(draw))
}

} // verus!
