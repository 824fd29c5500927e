//! The doubles nearest to fractions.

use vstd::arithmetic::div_mod::*;
use vstd::arithmetic::power2::*;
use vstd::prelude::*;

use crate::bignat::{BigNat, Relation};
use crate::double::INFINITY_BITS;

verus! {

/// Whether `2^e <= num / den < 2^(e + 1)`.
pub open spec fn in_binade(num: nat, den: nat, e: int) -> bool {
    if e >= 0 {
        den * pow2(e as nat) <= num < 2 * (den * pow2(e as nat))
    } else {
        den <= num * pow2((-e) as nat) < 2 * den
    }
}

/// The `e` with `2^e <= num / den < 2^(e + 1)`, for a positive fraction.
pub open spec fn binade(num: nat, den: nat) -> int {
    choose|e: int| #[trigger] in_binade(num, den, e)
}

/// The exponent of the lowest binary digit that a double in a binade has.
pub open spec fn lowest_exponent(e: int) -> int {
    if e - 52 >= -1074 {
        e - 52
    } else {
        -1074
    }
}

/// `num / den` in units of `2^q`, rounded to the nearest integer, a tie to the even one.
pub open spec fn in_units(num: nat, den: nat, q: int) -> nat {
    if q >= 0 {
        crate::double::round_half_even(num, den * pow2(q as nat))
    } else {
        crate::double::round_half_even(num * pow2((-q) as nat), den)
    }
}

/// The place in the order of the double that is nearest to a fraction in a binade; those too large
/// for any become infinite.
pub open spec fn key_in_binade(num: nat, den: nat, e: int) -> nat {
    let q = lowest_exponent(e);
    let key = in_units(num, den, q) + (q + 1074) * 0x10_0000_0000_0000;
    if key >= INFINITY_BITS {
        INFINITY_BITS as nat
    } else {
        key as nat
    }
}

/// The place in the order of the double that is nearest to a fraction.
pub open spec fn ratio_key(num: nat, den: nat) -> nat {
    if num == 0 {
        0
    } else {
        key_in_binade(num, den, binade(num, den))
    }
}

/// A power of two that is below another one has the smaller exponent.
proof fn lemma_exponent_below(e: nat, n: nat, m: nat)
    requires
        pow2(e) <= n < pow2(m),
    ensures
        e < m,
{
    if e > m {
        lemma_pow2_strictly_increases(m, e);
    }
}

/// A positive fraction is in one binade only.
proof fn lemma_one_binade(num: nat, den: nat, e: int, f: int)
    requires
        den > 0,
        in_binade(num, den, e),
        in_binade(num, den, f),
    ensures
        e == f,
{
    if e < f {
        lemma_binades_apart(num, den, e, f);
    } else if f < e {
        lemma_binades_apart(num, den, f, e);
    }
}

/// A fraction in a binade is in no higher one.
proof fn lemma_binades_apart(num: nat, den: nat, e: int, f: int)
    requires
        den > 0,
        in_binade(num, den, e),
        e < f,
    ensures
        !in_binade(num, den, f),
{
    if e >= 0 {
        let k = (f - e - 1) as nat;
        lemma_pow2_adds((e + 1) as nat, k);
        lemma_pow2_unfold((e + 1) as nat);
        lemma_pow2_pos(k);
        let p = pow2(e as nat);
        let t = pow2(k);
        assert(pow2(f as nat) == (2 * p) * t);
        assert(den * ((2 * p) * t) >= 2 * (den * p)) by (nonlinear_arith)
            requires
                t >= 1,
                den > 0,
        ;
    } else if f >= 0 {
        let p = pow2((-e) as nat);
        let t = pow2(f as nat);
        lemma_pow2_unfold((-e) as nat);
        lemma_pow2_pos((-e - 1) as nat);
        lemma_pow2_pos(f as nat);
        assert(p >= 2);
        assert(num < den) by (nonlinear_arith)
            requires
                num * p < 2 * den,
                p >= 2,
        ;
        assert(den * t >= den) by (nonlinear_arith)
            requires
                t >= 1,
        ;
    } else {
        let k = (f - e) as nat;
        lemma_pow2_adds((-f) as nat, k);
        lemma_pow2_unfold(k);
        lemma_pow2_pos((k - 1) as nat);
        let p = pow2((-f) as nat);
        let t = pow2(k);
        assert(t >= 2);
        assert(pow2((-e) as nat) == p * t);
        assert(num * p < den) by (nonlinear_arith)
            requires
                num * (p * t) < 2 * den,
                t >= 2,
        ;
    }
}

/// Equal fractions round to the same integer.
proof fn lemma_rounding_of_equals(a: nat, b: nat, c: nat, d: nat)
    requires
        b > 0,
        d > 0,
        a * d == c * b,
    ensures
        crate::double::round_half_even(a, b) == crate::double::round_half_even(c, d),
{
    let f = (a / b) as int;
    let r = (a % b) as int;
    lemma_fundamental_div_mod(a as int, b as int);
    lemma_mod_bound(a as int, b as int);
    let s = c - f * d;
    assert(s * b == r * d) by (nonlinear_arith)
        requires
            a == b * f + r,
            a * d == c * b,
            s == c - f * d,
    ;
    assert(0 <= s < d) by (nonlinear_arith)
        requires
            s * b == r * d,
            0 <= r < b,
            b > 0,
            d > 0,
    ;
    lemma_fundamental_div_mod_converse(c as int, d as int, f, s);
    assert(2 * r > b <==> 2 * s > d) by (nonlinear_arith)
        requires
            s * b == r * d,
            b > 0,
            d > 0,
    ;
    assert(2 * r == b <==> 2 * s == d) by (nonlinear_arith)
        requires
            s * b == r * d,
            b > 0,
            d > 0,
    ;
}

/// Scaling both parts of a fraction by powers of two, and counting in other units, comes to the
/// same.
proof fn lemma_units_of_scaled(num: nat, den: nat, x: nat, y: nat, q: int, k: nat)
    requires
        den > 0,
        k as int == y as int - x as int - q + 1,
    ensures
        in_units(num, den, q) == crate::double::round_half_even(
            (num * pow2(x)) * pow2(k),
            2 * (den * pow2(y)),
        ),
{
    lemma_pow2_pos(x);
    lemma_pow2_pos(y);
    lemma_pow2_pos(k);
    let a = (num * pow2(x)) * pow2(k);
    let b = 2 * (den * pow2(y));
    assert(b > 0) by (nonlinear_arith)
        requires
            b == 2 * (den * pow2(y)),
            den > 0,
            pow2(y) > 0,
    ;
    lemma_pow2_unfold(y + 1);
    lemma_pow2_adds(x, k);
    if q >= 0 {
        let p = pow2(q as nat);
        lemma_pow2_pos(q as nat);
        lemma_pow2_adds(x + k, q as nat);
        assert(x + k + q == y + 1);
        assert(pow2(x) * pow2(k) * p == 2 * pow2(y));
        let d = den * p;
        assert(d > 0) by (nonlinear_arith)
            requires
                d == den * p,
                den > 0,
                p > 0,
        ;
        assert(a * d == num * b) by (nonlinear_arith)
            requires
                a == (num * pow2(x)) * pow2(k),
                b == 2 * (den * pow2(y)),
                d == den * p,
                pow2(x) * pow2(k) * p == 2 * pow2(y),
        ;
        lemma_rounding_of_equals(a, b, num, d);
    } else {
        let p = pow2((-q) as nat);
        lemma_pow2_adds(y + 1, (-q) as nat);
        assert(x + k == y + 1 + (-q));
        assert(pow2(x) * pow2(k) == 2 * pow2(y) * p);
        let c = num * p;
        assert(a * den == c * b) by (nonlinear_arith)
            requires
                a == (num * pow2(x)) * pow2(k),
                b == 2 * (den * pow2(y)),
                c == num * p,
                pow2(x) * pow2(k) == 2 * pow2(y) * p,
        ;
        lemma_rounding_of_equals(a, b, c, den);
    }
}

/// A fraction whose parts are scaled by powers of two, so that it is in the binade of 1.
struct Scaled {
    a: BigNat,
    d: BigNat,
    /// The binade of the fraction itself.
    e: i128,
}

/// Whether both parts of a fraction are scaled so that it is in the binade of 1.
spec fn is_scaled(num: nat, den: nat, s: Scaled, x: nat, y: nat) -> bool {
    &&& s.a@ == num * pow2(x)
    &&& s.d@ == den * pow2(y)
    &&& s.e as int == y as int - x as int
    &&& s.d@ <= s.a@ < 2 * s.d@
    &&& in_binade(num, den, s.e as int)
}

/// Scales both parts of a fraction so that it is in the binade of 1.
fn scale(num: BigNat, den: BigNat) -> (scaled: Scaled)
    requires
        num@ > 0,
        den@ > 0,
    ensures
        exists|x: nat, y: nat| is_scaled(num@, den@, scaled, x, y),
{
    let ghost n = num@;
    let ghost m = den@;
    let mut a = num;
    let mut d = den;
    let longest_a = a.length() as i128 * 32;
    let longest_d = d.length() as i128 * 32;
    let mut e: i128 = 0;
    proof {
        lemma2_to64();
        assert(m * 1 == m) by (nonlinear_arith);
    }
    loop
        invariant
            n > 0,
            m > 0,
            a@ == n,
            d@ == m * pow2(e as nat),
            n < pow2(longest_a as nat),
            0 <= e <= longest_a <= 0xffff_ffff_ffff_ffff * 32,
            e > 0 ==> m * pow2((e - 1) as nat) <= n,
        ensures
            d@ > n,
        decreases longest_a - e,
    {
        match d.relation(&a) {
            Relation::Greater => {
                break;
            },
            _ => {},
        }
        proof {
            let p = pow2(e as nat);
            lemma_pow2_pos(e as nat);
            assert(p <= m * p) by (nonlinear_arith)
                requires
                    m > 0,
            ;
            lemma_exponent_below(e as nat, n, longest_a as nat);
            lemma_pow2_unfold((e + 1) as nat);
            assert((m * p) * 2 == m * (2 * p)) by (nonlinear_arith);
        }
        d.multiply_add(2, 0);
        e = e + 1;
    }
    if e > 0 {
        a.multiply_add(2, 0);
        let scaled = Scaled { a, d, e: e - 1 };
        proof {
            let p = pow2((e - 1) as nat);
            lemma2_to64();
            lemma_pow2_unfold(e as nat);
            assert(n * 2 == n * pow2(1));
            assert(m * (2 * p) == 2 * (m * p)) by (nonlinear_arith);
            assert(is_scaled(n, m, scaled, 1, e as nat));
        }
        return scaled;
    }
    let mut j: i128 = 0;
    proof {
        assert(n * 1 == n) by (nonlinear_arith);
    }
    loop
        invariant
            n > 0,
            m > 0,
            n < m,
            d@ == m,
            a@ == n * pow2(j as nat),
            m < pow2(longest_d as nat),
            0 <= j <= longest_d <= 0xffff_ffff_ffff_ffff * 32,
            j > 0 ==> n * pow2((j - 1) as nat) < m,
            j == 0 ==> a@ == n,
        ensures
            a@ >= m,
        decreases longest_d - j,
    {
        match a.relation(&d) {
            Relation::Less => {},
            _ => {
                break;
            },
        }
        proof {
            let p = pow2(j as nat);
            assert(p <= n * p) by (nonlinear_arith)
                requires
                    n > 0,
            ;
            lemma_exponent_below(j as nat, m, longest_d as nat);
            lemma_pow2_unfold((j + 1) as nat);
            assert((n * p) * 2 == n * (2 * p)) by (nonlinear_arith);
        }
        a.multiply_add(2, 0);
        j = j + 1;
    }
    let scaled = Scaled { a, d, e: -j };
    proof {
        let p = pow2((j - 1) as nat);
        lemma2_to64();
        lemma_pow2_unfold(j as nat);
        assert(n * (2 * p) == 2 * (n * p)) by (nonlinear_arith);
        assert(m * 1 == m) by (nonlinear_arith);
        assert(is_scaled(n, m, scaled, j as nat, 0));
    }
    scaled
}

/// Divides in binary: `count` digits of `a / d`, of which the first stands for 1, rounded to the
/// nearest integer.
fn divide(a: BigNat, d: &BigNat, count: u64) -> (quotient: u64)
    requires
        count <= 53,
        d@ <= a@ < 2 * d@,
    ensures
        quotient == crate::double::round_half_even(a@ * pow2(count as nat), 2 * d@),
        quotient <= 0x20_0000_0000_0000,
        count > 0 ==> quotient >= pow2((count - 1) as nat),
{
    let ghost n = a@;
    let ghost m = d@;
    let mut r = a;
    let mut quotient: u64 = 0;
    let mut i: u64 = 0;
    proof {
        lemma2_to64();
        assert(n * 1 == n) by (nonlinear_arith);
        assert(2 * (0 * m) == 0) by (nonlinear_arith);
    }
    while i < count
        invariant
            i <= count <= 53,
            m == d@,
            m <= n < 2 * m,
            n * pow2(i as nat) == 2 * (quotient * m) + r@,
            r@ < 2 * m,
            quotient < pow2(i as nat),
            i == 0 ==> r@ == n,
            i > 0 ==> quotient >= pow2((i - 1) as nat),
        decreases count - i,
    {
        proof {
            let p = pow2(i as nat);
            lemma_pow2_unfold((i + 1) as nat);
            if i > 0 {
                lemma_pow2_unfold(i as nat);
            }
            lemma2_to64();
            lemma2_to64_rest();
            if i + 1 < 53 {
                lemma_pow2_strictly_increases((i + 1) as nat, 53);
            }
            assert(n * (2 * p) == 2 * (n * p)) by (nonlinear_arith);
        }
        let ghost before = r@;
        let ghost earlier = quotient;
        let fits = match r.relation(d) {
            Relation::Less => false,
            _ => true,
        };
        if fits {
            r.subtract(d);
            quotient = 2 * quotient + 1;
            assert(2 * (quotient * m) == 4 * (earlier * m) + 2 * m) by (nonlinear_arith)
                requires
                    quotient == 2 * earlier + 1,
            ;
        } else {
            quotient = 2 * quotient;
            assert(2 * (quotient * m) == 4 * (earlier * m)) by (nonlinear_arith)
                requires
                    quotient == 2 * earlier,
            ;
        }
        r.multiply_add(2, 0);
        i = i + 1;
    }
    proof {
        let whole = (n * pow2(count as nat)) as int;
        assert(quotient * (2 * m) == 2 * (quotient * m)) by (nonlinear_arith);
        lemma_fundamental_div_mod_converse(whole, 2 * m as int, quotient as int, r@ as int);
        lemma2_to64();
        lemma2_to64_rest();
        if count < 53 {
            lemma_pow2_strictly_increases(count as nat, 53);
        }
    }
    let up = match r.relation(d) {
        Relation::Less => false,
        Relation::Equal => quotient % 2 == 1,
        Relation::Greater => true,
    };
    if up {
        quotient + 1
    } else {
        quotient
    }
}

/// The double that is nearest to a positive fraction, a tie to the one whose lowest digit is 0;
/// infinity where it is too large.
pub fn ratio_to_double(num: BigNat, den: BigNat) -> (bits: u64)
    requires
        num@ > 0,
        den@ > 0,
    ensures
        bits == ratio_key(num@, den@),
        bits <= INFINITY_BITS,
{
    let ghost n = num@;
    let ghost m = den@;
    let scaled = scale(num, den);
    let e = scaled.e;
    let ghost (x, y) = choose|x: nat, y: nat| is_scaled(n, m, scaled, x, y);
    let ghost q = lowest_exponent(e as int);
    proof {
        lemma_one_binade(n, m, e as int, binade(n, m));
    }
    if e < -1075 {
        proof {
            lemma_tiny(n, m, e as int);
        }
        return 0;
    }
    if e > 1023 {
        proof {
            lemma_units_of_scaled(n, m, x, y, q, 53);
            lemma_huge(scaled.a@, scaled.d@);
        }
        return INFINITY_BITS;
    }
    let lowest: i128 = if e - 52 >= -1074 {
        e - 52
    } else {
        -1074
    };
    let count: u64 = (e - lowest + 1) as u64;
    let quotient = divide(scaled.a, &scaled.d, count);
    proof {
        lemma_units_of_scaled(n, m, x, y, q, count as nat);
    }
    let key: u64 = quotient + (lowest + 1074) as u64 * 0x10_0000_0000_0000;
    if key >= INFINITY_BITS {
        INFINITY_BITS
    } else {
        key
    }
}

/// A fraction below half of the smallest double rounds to zero.
proof fn lemma_tiny(num: nat, den: nat, e: int)
    requires
        den > 0,
        in_binade(num, den, e),
        e < -1075,
    ensures
        key_in_binade(num, den, e) == 0,
{
    let k = (-e - 1076) as nat;
    let p = pow2(1074);
    let t = pow2(k);
    lemma_pow2_adds(1074, 2);
    lemma_pow2_adds(1076, k);
    lemma2_to64();
    lemma_pow2_pos(k);
    assert(pow2((-e) as nat) == (p * 4) * t);
    assert(2 * (num * p) < den) by (nonlinear_arith)
        requires
            num * ((p * 4) * t) < 2 * den,
            t >= 1,
    ;
    lemma_fundamental_div_mod_converse((num * p) as int, den as int, 0, (num * p) as int);
}

/// 53 digits of a fraction in the binade of 1 are at least 2^52 units.
proof fn lemma_huge(a: nat, d: nat)
    requires
        d <= a < 2 * d,
    ensures
        crate::double::round_half_even(a * pow2(53), 2 * d) >= 0x10_0000_0000_0000,
{
    lemma2_to64_rest();
    assert((a * 0x20_0000_0000_0000) / (2 * d) >= 0x10_0000_0000_0000) by (nonlinear_arith)
        requires
            d <= a,
            d > 0,
    ;
}

/// The double that is nearest to a fraction in a binade beyond the last is infinity.
pub(crate) proof fn lemma_infinite(num: nat, den: nat, e: int)
    requires
        num > 0,
        den > 0,
        in_binade(num, den, e),
        e > 1023,
    ensures
        ratio_key(num, den) == INFINITY_BITS,
{
    let q = (e - 52) as nat;
    let d = den * pow2(q);
    lemma_one_binade(num, den, e, binade(num, den));
    lemma_pow2_adds(52, q);
    lemma_pow2_pos(q);
    lemma2_to64_rest();
    let p = pow2(q);
    assert(den * (0x10_0000_0000_0000 * p) == 0x10_0000_0000_0000 * (den * p)) by (nonlinear_arith);
    assert(d > 0) by (nonlinear_arith)
        requires
            d == den * p,
            den > 0,
            p > 0,
    ;
    assert(num / d >= 0x10_0000_0000_0000) by (nonlinear_arith)
        requires
            0x10_0000_0000_0000 * d <= num,
            d > 0,
    ;
}

/// The double that is nearest to a fraction in a binade below the first is zero.
pub(crate) proof fn lemma_zero(num: nat, den: nat, e: int)
    requires
        num > 0,
        den > 0,
        in_binade(num, den, e),
        e < -1075,
    ensures
        ratio_key(num, den) == 0,
{
    lemma_one_binade(num, den, e, binade(num, den));
    lemma_tiny(num, den, e);
}

/// The double that is nearest to a fraction, given its binade.
pub(crate) proof fn lemma_key_in_binade(num: nat, den: nat, e: int)
    requires
        num > 0,
        den > 0,
        in_binade(num, den, e),
    ensures
        ratio_key(num, den) == key_in_binade(num, den, e),
{
    lemma_one_binade(num, den, e, binade(num, den));
}

} // verus!
