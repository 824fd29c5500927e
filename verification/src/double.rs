//! Doubles, held by their 64 bits.
//!
//! The order of two doubles can be read off their bits, so comparing them is integer arithmetic.

use vstd::arithmetic::power2::*;
use vstd::prelude::*;

verus! {

/// The bits of positive infinity: the largest magnitude of a number.
pub const INFINITY_BITS: u64 = 0x7ff0_0000_0000_0000;

/// The bit that holds a double's sign.
pub const SIGN_BIT: u64 = 0x8000_0000_0000_0000;

/// The place of a double in the order of all doubles. Both zeros have place 0, and a double and
/// its negation have opposite places.
pub open spec fn order_key(bits: u64) -> int {
    if bits < SIGN_BIT {
        bits as int
    } else {
        SIGN_BIT - bits
    }
}

/// Whether a place in the order is that of a finite double or of an infinity.
pub open spec fn is_ordered(key: int) -> bool {
    -INFINITY_BITS <= key <= INFINITY_BITS
}

/// Whether a place in the order is that of a finite double.
pub open spec fn is_finite(key: int) -> bool {
    -INFINITY_BITS < key < INFINITY_BITS
}

/// What a place in the order stands for: the place, or nothing for "not a number".
pub open spec fn ordered(key: int) -> Option<int> {
    if is_ordered(key) {
        Some(key)
    } else {
        None
    }
}

/// What a double's bits stand for: its place in the order, or nothing for "not a number".
pub open spec fn double(bits: u64) -> Option<int> {
    ordered(order_key(bits))
}

/// The largest `e` with `2^e <= n`, for a positive `n`.
pub open spec fn floor_log2(n: nat) -> nat
    decreases n,
{
    if n <= 1 {
        0
    } else {
        1 + floor_log2(n / 2)
    }
}

/// `n / d`, rounded to the nearest integer, a tie to the even one.
pub open spec fn round_half_even(n: nat, d: nat) -> nat {
    if 2 * (n % d) > d || (2 * (n % d) == d && (n / d) % 2 == 1) {
        n / d + 1
    } else {
        n / d
    }
}

/// The 53 leading binary digits of a positive `n` with `floor_log2(n) == e`, rounded.
pub open spec fn significand(n: nat, e: nat) -> nat {
    if e <= 52 {
        n * pow2((52 - e) as nat)
    } else {
        round_half_even(n, pow2((e - 52) as nat))
    }
}

/// The place in the order of the double that is nearest to the integer `n`.
pub open spec fn natural_key(n: nat) -> nat {
    if n == 0 {
        0
    } else {
        significand(n, floor_log2(n)) + (floor_log2(n) + 1022) * 0x10_0000_0000_0000
    }
}

/// The place in the order of the double that is nearest to the integer `n`.
pub open spec fn integer_key(n: int) -> int {
    if n >= 0 {
        natural_key(n as nat) as int
    } else {
        -(natural_key((-n) as nat) as int)
    }
}

/// What `floor_log2` promises.
pub proof fn lemma_floor_log2(n: nat)
    requires
        n > 0,
    ensures
        pow2(floor_log2(n)) <= n < pow2(floor_log2(n) + 1),
    decreases n,
{
    if n == 1 {
        lemma2_to64();
    } else {
        lemma_floor_log2(n / 2);
        lemma_pow2_unfold(floor_log2(n));
        lemma_pow2_unfold(floor_log2(n) + 1);
    }
}

/// The significand of a positive integer has 53 binary digits, or is the next power of two.
pub(crate) proof fn lemma_significand(n: nat)
    requires
        n > 0,
    ensures
        0x10_0000_0000_0000 <= significand(n, floor_log2(n)) <= 0x20_0000_0000_0000,
        floor_log2(n) <= 52 ==> significand(n, floor_log2(n)) < 0x20_0000_0000_0000,
{
    let e = floor_log2(n);
    lemma_floor_log2(n);
    lemma2_to64_rest();
    if e <= 52 {
        let k = (52 - e) as nat;
        lemma_pow2_adds(e, k);
        lemma_pow2_adds(e + 1, k);
        lemma_pow2_pos(k);
        assert(pow2(e) * pow2(k) <= n * pow2(k) < pow2(e + 1) * pow2(k)) by (nonlinear_arith)
            requires
                pow2(e) <= n < pow2(e + 1),
                pow2(k) > 0,
        ;
    } else {
        let k = (e - 52) as nat;
        let d = pow2(k);
        lemma_pow2_pos(k);
        lemma_pow2_adds(52, k);
        lemma_pow2_adds(53, k);
        assert(0x10_0000_0000_0000 <= n / d < 0x20_0000_0000_0000) by (nonlinear_arith)
            requires
                0x10_0000_0000_0000 * d <= n < 0x20_0000_0000_0000 * d,
                d > 0,
        ;
    }
}

/// A power of two, for an exponent below 64.
fn power_of_two(exponent: u64) -> (power: u64)
    requires
        exponent < 64,
    ensures
        power == pow2(exponent as nat),
{
    let mut power: u64 = 1;
    let mut i: u64 = 0;
    proof {
        lemma2_to64();
    }
    while i < exponent
        invariant
            i <= exponent < 64,
            power == pow2(i as nat),
        decreases exponent - i,
    {
        proof {
            lemma_pow2_unfold((i + 1) as nat);
            lemma2_to64();
            lemma2_to64_rest();
            if i + 1 < 63 {
                lemma_pow2_strictly_increases((i + 1) as nat, 63);
            }
        }
        power = power * 2;
        i = i + 1;
    }
    power
}

/// The double that is nearest to `n`, as the conversion of an integer to a double gives it.
pub fn u64_to_double(n: u64) -> (bits: u64)
    ensures
        order_key(bits) == natural_key(n as nat),
        is_finite(order_key(bits)),
{
    if n == 0 {
        return 0;
    }
    let mut exponent: u64 = 0;
    let mut rest: u64 = n;
    proof {
        lemma_floor_log2(n as nat);
        lemma2_to64();
        lemma2_to64_rest();
        assert(floor_log2(n as nat) < 64) by {
            if floor_log2(n as nat) > 64 {
                lemma_pow2_strictly_increases(64, floor_log2(n as nat));
            }
        }
    }
    while rest > 1
        invariant
            rest > 0,
            exponent + floor_log2(rest as nat) == floor_log2(n as nat),
            floor_log2(n as nat) < 64,
        decreases rest,
    {
        rest = rest / 2;
        exponent = exponent + 1;
    }
    proof {
        lemma_significand(n as nat);
    }
    let digits: u64 = if exponent <= 52 {
        n * power_of_two(52 - exponent)
    } else {
        let d = power_of_two(exponent - 52);
        proof {
            lemma_pow2_pos((exponent - 52) as nat);
            lemma_pow2_strictly_increases((exponent - 52) as nat, 12);
        }
        let quotient: u64 = n / d;
        let remainder: u64 = n % d;
        if 2 * remainder > d || (2 * remainder == d && quotient % 2 == 1) {
            quotient + 1
        } else {
            quotient
        }
    };
    digits + (exponent + 1022) * 0x10_0000_0000_0000
}

/// The double that is nearest to `n`, as the conversion of an integer to a double gives it.
pub fn i64_to_double(n: i64) -> (bits: u64)
    ensures
        order_key(bits) == integer_key(n as int),
        is_finite(order_key(bits)),
{
    if n >= 0 {
        u64_to_double(n as u64)
    } else {
        let magnitude: u64 = if n == i64::MIN {
            SIGN_BIT
        } else {
            (-n) as u64
        };
        u64_to_double(magnitude) + SIGN_BIT
    }
}

/// The place of a double in the order of all doubles.
pub fn double_key(bits: u64) -> (key: i64)
    ensures
        key == order_key(bits),
{
    if bits < SIGN_BIT {
        bits as i64
    } else {
        -((bits - SIGN_BIT) as i64)
    }
}

/// Whether the bits are those of a finite double.
pub fn is_finite_double(bits: u64) -> (finite: bool)
    ensures
        finite == is_finite(order_key(bits)),
{
    let key: i64 = double_key(bits);
    -(INFINITY_BITS as i64) < key && key < INFINITY_BITS as i64
}

/// Whether `a` is less than `b`. Nothing is less than "not a number", nor is that less than
/// anything.
pub fn double_less(a: u64, b: u64) -> (less: bool)
    ensures
        less == match (double(a), double(b)) {
            (Some(x), Some(y)) => x < y,
            _ => false,
        },
{
    let infinity: i64 = INFINITY_BITS as i64;
    let x: i64 = double_key(a);
    let y: i64 = double_key(b);
    -infinity <= x && x < y && y <= infinity
}

/// Whether `a` is less than or equal to `b`. "Not a number" is not even equal to itself.
pub fn double_at_most(a: u64, b: u64) -> (at_most: bool)
    ensures
        at_most == match (double(a), double(b)) {
            (Some(x), Some(y)) => x <= y,
            _ => false,
        },
{
    let infinity: i64 = INFINITY_BITS as i64;
    let x: i64 = double_key(a);
    let y: i64 = double_key(b);
    -infinity <= x && x <= y && y <= infinity
}

/// Integers up to 2^53 are doubles, and comparing them as doubles compares them as integers.
pub proof fn law_integers_keep_their_order(a: int, b: int)
    requires
        -0x20_0000_0000_0000 <= a <= 0x20_0000_0000_0000,
        -0x20_0000_0000_0000 <= b <= 0x20_0000_0000_0000,
    ensures
        integer_key(a) < integer_key(b) <==> a < b,
        integer_key(a) == integer_key(b) <==> a == b,
{
    let x = (if a >= 0 { a } else { -a }) as nat;
    let y = (if b >= 0 { b } else { -b }) as nat;
    lemma_natural_order(x, y);
    lemma_natural_order(y, x);
    lemma_natural_order(0, x);
    lemma_natural_order(0, y);
}

/// Comparing doubles never turns the order of two integers round.
pub proof fn law_integers_never_swap(a: nat, b: nat)
    requires
        a <= b,
    ensures
        natural_key(a) <= natural_key(b),
{
    if a > 0 && floor_log2(a) == floor_log2(b) {
        let e = floor_log2(a);
        if e <= 52 {
            assert(a * pow2((52 - e) as nat) <= b * pow2((52 - e) as nat)) by (nonlinear_arith)
                requires
                    a <= b,
            ;
        } else {
            lemma_pow2_pos((e - 52) as nat);
            lemma_rounding_monotone(a, b, pow2((e - 52) as nat));
        }
    } else if a > 0 {
        lemma_significand(a);
        lemma_significand(b);
        lemma_log2_monotone(a, b);
        assert(floor_log2(a) + 1 <= floor_log2(b));
    } else if b > 0 {
        lemma_significand(b);
    }
}

/// A larger number has no smaller logarithm.
proof fn lemma_log2_monotone(a: nat, b: nat)
    requires
        0 < a <= b,
    ensures
        floor_log2(a) <= floor_log2(b),
    decreases b,
{
    if a > 1 {
        lemma_log2_monotone(a / 2, b / 2);
    }
}

/// A larger fraction is not rounded to a smaller integer.
proof fn lemma_rounding_monotone(a: nat, b: nat, d: nat)
    requires
        a <= b,
        d > 0,
    ensures
        round_half_even(a, d) <= round_half_even(b, d),
{
    assert(a / d <= b / d) by (nonlinear_arith)
        requires
            a <= b,
            d > 0,
    ;
    if a / d == b / d {
        assert(a % d <= b % d) by (nonlinear_arith)
            requires
                a <= b,
                d > 0,
                a / d == b / d,
        ;
    }
}

/// Integers up to 2^53 have doubles in the same order.
proof fn lemma_natural_order(a: nat, b: nat)
    requires
        a <= 0x20_0000_0000_0000,
        b <= 0x20_0000_0000_0000,
    ensures
        a < b ==> natural_key(a) < natural_key(b),
{
    if a < b {
        lemma_floor_log2(b);
        lemma_significand(b);
        lemma2_to64();
        lemma2_to64_rest();
        if a > 0 {
            lemma_floor_log2(a);
            lemma_significand(a);
            lemma_log2_monotone(a, b);
            assert(floor_log2(a) <= 52) by {
                if floor_log2(a) > 53 {
                    lemma_pow2_strictly_increases(53, floor_log2(a));
                }
            }
            let e = floor_log2(a);
            if e == floor_log2(b) {
                lemma_pow2_pos((52 - e) as nat);
                assert(a * pow2((52 - e) as nat) < b * pow2((52 - e) as nat)) by (nonlinear_arith)
                    requires
                        a < b,
                        pow2((52 - e) as nat) > 0,
                ;
            }
        }
    }
}

} // verus!
