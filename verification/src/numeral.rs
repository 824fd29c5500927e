//! Texts that denote doubles.

use vstd::arithmetic::mul::*;
use vstd::arithmetic::power::*;
use vstd::arithmetic::power2::*;
use vstd::prelude::*;

use crate::bignat::BigNat;
use crate::double::{INFINITY_BITS, SIGN_BIT};
use crate::rational::ratio_to_double;
use crate::text::characters;

verus! {

/// The bits of a double that is "not a number".
pub const NOT_A_NUMBER_BITS: u64 = 0x7ff8_0000_0000_0000;

/// Whether a character is a decimal digit.
pub open spec fn is_digit(c: char) -> bool {
    '0' <= c <= '9'
}

/// How many digits a text begins with.
pub open spec fn leading_digits(s: Seq<char>) -> nat
    decreases s.len(),
{
    if s.len() > 0 && is_digit(s[0]) {
        1 + leading_digits(s.skip(1))
    } else {
        0
    }
}

/// The number that decimal digits stand for.
pub open spec fn number_of(digits: Seq<char>) -> nat
    decreases digits.len(),
{
    if digits.len() == 0 {
        0
    } else {
        (10 * number_of(digits.drop_last()) + (digits.last() as int - '0' as int)) as nat
    }
}

/// Whether a text begins with a minus sign, and what follows the sign, if there is one.
pub open spec fn without_sign(s: Seq<char>) -> (bool, Seq<char>) {
    if s.len() > 0 && s[0] == '-' {
        (true, s.skip(1))
    } else if s.len() > 0 && s[0] == '+' {
        (false, s.skip(1))
    } else {
        (false, s)
    }
}

/// The exponent that ends a number: `e` or `E`, a sign if need be, and digits. Without one it is 0.
pub open spec fn exponent_of(s: Seq<char>) -> Option<int> {
    if s.len() == 0 {
        Some(0)
    } else if s[0] == 'e' || s[0] == 'E' {
        let (negative, digits) = without_sign(s.skip(1));
        if digits.len() == 0 || leading_digits(digits) < digits.len() {
            None
        } else if negative {
            Some(-(number_of(digits) as int))
        } else {
            Some(number_of(digits) as int)
        }
    } else {
        None
    }
}

/// The decimal number that a text without a sign denotes: its digits as one integer, and the power
/// of ten by which it is multiplied. There is a digit before or after the point.
pub open spec fn decimal_of(s: Seq<char>) -> Option<(nat, int)> {
    let whole = leading_digits(s);
    let after = s.skip(whole as int);
    let has_point = after.len() > 0 && after[0] == '.';
    let tail = if has_point {
        after.skip(1)
    } else {
        after
    };
    let places = if has_point {
        leading_digits(tail)
    } else {
        0
    };
    if whole + places == 0 {
        None
    } else {
        match exponent_of(tail.skip(places as int)) {
            Some(exponent) => Some(
                (number_of(s.take(whole as int) + tail.take(places as int)), exponent - places),
            ),
            None => None,
        }
    }
}

/// The place in the order of the double that is nearest to `m * 10^exponent`.
pub open spec fn decimal_key(m: nat, exponent: int) -> nat {
    if exponent >= 0 {
        crate::rational::ratio_key((m * pow(10, exponent as nat)) as nat, 1)
    } else {
        crate::rational::ratio_key(m, pow(10, (-exponent) as nat) as nat)
    }
}

/// Whether a text spells a word, given in small and in capital letters.
pub open spec fn spells(s: Seq<char>, small: Seq<char>, capital: Seq<char>) -> bool {
    s.len() == small.len() && forall|i: int|
        0 <= i < s.len() ==> #[trigger] s[i] == small[i] || s[i] == capital[i]
}

/// What a text without a sign denotes: `None` where it is no number, and within `Some` the place
/// of the double in the order, `None` for "not a number".
pub open spec fn magnitude_of(s: Seq<char>) -> Option<Option<nat>> {
    if spells(s, "nan"@, "NAN"@) {
        Some(None)
    } else if spells(s, "inf"@, "INF"@) || spells(s, "infinity"@, "INFINITY"@) {
        Some(Some(INFINITY_BITS as nat))
    } else {
        match decimal_of(s) {
            Some((m, exponent)) => Some(Some(decimal_key(m, exponent))),
            None => None,
        }
    }
}

/// The double that a text denotes: `None` where the text is no number, and within `Some` the
/// double's place in the order, `None` for "not a number".
///
/// A number is written as Rust reads it: a sign, digits with a decimal point, an exponent, or one
/// of the words `inf`, `infinity` and `nan`. It denotes the nearest double.
pub open spec fn double_of_text(text: Seq<char>) -> Option<Option<int>> {
    let (negative, body) = without_sign(text);
    match magnitude_of(body) {
        Some(Some(key)) => Some(
            Some(
                if negative {
                    -(key as int)
                } else {
                    key as int
                },
            ),
        ),
        Some(None) => Some(None),
        None => None,
    }
}

// ── Bounds ──────────────────────────────────────────────────────────────────

/// 10^336 is beyond the largest double.
proof fn lemma_ten_is_large()
    ensures
        pow(10, 336) >= pow2(1116),
{
    assert(pow(10, 28) == 10_000_000_000_000_000_000_000_000_000int) by {
        reveal_with_fuel(pow, 29);
    }
    lemma2_to64();
    lemma2_to64_rest();
    lemma_pow2_adds(64, 29);
    assert(pow2(93) == 0x1_0000_0000_0000_0000int * 0x2000_0000);
    let big = pow(10, 28);
    let small = pow2(93) as int;
    assert(big >= small);
    lemma_pow_multiplies(10, 28, 12);
    assert(28nat * 12nat == 336nat) by (nonlinear_arith);
    lemma_pow2(93);
    lemma_pow_multiplies(2, 93, 12);
    assert(93nat * 12nat == 1116nat) by (nonlinear_arith);
    lemma_pow2(1116);
    lemma_pow_monotone_base(small, big, 12);
}

/// The power of a larger number is larger.
proof fn lemma_pow_monotone_base(a: int, b: int, e: nat)
    requires
        0 <= a <= b,
    ensures
        0 <= pow(a, e) <= pow(b, e),
    decreases e,
{
    reveal(pow);
    if e > 0 {
        lemma_pow_monotone_base(a, b, (e - 1) as nat);
        let x = pow(a, (e - 1) as nat);
        let y = pow(b, (e - 1) as nat);
        assert(0 <= a * x <= b * y) by (nonlinear_arith)
            requires
                0 <= a <= b,
                0 <= x <= y,
        ;
    }
}

/// A positive fraction is in a binade.
proof fn lemma_some_binade(num: nat, den: nat) -> (e: int)
    requires
        num > 0,
        den > 0,
    ensures
        crate::rational::in_binade(num, den, e),
        num >= den ==> e >= 0,
    decreases
            if num < den {
                1int
            } else {
                0int
            },
            if num < den {
                den - num
            } else {
                num - den
            },
{
    lemma2_to64();
    if num >= 2 * den {
        let f = lemma_some_binade(num, 2 * den);
        let p = pow2(f as nat);
        lemma_pow2_unfold((f + 1) as nat);
        assert((2 * den) * p == den * (2 * p)) by (nonlinear_arith);
        f + 1
    } else if num >= den {
        assert(den * 1 == den) by (nonlinear_arith);
        0
    } else {
        let f = lemma_some_binade(2 * num, den);
        if f >= 0 {
            assert(f == 0) by {
                if f > 0 {
                    lemma_pow2_unfold(f as nat);
                    lemma_pow2_pos((f - 1) as nat);
                    let p = pow2(f as nat);
                    assert(den * p >= 2 * den) by (nonlinear_arith)
                        requires
                            p >= 2,
                    ;
                }
            }
            assert(den * 1 == den) by (nonlinear_arith);
            assert(num * 2 == num * pow2(1));
            -1
        } else {
            let p = pow2((-f) as nat);
            lemma_pow2_unfold((-f + 1) as nat);
            assert((2 * num) * p == num * (2 * p)) by (nonlinear_arith);
            f - 1
        }
    }
}

/// A decimal number with a large exponent is infinite.
proof fn lemma_large_decimal(m: nat, exponent: int)
    requires
        m > 0,
        exponent >= 336,
    ensures
        decimal_key(m, exponent) == INFINITY_BITS,
{
    let ten = pow(10, exponent as nat);
    let num = (m * ten) as nat;
    lemma_ten_is_large();
    lemma_pow_increases(10, 336, exponent as nat);
    lemma_pow2_pos(1116);
    assert(m * ten >= ten) by (nonlinear_arith)
        requires
            m > 0,
            ten > 0,
    ;
    let e = lemma_some_binade(num, 1);
    assert(1 * pow2(e as nat) == pow2(e as nat)) by (nonlinear_arith);
    lemma_pow2_unfold((e + 1) as nat);
    assert(e >= 1116) by {
        if e + 1 < 1116 {
            lemma_pow2_strictly_increases((e + 1) as nat, 1116);
        }
    }
    crate::rational::lemma_infinite(num, 1, e);
}

/// A decimal number with a small exponent is zero.
proof fn lemma_small_decimal(m: nat, count: nat, exponent: int)
    requires
        m < pow(10, count),
        exponent + count <= -336,
    ensures
        decimal_key(m, exponent) == 0,
{
    if m > 0 {
        let k = (-exponent - count) as nat;
        let den = pow(10, (-exponent) as nat);
        lemma_ten_is_large();
        lemma_pow_increases(10, 336, k);
        lemma_pow_adds(10, count, k);
        lemma_pow_positive(10, count);
        let t = pow(10, k);
        let two = pow2(1116) as int;
        lemma_pow2_pos(1116);
        assert(m * two < den) by (nonlinear_arith)
            requires
                m < pow(10, count),
                two <= t,
                two > 0,
                den == pow(10, count) * t,
        ;
        let e = lemma_some_binade(m, den as nat);
        assert(e < -1075) by {
            if e >= 0 {
                lemma_pow2_pos(e as nat);
                let p = pow2(e as nat) as int;
                assert(den <= den * p) by (nonlinear_arith)
                    requires
                        p >= 1,
                        den > 0,
                ;
                assert(m <= m * two) by (nonlinear_arith)
                    requires
                        two >= 1,
                ;
            } else if e >= -1075 {
                lemma_pow2_strictly_increases((-e) as nat, 1116);
                let p = pow2((-e) as nat) as int;
                assert(m * p <= m * two) by (nonlinear_arith)
                    requires
                        p <= two,
                ;
            }
        }
        crate::rational::lemma_zero(m, den as nat, e);
    } else if exponent >= 0 {
        assert(m * pow(10, exponent as nat) == 0) by (nonlinear_arith)
            requires
                m == 0,
        ;
    }
}

/// Digits stand for a number below the power of ten that has one digit more.
proof fn lemma_number_bound(digits: Seq<char>)
    requires
        forall|i: int| 0 <= i < digits.len() ==> is_digit(#[trigger] digits[i]),
    ensures
        number_of(digits) < pow(10, digits.len()),
    decreases digits.len(),
{
    reveal(pow);
    if digits.len() > 0 {
        let rest = digits.drop_last();
        assert forall|i: int| 0 <= i < rest.len() implies is_digit(#[trigger] rest[i]) by {
            assert(rest[i] == digits[i]);
        }
        lemma_number_bound(rest);
        assert(is_digit(digits[digits.len() - 1]));
    }
}

/// The leading digits of a text are digits.
pub(crate) proof fn lemma_leading_digits(s: Seq<char>)
    ensures
        leading_digits(s) <= s.len(),
        forall|i: int| 0 <= i < leading_digits(s) ==> is_digit(#[trigger] s[i]),
    decreases s.len(),
{
    if s.len() > 0 && is_digit(s[0]) {
        let rest = s.skip(1);
        lemma_leading_digits(rest);
        assert forall|i: int| 0 <= i < leading_digits(s) implies is_digit(#[trigger] s[i]) by {
            if i > 0 {
                assert(s[i] == rest[i - 1]);
            }
        }
    }
}

// ── Reading ─────────────────────────────────────────────────────────────────

/// How many digits there are from a position on.
fn count_digits(chars: &Vec<char>, from: usize) -> (count: usize)
    requires
        from <= chars.len(),
    ensures
        count == leading_digits(chars@.skip(from as int)),
        from + count <= chars.len(),
{
    let mut i: usize = from;
    while i < chars.len() && chars[i] >= '0' && chars[i] <= '9'
        invariant
            from <= i <= chars.len(),
            leading_digits(chars@.skip(from as int)) == i - from + leading_digits(
                chars@.skip(i as int),
            ),
        decreases chars.len() - i,
    {
        assert(chars@.skip(i as int).skip(1) =~= chars@.skip(i + 1));
        i = i + 1;
    }
    i - from
}

/// The value of a digit.
fn digit_value(c: char) -> (value: u32)
    requires
        is_digit(c),
    ensures
        value == c as int - '0' as int,
        value <= 9,
{
    c as u32 - '0' as u32
}

/// Appends digits to a number.
fn append_digits(
    number: &mut BigNat,
    chars: &Vec<char>,
    from: usize,
    count: usize,
    earlier: Ghost<Seq<char>>,
)
    requires
        from + count <= chars.len(),
        forall|i: int| from <= i < from + count ==> is_digit(#[trigger] chars@[i]),
        old(number)@ == number_of(earlier@),
    ensures
        final(number)@ == number_of(earlier@ + chars@.subrange(from as int, from + count)),
{
    let mut i: usize = 0;
    assert(earlier@ + chars@.subrange(from as int, from as int) =~= earlier@);
    while i < count
        invariant
            i <= count,
            from + count <= chars.len(),
            forall|i: int| from <= i < from + count ==> is_digit(#[trigger] chars@[i]),
            number@ == number_of(earlier@ + chars@.subrange(from as int, from + i)),
        decreases count - i,
    {
        let value = digit_value(chars[from + i]);
        proof {
            let next = earlier@ + chars@.subrange(from as int, from + i + 1);
            assert(next.drop_last() =~= earlier@ + chars@.subrange(from as int, from + i));
            assert(next.last() == chars@[from + i]);
        }
        number.multiply_add(10, value);
        i = i + 1;
    }
}

/// Beyond this an exponent is cut off: it makes no difference how much larger it is.
const EXPONENT_LIMIT: i128 = 1_000_000_000_000_000_000_000_000_000_000;

/// A number, cut off at a limit.
spec fn cut_off(n: int) -> int {
    if n >= EXPONENT_LIMIT {
        EXPONENT_LIMIT as int
    } else if n <= -EXPONENT_LIMIT {
        -EXPONENT_LIMIT
    } else {
        n
    }
}

/// The number that digits stand for, cut off at a limit.
fn read_number(chars: &Vec<char>, from: usize) -> (number: i128)
    requires
        from <= chars.len(),
        forall|i: int| from <= i < chars.len() ==> is_digit(#[trigger] chars@[i]),
    ensures
        number == cut_off(number_of(chars@.skip(from as int)) as int),
{
    let ghost digits = chars@.skip(from as int);
    let mut number: i128 = 0;
    let mut i: usize = from;
    assert(digits.take(0) =~= Seq::empty());
    while i < chars.len()
        invariant
            from <= i <= chars.len(),
            digits == chars@.skip(from as int),
            forall|i: int| from <= i < chars.len() ==> is_digit(#[trigger] chars@[i]),
            number == cut_off(number_of(digits.take(i - from)) as int),
        decreases chars.len() - i,
    {
        let value = digit_value(chars[i]) as i128;
        proof {
            assert(digits.take(i + 1 - from).drop_last() =~= digits.take(i - from));
            assert(digits.take(i + 1 - from).last() == chars@[i as int]);
        }
        number = 10 * number + value;
        if number >= EXPONENT_LIMIT {
            number = EXPONENT_LIMIT;
        }
        i = i + 1;
    }
    assert(digits.take(i - from) =~= digits);
    number
}

/// The exponent that ends a number, cut off at a limit.
fn read_exponent(chars: &Vec<char>, from: usize) -> (exponent: Option<i128>)
    requires
        from <= chars.len(),
    ensures
        match (exponent_of(chars@.skip(from as int)), exponent) {
            (Some(expected), Some(found)) => found == cut_off(expected),
            (None, None) => true,
            _ => false,
        },
{
    let ghost s = chars@.skip(from as int);
    if from == chars.len() {
        return Some(0);
    }
    if chars[from] != 'e' && chars[from] != 'E' {
        return None;
    }
    let mut start: usize = from + 1;
    let mut negative: bool = false;
    assert(s.skip(1) =~= chars@.skip(start as int));
    if start < chars.len() {
        if chars[start] == '-' {
            negative = true;
            start = start + 1;
        } else if chars[start] == '+' {
            start = start + 1;
        }
    }
    let ghost digits = chars@.skip(start as int);
    assert(without_sign(s.skip(1)) == (negative, digits)) by {
        if start == from + 2 {
            assert(s.skip(1).skip(1) =~= chars@.skip(from + 2));
        }
    }
    let count = count_digits(chars, start);
    if count == 0 || start + count < chars.len() {
        return None;
    }
    proof {
        lemma_leading_digits(digits);
        assert forall|i: int| start <= i < chars.len() implies is_digit(#[trigger] chars@[i]) by {
            assert(chars@[i] == digits[i - start]);
        }
    }
    let number = read_number(chars, start);
    if negative {
        Some(-number)
    } else {
        Some(number)
    }
}

/// The power of ten with a large exponent.
fn power_of_ten(exponent: u128) -> (power: BigNat)
    ensures
        power@ == pow(10, exponent as nat),
{
    let mut power = BigNat::new(1);
    scale_by_ten(&mut power, exponent);
    assert(1 * pow(10, exponent as nat) == pow(10, exponent as nat));
    power
}

/// Multiplies by a power of ten.
fn scale_by_ten(number: &mut BigNat, exponent: u128)
    ensures
        final(number)@ == old(number)@ * pow(10, exponent as nat),
{
    let ghost start = number@ as int;
    let mut i: u128 = 0;
    proof {
        lemma_pow0(10);
        assert(start * 1 == start) by (nonlinear_arith);
    }
    while i < exponent
        invariant
            i <= exponent,
            number@ == start * pow(10, i as nat),
        decreases exponent - i,
    {
        proof {
            let p = pow(10, i as nat);
            reveal(pow);
            assert(pow(10, (i + 1) as nat) == 10 * p);
            assert(start * (10 * p) == (start * p) * 10) by (nonlinear_arith);
        }
        number.multiply_add(10, 0);
        i = i + 1;
    }
}

/// The double that is nearest to a decimal number, given how many digits it has and its exponent,
/// which may be cut off at a limit.
fn decimal_to_double(number: BigNat, count: u128, exponent: i128, exact: Ghost<int>) -> (bits: u64)
    requires
        number@ < pow(10, count as nat),
        count <= 0x2_0000_0000_0000_0000,
        -0x2_0000_0000_0000_0000 - EXPONENT_LIMIT <= exponent <= EXPONENT_LIMIT,
        exponent == exact@ || (exact@ >= exponent >= 336) || (exact@ <= exponent && exponent + count
            <= -336),
    ensures
        bits == decimal_key(number@, exact@),
        bits <= INFINITY_BITS,
{
    let zero = BigNat::new(0);
    let is_zero = match number.relation(&zero) {
        crate::bignat::Relation::Equal => true,
        _ => false,
    };
    if is_zero {
        assert(exact@ >= 0 ==> 0 * pow(10, exact@ as nat) == 0) by (nonlinear_arith);
        return 0;
    }
    if exponent >= 336 {
        proof {
            lemma_large_decimal(number@, exact@);
        }
        return INFINITY_BITS;
    }
    if exponent + count as i128 <= -336 {
        proof {
            lemma_small_decimal(number@, count as nat, exact@);
        }
        return 0;
    }
    if exponent >= 0 {
        let mut number = number;
        let ghost m = number@ as int;
        scale_by_ten(&mut number, exponent as u128);
        proof {
            lemma_pow_positive(10, exponent as nat);
            let p = pow(10, exponent as nat);
            assert(m * p > 0) by (nonlinear_arith)
                requires
                    m > 0,
                    p > 0,
            ;
        }
        ratio_to_double(number, BigNat::new(1))
    } else {
        proof {
            lemma_pow_positive(10, (-exponent) as nat);
        }
        ratio_to_double(number, power_of_ten((-exponent) as u128))
    }
}

/// The integer that the digits before and after the point of a number make.
fn read_digits(
    chars: &Vec<char>,
    from: usize,
    whole: usize,
    start: usize,
    places: usize,
) -> (number: BigNat)
    requires
        from + whole <= chars.len(),
        start + places <= chars.len(),
        whole == leading_digits(chars@.skip(from as int)),
        places <= leading_digits(chars@.skip(start as int)),
    ensures
        number@ == number_of(
            chars@.skip(from as int).take(whole as int) + chars@.skip(start as int).take(
                places as int,
            ),
        ),
        number@ < pow(10, (whole + places) as nat),
{
    let ghost s = chars@.skip(from as int);
    let ghost tail = chars@.skip(start as int);
    proof {
        lemma_leading_digits(s);
        lemma_leading_digits(tail);
        assert forall|i: int| from <= i < from + whole implies is_digit(#[trigger] chars@[i]) by {
            assert(chars@[i] == s[i - from]);
        }
        assert forall|i: int| start <= i < start + places implies is_digit(#[trigger] chars@[i]) by {
            assert(chars@[i] == tail[i - start]);
        }
    }
    let mut number = BigNat::new(0);
    let ghost first = chars@.subrange(from as int, from + whole);
    let ghost second = chars@.subrange(start as int, start + places);
    append_digits(&mut number, chars, from, whole, Ghost(Seq::empty()));
    assert(Seq::<char>::empty() + first =~= first);
    append_digits(&mut number, chars, start, places, Ghost(first));
    proof {
        assert(first =~= s.take(whole as int));
        assert(second =~= tail.take(places as int));
        let digits = first + second;
        assert forall|i: int| 0 <= i < digits.len() implies is_digit(#[trigger] digits[i]) by {
            if i < first.len() {
                assert(digits[i] == chars@[from + i]);
            } else {
                assert(digits[i] == chars@[start + i - first.len()]);
            }
        }
        lemma_number_bound(digits);
    }
    number
}

/// The decimal number of a text, given where its digits are.
spec fn decimal_at(chars: Seq<char>, from: int, whole: int, start: int, places: int) -> Option<
    (nat, int),
> {
    if whole + places == 0 {
        None
    } else {
        match exponent_of(chars.skip(start + places)) {
            Some(exponent) => Some(
                (
                    number_of(chars.skip(from).take(whole) + chars.skip(start).take(places)),
                    exponent - places,
                ),
            ),
            None => None,
        }
    }
}

/// Where the digits of a number are: how many there are before the point, where those after the
/// point start, and how many those are.
fn find_digits(chars: &Vec<char>, from: usize) -> (found: (usize, usize, usize))
    requires
        from <= chars.len(),
    ensures
        from + found.0 <= chars.len(),
        found.1 + found.2 <= chars.len(),
        found.0 == leading_digits(chars@.skip(from as int)),
        found.2 <= leading_digits(chars@.skip(found.1 as int)),
        decimal_of(chars@.skip(from as int)) == decimal_at(
            chars@,
            from as int,
            found.0 as int,
            found.1 as int,
            found.2 as int,
        ),
{
    let ghost s = chars@.skip(from as int);
    let whole = count_digits(chars, from);
    let point: usize = from + whole;
    assert(s.skip(whole as int) =~= chars@.skip(point as int));
    if point < chars.len() && chars[point] == '.' {
        let start: usize = point + 1;
        let places = count_digits(chars, start);
        assert(s.skip(whole as int).skip(1) =~= chars@.skip(start as int));
        assert(chars@.skip(start as int).skip(places as int) =~= chars@.skip(start + places));
        (whole, start, places)
    } else {
        assert(chars@.skip(point as int).skip(0) =~= chars@.skip(point as int));
        (whole, point, 0)
    }
}

/// The double that a decimal number from a position on denotes.
fn read_decimal(chars: &Vec<char>, from: usize) -> (bits: Option<u64>)
    requires
        from <= chars.len(),
    ensures
        match (decimal_of(chars@.skip(from as int)), bits) {
            (Some((m, exponent)), Some(found)) => found == decimal_key(m, exponent) && found
                <= INFINITY_BITS,
            (None, None) => true,
            _ => false,
        },
{
    let (whole, start, places) = find_digits(chars, from);
    if whole == 0 && places == 0 {
        return None;
    }
    let exponent = match read_exponent(chars, start + places) {
        Some(exponent) => exponent,
        None => {
            return None;
        },
    };
    let ghost exact = exponent_of(chars@.skip(start + places))->0;
    let number = read_digits(chars, from, whole, start, places);
    let count: u128 = whole as u128 + places as u128;
    let lowered: i128 = exponent - places as i128;
    assert(exponent == cut_off(exact));
    assert(lowered == exact - places || (exact - places >= lowered >= 336) || (exact - places
        <= lowered && lowered + count <= -336));
    Some(decimal_to_double(number, count, lowered, Ghost(exact - places)))
}

/// Whether a text from a position on spells a word, given in small and in capital letters.
fn spells_word(chars: &Vec<char>, from: usize, small: &str, capital: &str) -> (yes: bool)
    requires
        from <= chars.len(),
        small@.len() == capital@.len(),
    ensures
        yes == spells(chars@.skip(from as int), small@, capital@),
{
    let ghost s = chars@.skip(from as int);
    let lower = characters(small);
    let upper = characters(capital);
    if chars.len() - from != lower.len() {
        return false;
    }
    let mut i: usize = 0;
    while i < lower.len()
        invariant
            i <= lower.len() == upper.len(),
            chars.len() == from + lower.len(),
            s == chars@.skip(from as int),
            lower@ == small@,
            upper@ == capital@,
            forall|j: int| 0 <= j < i ==> #[trigger] s[j] == small@[j] || s[j] == capital@[j],
        decreases lower.len() - i,
    {
        let c = chars[from + i];
        assert(s[i as int] == c);
        if c != lower[i] && c != upper[i] {
            return false;
        }
        i = i + 1;
    }
    true
}

/// The bits of the double that a text denotes, where it denotes one.
pub fn parse_double(text: &str) -> (bits: Option<u64>)
    ensures
        match bits {
            Some(b) => double_of_text(text@) == Some(crate::double::double(b)),
            None => double_of_text(text@) is None,
        },
{
    let chars = characters(text);
    let mut from: usize = 0;
    let mut negative: bool = false;
    if chars.len() > 0 {
        if chars[0] == '-' {
            negative = true;
            from = 1;
        } else if chars[0] == '+' {
            from = 1;
        }
    }
    let ghost body = chars@.skip(from as int);
    assert(without_sign(text@) == (negative, body)) by {
        assert(text@.skip(0) =~= text@);
    }
    proof {
        reveal_strlit("nan");
        reveal_strlit("NAN");
        reveal_strlit("inf");
        reveal_strlit("INF");
        reveal_strlit("infinity");
        reveal_strlit("INFINITY");
    }
    if spells_word(&chars, from, "nan", "NAN") {
        return Some(NOT_A_NUMBER_BITS);
    }
    let magnitude: u64 = if spells_word(&chars, from, "inf", "INF") || spells_word(
        &chars,
        from,
        "infinity",
        "INFINITY",
    ) {
        INFINITY_BITS
    } else {
        match read_decimal(&chars, from) {
            Some(bits) => bits,
            None => {
                return None;
            },
        }
    };
    if negative {
        Some(SIGN_BIT + magnitude)
    } else {
        Some(magnitude)
    }
}

// ── Laws ────────────────────────────────────────────────────────────────────

/// The double that is nearest to an integer is that of a fraction with denominator 1.
pub(crate) proof fn lemma_integer_ratio(n: nat)
    requires
        n <= u64::MAX,
    ensures
        crate::rational::ratio_key(n, 1) == crate::double::natural_key(n),
{
    if n > 0 {
        let e = crate::double::floor_log2(n);
        let q = e - 52;
        crate::double::lemma_floor_log2(n);
        lemma_pow2_unfold(e + 1);
        lemma2_to64();
        lemma2_to64_rest();
        assert(e < 64) by {
            if e > 64 {
                lemma_pow2_strictly_increases(64, e);
            }
        }
        assert(1 * pow2(e) == pow2(e)) by (nonlinear_arith);
        assert(crate::rational::in_binade(n, 1, e as int));
        crate::rational::lemma_key_in_binade(n, 1, e as int);
        crate::double::lemma_significand(n);
        if q > 0 {
            assert(1 * pow2(q as nat) == pow2(q as nat)) by (nonlinear_arith);
        } else if q == 0 {
            assert(1 * 1nat == 1) by (nonlinear_arith);
            assert(n * 1 == n) by (nonlinear_arith);
            vstd::arithmetic::div_mod::lemma_fundamental_div_mod_converse(n as int, 1, n as int, 0);
        } else {
            let m = (n * pow2((-q) as nat)) as int;
            vstd::arithmetic::div_mod::lemma_fundamental_div_mod_converse(m, 1, m, 0);
        }
    }
}

/// A number in decimal digits is made of digits, which stand for the number.
proof fn lemma_decimal_text(n: nat)
    ensures
        crate::text::decimal_text(n).len() > 0,
        forall|i: int|
            0 <= i < crate::text::decimal_text(n).len() ==> is_digit(
                #[trigger] crate::text::decimal_text(n)[i],
            ),
        number_of(crate::text::decimal_text(n)) == n,
    decreases n,
{
    reveal_strlit("0");
    reveal_strlit("1");
    reveal_strlit("2");
    reveal_strlit("3");
    reveal_strlit("4");
    reveal_strlit("5");
    reveal_strlit("6");
    reveal_strlit("7");
    reveal_strlit("8");
    reveal_strlit("9");
    let s = crate::text::decimal_text(n);
    let d = crate::text::digit_text(n % 10);
    assert(d.len() == 1 && is_digit(d[0]) && d[0] as int - '0' as int == n % 10);
    if n < 10 {
        assert(s.drop_last() =~= Seq::empty());
        assert(number_of(s.drop_last()) == 0);
    } else {
        let rest = crate::text::decimal_text(n / 10);
        lemma_decimal_text(n / 10);
        assert(s =~= rest + d);
        assert(s.drop_last() =~= rest);
        assert(s.last() == d[0]);
        assert forall|i: int| 0 <= i < s.len() implies is_digit(#[trigger] s[i]) by {
            if i < rest.len() {
                assert(s[i] == rest[i]);
            }
        }
    }
}

/// A text of digits only begins with as many digits as it has characters.
proof fn lemma_all_digits(s: Seq<char>)
    requires
        forall|i: int| 0 <= i < s.len() ==> is_digit(#[trigger] s[i]),
    ensures
        leading_digits(s) == s.len(),
    decreases s.len(),
{
    if s.len() > 0 {
        let rest = s.skip(1);
        assert forall|i: int| 0 <= i < rest.len() implies is_digit(#[trigger] rest[i]) by {
            assert(rest[i] == s[i + 1]);
        }
        lemma_all_digits(rest);
    }
}

/// An integer in decimal digits denotes the same double as the integer itself, so that it makes no
/// difference to a comparison of numbers which of the two is given.
pub proof fn law_digits_denote_their_integer(n: u64)
    ensures
        double_of_text(crate::text::decimal_text(n as nat)) == Some(
            Some(crate::double::integer_key(n as int)),
        ),
{
    let s = crate::text::decimal_text(n as nat);
    lemma_decimal_text(n as nat);
    lemma_all_digits(s);
    lemma_integer_ratio(n as nat);
    reveal_strlit("nan");
    reveal_strlit("NAN");
    reveal_strlit("inf");
    reveal_strlit("INF");
    reveal_strlit("infinity");
    reveal_strlit("INFINITY");
    assert(is_digit(s[0]));
    assert(without_sign(s) == (false, s));
    assert(!spells(s, "nan"@, "NAN"@));
    assert(!spells(s, "inf"@, "INF"@));
    assert(!spells(s, "infinity"@, "INFINITY"@));
    let empty = s.skip(s.len() as int);
    assert(empty =~= Seq::empty());
    assert(empty.skip(0) =~= Seq::empty());
    assert(s.take(s.len() as int) + empty.take(0) =~= s);
    lemma_pow0(10);
    assert(n * 1 == n) by (nonlinear_arith);
    assert(decimal_of(s) == Some((n as nat, 0int)));
}

/// Turning the sign of a number round turns its place in the order round.
pub proof fn law_signs_turn_the_order_round(body: Seq<char>)
    requires
        body.len() > 0,
        body[0] != '-',
        body[0] != '+',
    ensures
        match (double_of_text(body), double_of_text(seq!['-'] + body)) {
            (Some(Some(a)), Some(Some(b))) => b == -a,
            (Some(None), Some(None)) => true,
            (None, None) => true,
            _ => false,
        },
        double_of_text(seq!['+'] + body) == double_of_text(body),
{
    assert((seq!['-'] + body).skip(1) =~= body);
    assert((seq!['+'] + body).skip(1) =~= body);
}

} // verus!
