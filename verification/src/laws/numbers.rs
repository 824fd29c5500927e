//! Which numbers texts denote, and which doubles stand for them.

use vstd::arithmetic::power::*;
use vstd::arithmetic::power2::*;
use vstd::prelude::*;

verus! {

/// Whether an integer is the one nearest to a fraction, of two that are equally near the even one.
pub open spec fn is_nearest(rounded: nat, num: nat, den: nat) -> bool {
    &&& -(den as int) <= 2 * (num - rounded * den) <= den
    &&& 2 * (num - rounded * den) == den || 2 * (num - rounded * den) == -(den as int)
        ==> rounded % 2 == 0
}

/// A fraction is rounded to the nearest integer, a tie to the even one.
pub proof fn law_rounding_is_to_the_nearest(num: nat, den: nat)
    requires
        den > 0,
    ensures
        is_nearest(crate::double::round_half_even(num, den), num, den),
{
    let quotient = num / den;
    let remainder = num % den;
    vstd::arithmetic::div_mod::lemma_fundamental_div_mod(num as int, den as int);
    vstd::arithmetic::div_mod::lemma_mod_bound(num as int, den as int);
    assert(quotient * den == den * quotient) by (nonlinear_arith);
    assert((quotient + 1) * den == quotient * den + den) by (nonlinear_arith);
}

/// A positive fraction is held by the double nearest to it: in the binade of the fraction, with 53
/// binary digits, or fewer where it is very small. One that is too large for any is infinite.
pub proof fn law_fractions_are_held_by_the_nearest_double(num: nat, den: nat, e: int)
    requires
        num > 0,
        den > 0,
        e >= 0 ==> den * pow2(e as nat) <= num < 2 * (den * pow2(e as nat)),
        e < 0 ==> den <= num * pow2((-e) as nat) < 2 * den,
    ensures
        ({
            let q = if e - 52 >= -1074 {
                e - 52
            } else {
                -1074
            };
            let units = crate::rational::in_units(num, den, q);
            let place = units + (q + 1074) * 0x10_0000_0000_0000;
            &&& q >= 0 ==> is_nearest(units, num, den * pow2(q as nat))
            &&& q < 0 ==> is_nearest(units, num * pow2((-q) as nat), den)
            &&& crate::rational::ratio_key(num, den) == if place >= 0x7ff0_0000_0000_0000 {
                0x7ff0_0000_0000_0000
            } else {
                place
            }
        }),
{
    let q = if e - 52 >= -1074 {
        e - 52
    } else {
        -1074
    };
    crate::rational::lemma_key_in_binade(num, den, e);
    if q >= 0 {
        lemma_pow2_pos(q as nat);
        assert(den * pow2(q as nat) > 0) by (nonlinear_arith)
            requires
                den > 0,
                pow2(q as nat) > 0,
        ;
        law_rounding_is_to_the_nearest(num, den * pow2(q as nat));
    } else {
        law_rounding_is_to_the_nearest(num * pow2((-q) as nat), den);
    }
}

/// An integer is held by the double nearest to it, as a fraction is; its negation is on the other
/// side of zero.
pub proof fn law_integers_are_held_by_the_nearest_double(n: u64)
    ensures
        crate::double::integer_key(n as int) == crate::rational::ratio_key(n as nat, 1),
        crate::double::integer_key(-(n as int)) == -crate::double::integer_key(n as int),
        crate::rational::ratio_key(0, 1) == 0,
{
    crate::numeral::lemma_integer_ratio(n as nat);
}

/// A double is where its bits put it: the bits of a positive one in their order, and those of a
/// negative one on the other side of zero. Beyond infinity is "not a number".
pub proof fn law_bits_are_in_order(bits: u64)
    ensures
        bits <= 0x7ff0_0000_0000_0000 ==> crate::double::double(bits) == Some(bits as int),
        0x7ff0_0000_0000_0000 < bits < 0x8000_0000_0000_0000 ==> crate::double::double(bits)
            is None,
        0x8000_0000_0000_0000 <= bits <= 0xfff0_0000_0000_0000 ==> crate::double::double(bits)
            == Some(0x8000_0000_0000_0000 - bits),
        0xfff0_0000_0000_0000 < bits ==> crate::double::double(bits) is None,
{
}

// ── Texts ───────────────────────────────────────────────────────────────────

/// Whether a text is made of decimal digits.
pub open spec fn all_digits(s: Seq<char>) -> bool {
    forall|i: int| 0 <= i < s.len() ==> '0' <= #[trigger] s[i] <= '9'
}

/// Digits stand for a number to the base of ten.
pub proof fn law_digits_count_tens(digits: Seq<char>, last: char)
    requires
        '0' <= last <= '9',
    ensures
        crate::numeral::number_of(Seq::empty()) == 0,
        crate::numeral::number_of(digits.push(last)) == 10 * crate::numeral::number_of(digits) + (
        last as int - '0' as int),
{
    assert(digits.push(last).drop_last() =~= digits);
}

/// The digits at the beginning of a text are counted up to the first other character.
proof fn lemma_count(digits: Seq<char>, rest: Seq<char>)
    requires
        all_digits(digits),
        rest.len() > 0 ==> !('0' <= rest[0] <= '9'),
    ensures
        crate::numeral::leading_digits(digits + rest) == digits.len(),
    decreases digits.len(),
{
    let s = digits + rest;
    if digits.len() > 0 {
        assert(s[0] == digits[0]);
        assert(s.skip(1) =~= digits.skip(1) + rest);
        assert forall|i: int| 0 <= i < digits.skip(1).len() implies '0' <= #[trigger] digits.skip(
            1,
        )[i] <= '9' by {
            assert(digits.skip(1)[i] == digits[i + 1]);
        }
        lemma_count(digits.skip(1), rest);
    } else {
        assert(s =~= rest);
    }
}

/// The exponent that a text ends with: a mark, a sign or none, and digits.
pub open spec fn exponent_text(mark: char, sign: Option<char>, digits: Seq<char>) -> Seq<char> {
    match sign {
        Some(c) => seq![mark, c] + digits,
        None => seq![mark] + digits,
    }
}

/// What the end of a number makes of its exponent.
proof fn lemma_exponent(mark: char, sign: Option<char>, digits: Seq<char>)
    requires
        mark == 'e' || mark == 'E',
        sign matches Some(c) ==> c == '+' || c == '-',
        all_digits(digits),
        digits.len() > 0,
    ensures
        crate::numeral::exponent_of(exponent_text(mark, sign, digits)) == Some(
            if sign == Some('-') {
                -(crate::numeral::number_of(digits) as int)
            } else {
                crate::numeral::number_of(digits) as int
            },
        ),
{
    let s = exponent_text(mark, sign, digits);
    let after = s.skip(1);
    match sign {
        Some(c) => {
            assert(after =~= seq![c] + digits);
            assert(after.skip(1) =~= digits);
        },
        None => {
            assert(after =~= digits);
            assert('0' <= digits[0] <= '9');
        },
    }
    lemma_count(digits, Seq::empty());
    assert(digits + Seq::<char>::empty() =~= digits);
}

/// A text of digits, with a point somewhere or none, and with an exponent or none, denotes the
/// number that the digits stand for, with as many places as follow the point, times the power of
/// ten that the exponent names.
pub proof fn law_texts_denote_decimal_numbers(
    whole: Seq<char>,
    point: bool,
    places: Seq<char>,
    exponent: Option<(char, Option<char>, Seq<char>)>,
)
    requires
        all_digits(whole),
        all_digits(places),
        !point ==> places.len() == 0,
        whole.len() + places.len() > 0,
        exponent matches Some((mark, sign, digits)) ==> (mark == 'e' || mark == 'E') && (
        sign matches Some(c) ==> c == '+' || c == '-') && all_digits(digits) && digits.len() > 0,
    ensures
        ({
            let head = if point {
                whole + seq!['.'] + places
            } else {
                whole
            };
            let tail = match exponent {
                Some((mark, sign, digits)) => exponent_text(mark, sign, digits),
                None => Seq::empty(),
            };
            let power = match exponent {
                Some((_, sign, digits)) => if sign == Some('-') {
                    -(crate::numeral::number_of(digits) as int)
                } else {
                    crate::numeral::number_of(digits) as int
                },
                None => 0,
            } - places.len();
            let m = crate::numeral::number_of(whole + places);
            &&& crate::numeral::double_of_text(head + tail) matches Some(Some(key))
            &&& power >= 0 ==> key == crate::rational::ratio_key(
                (m * pow(10, power as nat)) as nat,
                1,
            )
            &&& power < 0 ==> key == crate::rational::ratio_key(m, pow(10, (-power) as nat) as nat)
        }),
{
    let head = if point {
        whole + seq!['.'] + places
    } else {
        whole
    };
    let tail: Seq<char> = match exponent {
        Some((mark, sign, digits)) => exponent_text(mark, sign, digits),
        None => Seq::empty(),
    };
    let s = head + tail;
    if let Some((mark, sign, digits)) = exponent {
        lemma_exponent(mark, sign, digits);
        assert(tail[0] == mark);
    }
    reveal_strlit("nan");
    reveal_strlit("NAN");
    reveal_strlit("inf");
    reveal_strlit("INF");
    reveal_strlit("infinity");
    reveal_strlit("INFINITY");
    assert(s.len() > 0);
    assert('0' <= s[0] <= '9' || s[0] == '.') by {
        if whole.len() > 0 {
            assert(s[0] == whole[0]);
        } else {
            assert(s[0] == '.');
        }
    }
    assert(crate::numeral::without_sign(s) == (false, s));
    assert(!crate::numeral::spells(s, "nan"@, "NAN"@)) by {
        assert("nan"@[0] == 'n' && "NAN"@[0] == 'N');
    }
    assert(!crate::numeral::spells(s, "inf"@, "INF"@)) by {
        assert("inf"@[0] == 'i' && "INF"@[0] == 'I');
    }
    assert(!crate::numeral::spells(s, "infinity"@, "INFINITY"@)) by {
        assert("infinity"@[0] == 'i' && "INFINITY"@[0] == 'I');
    }
    if point {
        let rest = seq!['.'] + places + tail;
        assert(s =~= whole + rest);
        assert(rest[0] == '.');
        lemma_count(whole, rest);
        assert(s.skip(whole.len() as int) =~= rest);
        assert(rest.skip(1) =~= places + tail);
        lemma_count(places, tail);
        assert((places + tail).skip(places.len() as int) =~= tail);
        assert((places + tail).take(places.len() as int) =~= places);
        assert(s.take(whole.len() as int) =~= whole);
    } else {
        assert(s =~= whole + tail);
        lemma_count(whole, tail);
        assert(s.skip(whole.len() as int) =~= tail);
        assert(tail.skip(0) =~= tail);
        assert(s.take(whole.len() as int) + tail.take(0) =~= whole + places);
    }
}

/// Whether a character can stand in a decimal number.
pub open spec fn is_numeric(c: char) -> bool {
    '0' <= c <= '9' || c == '.' || c == 'e' || c == 'E' || c == '+' || c == '-'
}

/// Whether a text is a word, in letters of either size.
pub open spec fn is_word(s: Seq<char>, small: Seq<char>, capital: Seq<char>) -> bool {
    &&& s.len() == small.len()
    &&& forall|i: int| 0 <= i < s.len() ==> #[trigger] s[i] == small[i] || s[i] == capital[i]
}

/// The words for infinity denote it, and those for "not a number" denote that. A text with any other
/// character in it denotes no number, nor does an empty one.
pub proof fn law_words_and_other_texts(s: Seq<char>)
    ensures
        is_word(s, "inf"@, "INF"@) || is_word(s, "infinity"@, "INFINITY"@)
            ==> crate::numeral::double_of_text(s) == Some(Some(0x7ff0_0000_0000_0000int)),
        is_word(s, "nan"@, "NAN"@) ==> crate::numeral::double_of_text(s) == Some(None::<int>),
        s.len() == 0 ==> crate::numeral::double_of_text(s) is None,
        (exists|i: int| 0 <= i < s.len() && !is_numeric(#[trigger] s[i])) && !is_word(
            s,
            "inf"@,
            "INF"@,
        ) && !is_word(s, "infinity"@, "INFINITY"@) && !is_word(s, "nan"@, "NAN"@) && s[0] != '-'
            && s[0] != '+' ==> crate::numeral::double_of_text(s) is None,
{
    reveal_strlit("nan");
    reveal_strlit("NAN");
    reveal_strlit("inf");
    reveal_strlit("INF");
    reveal_strlit("infinity");
    reveal_strlit("INFINITY");
    assert("nan"@.len() == 3 && "nan"@[0] == 'n' && "NAN"@[0] == 'N');
    assert("inf"@.len() == 3 && "inf"@[0] == 'i' && "INF"@[0] == 'I');
    assert("infinity"@.len() == 8 && "infinity"@[0] == 'i' && "INFINITY"@[0] == 'I');
    if crate::numeral::decimal_of(s) is Some {
        lemma_decimal_characters(s);
    }
}

/// The characters of an exponent.
proof fn lemma_exponent_characters(s: Seq<char>)
    requires
        crate::numeral::exponent_of(s) is Some,
    ensures
        forall|i: int| 0 <= i < s.len() ==> is_numeric(#[trigger] s[i]),
{
    if s.len() > 0 {
        let after = s.skip(1);
        let (negative, digits) = crate::numeral::without_sign(after);
        crate::numeral::lemma_leading_digits(digits);
        assert forall|i: int| 0 <= i < s.len() implies is_numeric(#[trigger] s[i]) by {
            if i > 0 {
                assert(s[i] == after[i - 1]);
                if after.len() == digits.len() {
                    assert(digits[i - 1] == after[i - 1]);
                } else if i > 1 {
                    assert(digits[i - 2] == after[i - 1]);
                }
            }
        }
    }
}

/// The characters of a decimal number.
proof fn lemma_decimal_characters(s: Seq<char>)
    requires
        crate::numeral::decimal_of(s) is Some,
    ensures
        s.len() > 0,
        forall|i: int| 0 <= i < s.len() ==> is_numeric(#[trigger] s[i]),
{
    let whole = crate::numeral::leading_digits(s) as int;
    let after = s.skip(whole);
    let has_point = after.len() > 0 && after[0] == '.';
    let tail = if has_point {
        after.skip(1)
    } else {
        after
    };
    let places = if has_point {
        crate::numeral::leading_digits(tail) as int
    } else {
        0
    };
    crate::numeral::lemma_leading_digits(s);
    crate::numeral::lemma_leading_digits(tail);
    let rest = tail.skip(places);
    lemma_exponent_characters(rest);
    let start = if has_point {
        whole + 1
    } else {
        whole
    };
    assert forall|i: int| 0 <= i < s.len() implies is_numeric(#[trigger] s[i]) by {
        if i >= start + places {
            assert(rest[i - start - places] == s[i]);
        } else if i >= start {
            assert(tail[i - start] == s[i]);
        } else if i >= whole {
            assert(after[0] == s[i]);
        }
    }
}

} // verus!
