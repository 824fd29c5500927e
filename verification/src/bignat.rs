//! Natural numbers of any size.

use vstd::arithmetic::power2::*;
use vstd::prelude::*;

verus! {

/// The weight of a digit: digits are in base 2^32, the lowest first.
pub open spec fn weight(i: nat) -> nat {
    pow2(32 * i)
}

/// The number that digits in base 2^32 stand for, the lowest first.
pub open spec fn value(digits: Seq<u32>) -> nat
    decreases digits.len(),
{
    if digits.len() == 0 {
        0
    } else {
        value(digits.drop_last()) + digits.last() as nat * weight((digits.len() - 1) as nat)
    }
}

/// The lowest digits.
pub open spec fn low(digits: Seq<u32>, n: int) -> Seq<u32> {
    if n < digits.len() {
        digits.take(n)
    } else {
        digits
    }
}

/// A digit; those above the highest are 0.
pub open spec fn digit(digits: Seq<u32>, i: int) -> nat {
    if i < digits.len() {
        digits[i] as nat
    } else {
        0
    }
}

/// The weight of a digit is 2^32 times that of the one below.
proof fn lemma_weight(i: nat)
    ensures
        weight(i + 1) == 0x1_0000_0000 * weight(i),
        weight(i) > 0,
        weight(0) == 1,
{
    lemma2_to64();
    lemma_pow2_adds(32, 32 * i);
    lemma_pow2_pos(32 * i);
    assert(32 * (i + 1) == 32 + 32 * i);
}

/// One digit more adds what it stands for.
proof fn lemma_low_step(digits: Seq<u32>, i: int)
    requires
        0 <= i,
    ensures
        value(low(digits, i + 1)) == value(low(digits, i)) + digit(digits, i) * weight(i as nat),
{
    if i < digits.len() {
        assert(low(digits, i + 1) =~= digits.take(i + 1));
        assert(digits.take(i + 1).drop_last() =~= digits.take(i));
        assert(low(digits, i) =~= digits.take(i));
    } else {
        assert(0 * weight(i as nat) == 0) by (nonlinear_arith);
    }
}

/// A number is below the weight of the digit above its highest.
proof fn lemma_low_bound(digits: Seq<u32>, n: int)
    requires
        0 <= n,
    ensures
        value(low(digits, n)) < weight(n as nat),
    decreases n,
{
    if n == 0 {
        assert(low(digits, 0).len() == 0);
        lemma_weight(0);
    } else {
        lemma_low_bound(digits, n - 1);
        lemma_low_step(digits, n - 1);
        lemma_weight((n - 1) as nat);
        let d = digit(digits, n - 1);
        let w = weight((n - 1) as nat);
        assert(d * w + w <= 0x1_0000_0000 * w) by (nonlinear_arith)
            requires
                d <= 0xffff_ffff,
        ;
    }
}

/// Cutting off digits changes nothing, or the number is at least as large as their weight.
proof fn lemma_low_or_large(digits: Seq<u32>, n: int)
    requires
        0 <= n,
    ensures
        value(low(digits, n)) <= value(digits),
        value(low(digits, n)) == value(digits) || value(digits) >= weight(n as nat),
    decreases digits.len(),
{
    if n < digits.len() {
        let rest = digits.drop_last();
        lemma_low_or_large(rest, n);
        assert(low(rest, n) =~= low(digits, n));
        let d = digits.last() as nat;
        let w = weight((digits.len() - 1) as nat);
        if d > 0 {
            assert(d * w >= w) by (nonlinear_arith)
                requires
                    d > 0,
            ;
            if n < digits.len() - 1 {
                lemma_pow2_strictly_increases((32 * n) as nat, (32 * (digits.len() - 1)) as nat);
            }
        } else {
            assert(0 * w == 0) by (nonlinear_arith);
        }
    }
}

/// How one number stands to another.
#[derive(Debug, Clone, Copy)]
pub enum Relation {
    Less,
    Equal,
    Greater,
}

/// A natural number of any size.
#[derive(Debug)]
pub struct BigNat {
    digits: Vec<u32>,
}

impl View for BigNat {
    type V = nat;

    closed spec fn view(&self) -> nat {
        value(self.digits@)
    }
}

impl BigNat {
    /// How many digits the number has.
    pub closed spec fn len(&self) -> nat {
        self.digits@.len()
    }

    /// A small number.
    pub fn new(n: u32) -> (number: Self)
        ensures
            number@ == n,
    {
        let mut digits: Vec<u32> = Vec::new();
        digits.push(n);
        proof {
            lemma_weight(0);
            assert(digits@.drop_last() =~= Seq::empty());
            assert(value(digits@.drop_last()) == 0);
        }
        BigNat { digits }
    }

    /// The number of its digits; the number is below their weight.
    pub fn length(&self) -> (n: usize)
        ensures
            n == self.len(),
            self@ < weight(n as nat),
    {
        proof {
            lemma_low_bound(self.digits@, self.digits@.len() as int);
        }
        self.digits.len()
    }

    /// Multiplies by a small number and adds another one.
    pub fn multiply_add(&mut self, factor: u32, summand: u32)
        ensures
            final(self)@ == old(self)@ * factor + summand,
    {
        let ghost before = self.digits@;
        let mut digits: Vec<u32> = Vec::new();
        let mut carry: u64 = summand as u64;
        let mut i: usize = 0;
        proof {
            lemma_weight(0);
            assert(low(before, 0) =~= Seq::empty());
            assert(0 * factor == 0) by (nonlinear_arith);
        }
        while i < self.digits.len()
            invariant
                before == self.digits@,
                i <= before.len(),
                digits.len() == i,
                carry <= 0xffff_ffff,
                value(digits@) + carry * weight(i as nat) == value(low(before, i as int)) * factor
                    + summand,
            decreases before.len() - i,
        {
            let d = self.digits[i] as u64;
            let f = factor as u64;
            proof {
                assert(d * f + carry <= 0xffff_ffff * 0xffff_ffff + 0xffff_ffff)
                    by (nonlinear_arith)
                    requires
                        d <= 0xffff_ffff,
                        f <= 0xffff_ffff,
                        carry <= 0xffff_ffff,
                ;
            }
            let product: u64 = d * f + carry;
            let low_part: u64 = product % 0x1_0000_0000;
            let ghost old_carry = carry;
            let ghost old_digits = digits@;
            carry = product / 0x1_0000_0000;
            digits.push(low_part as u32);
            proof {
                let w = weight(i as nat);
                lemma_weight(i as nat);
                lemma_low_step(before, i as int);
                assert(digits@.drop_last() =~= old_digits);
                let v = value(low(before, i as int)) as int;
                let v0 = value(old_digits) as int;
                assert(product == carry * 0x1_0000_0000 + low_part);
                assert(v0 + low_part * w + carry * (0x1_0000_0000 * w) == (v + d * w) * factor
                    + summand) by (nonlinear_arith)
                    requires
                        v0 + old_carry * w == v * factor + summand,
                        d * f + old_carry == carry * 0x1_0000_0000 + low_part,
                        f == factor,
                ;
            }
            i = i + 1;
        }
        let ghost done = digits@;
        assert(low(before, i as int) =~= before);
        if carry > 0 {
            digits.push(carry as u32);
            assert(digits@.drop_last() =~= done);
        } else {
            assert(0 * weight(i as nat) == 0) by (nonlinear_arith);
        }
        self.digits = digits;
    }

    /// How the number stands to another one.
    pub fn relation(&self, other: &BigNat) -> (relation: Relation)
        ensures
            match relation {
                Relation::Less => self@ < other@,
                Relation::Equal => self@ == other@,
                Relation::Greater => self@ > other@,
            },
    {
        let ghost a = self.digits@;
        let ghost b = other.digits@;
        let mut i: usize = if self.digits.len() < other.digits.len() {
            other.digits.len()
        } else {
            self.digits.len()
        };
        assert(low(a, i as int) =~= a);
        assert(low(b, i as int) =~= b);
        while i > 0
            invariant
                a == self.digits@,
                b == other.digits@,
                value(a) + value(low(b, i as int)) == value(b) + value(low(a, i as int)),
            decreases i,
        {
            i = i - 1;
            let x: u32 = if i < self.digits.len() {
                self.digits[i]
            } else {
                0
            };
            let y: u32 = if i < other.digits.len() {
                other.digits[i]
            } else {
                0
            };
            proof {
                lemma_low_step(a, i as int);
                lemma_low_step(b, i as int);
                lemma_low_bound(a, i as int);
                lemma_low_bound(b, i as int);
                lemma_weight(i as nat);
            }
            let ghost w = weight(i as nat);
            if x < y {
                assert(y * w >= x * w + w) by (nonlinear_arith)
                    requires
                        x + 1 <= y,
                ;
                return Relation::Less;
            }
            if x > y {
                assert(x * w >= y * w + w) by (nonlinear_arith)
                    requires
                        y + 1 <= x,
                ;
                return Relation::Greater;
            }
        }
        assert(low(a, 0) =~= Seq::empty());
        assert(low(b, 0) =~= Seq::empty());
        Relation::Equal
    }

    /// Subtracts a number that is not larger.
    pub fn subtract(&mut self, other: &BigNat)
        requires
            other@ <= old(self)@,
        ensures
            final(self)@ == old(self)@ - other@,
    {
        let ghost a = self.digits@;
        let ghost b = other.digits@;
        let mut digits: Vec<u32> = Vec::new();
        let mut borrow: u64 = 0;
        let mut i: usize = 0;
        proof {
            assert(low(a, 0) =~= Seq::empty());
            assert(low(b, 0) =~= Seq::empty());
            assert(0 * weight(0) == 0) by (nonlinear_arith);
        }
        while i < self.digits.len()
            invariant
                a == self.digits@,
                b == other.digits@,
                i <= a.len(),
                digits.len() == i,
                borrow <= 1,
                value(digits@) + value(low(b, i as int)) == value(low(a, i as int)) + borrow
                    * weight(i as nat),
            decreases a.len() - i,
        {
            let x = self.digits[i] as u64;
            let y: u64 = if i < other.digits.len() {
                other.digits[i] as u64
            } else {
                0
            };
            let ghost old_borrow = borrow;
            let ghost old_digits = digits@;
            let difference: u64 = if x >= y + borrow {
                let difference: u64 = x - y - borrow;
                borrow = 0;
                difference
            } else {
                let difference: u64 = x + 0x1_0000_0000 - y - borrow;
                borrow = 1;
                difference
            };
            digits.push(difference as u32);
            proof {
                let w = weight(i as nat) as int;
                lemma_weight(i as nat);
                lemma_low_step(a, i as int);
                lemma_low_step(b, i as int);
                assert(digits@.drop_last() =~= old_digits);
                assert(difference + y + old_borrow == x + borrow * 0x1_0000_0000);
                assert(difference * w + y * w + old_borrow * w == x * w + borrow * (0x1_0000_0000
                    * w)) by (nonlinear_arith)
                    requires
                        difference + y + old_borrow == x + borrow * 0x1_0000_0000,
                ;
            }
            i = i + 1;
        }
        proof {
            let n = a.len() as int;
            assert(low(a, n) =~= a);
            assert(low(digits@, n) =~= digits@);
            lemma_low_bound(digits@, n);
            lemma_low_bound(a, n);
            lemma_low_or_large(b, n);
            let w = weight(n as nat) as int;
            assert(borrow == 0) by {
                if borrow == 1 {
                    assert(1 * w == w) by (nonlinear_arith);
                }
            }
            assert(0 * w == 0) by (nonlinear_arith);
        }
        self.digits = digits;
    }
}

} // verus!
