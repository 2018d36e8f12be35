//! Numbers in decimal form.

use vstd::arithmetic::mul::*;
use vstd::arithmetic::power::*;
use vstd::prelude::*;

verus! {

/// A number in decimal form: `mantissa * 10^exponent`, negated unless
/// `positive`. `nan` marks a value that is not a number; its other fields
/// then carry no meaning.
#[derive(Clone, Copy, Debug, PartialEq, Eq, Structural)]
pub struct JsonNumber {
    pub nan: bool,
    pub positive: bool,
    pub mantissa: u64,
    pub exponent: i16,
}

impl JsonNumber {
    /// Whether the number is the whole number `k`, which is not negative.
    /// Negative zero counts as zero.
    pub open spec fn is_whole(self, k: nat) -> bool {
        &&& !self.nan
        &&& (self.positive || k == 0)
        &&& if self.exponent >= 0 {
            k == self.mantissa * pow(10, self.exponent as nat)
        } else {
            self.mantissa == k * pow(10, (-self.exponent) as nat)
        }
    }

    /// The whole number that the number is, if it is one.
    pub open spec fn whole(self) -> Option<nat> {
        if exists|k: nat| self.is_whole(k) {
            Some(choose|k: nat| self.is_whole(k))
        } else {
            None
        }
    }

    /// The number as an unsigned integer: the whole number that it is,
    /// where it is one and fits.
    pub open spec fn unsigned(self) -> Option<u64> {
        match self.whole() {
            Some(k) => if k <= u64::MAX {
                Some(k as u64)
            } else {
                None
            },
            None => None,
        }
    }

    /// A number is at most one whole number.
    pub proof fn law_whole_is_unique(self, first: nat, second: nat)
        requires
            self.is_whole(first),
            self.is_whole(second),
        ensures
            first == second,
    {
        if self.exponent < 0 {
            let power = pow(10, (-self.exponent) as nat);
            lemma_pow_positive(10, (-self.exponent) as nat);
            lemma_mul_equality_converse(power, first as int, second as int);
        }
    }

    /// The whole number `k`, as a number.
    pub fn from_unsigned(k: u64) -> (number: JsonNumber)
        ensures
            number == (JsonNumber { nan: false, positive: true, mantissa: k, exponent: 0 }),
            number.unsigned() == Some(k),
    {
        let number = JsonNumber { nan: false, positive: true, mantissa: k, exponent: 0 };
        proof {
            lemma_pow0(10);
            assert(number.is_whole(k as nat));
            number.law_whole_is_unique(k as nat, choose|w: nat| number.is_whole(w));
        }
        number
    }

    /// The number as an unsigned integer, where it is a whole number that is
    /// not negative and fits.
    pub fn to_unsigned(&self) -> (result: Option<u64>)
        ensures
            result == self.unsigned(),
    {
        let result = self.search();
        proof {
            if self.whole() is Some {
                let chosen = choose|k: nat| self.is_whole(k);
                if result is Some {
                    self.law_whole_is_unique(result->Some_0 as nat, chosen);
                }
            }
        }
        result
    }

    /// Looks for the unsigned integer that the number is.
    fn search(&self) -> (result: Option<u64>)
        ensures
            result matches Some(k) ==> self.is_whole(k as nat),
            result is None ==> forall|k: nat| k <= u64::MAX ==> !self.is_whole(k),
    {
        if self.nan {
            return None;
        }
        if self.mantissa == 0 {
            proof {
                if self.exponent >= 0 {
                    lemma_mul_basics(pow(10, self.exponent as nat));
                } else {
                    lemma_mul_basics(pow(10, (-self.exponent) as nat));
                }
            }
            return Some(0);
        }
        if !self.positive {
            assert forall|k: nat| k <= u64::MAX implies !self.is_whole(k) by {
                if self.exponent >= 0 {
                    lemma_pow_positive(10, self.exponent as nat);
                    lemma_mul_strictly_positive(
                        self.mantissa as int,
                        pow(10, self.exponent as nat),
                    );
                } else {
                    lemma_mul_basics(pow(10, (-self.exponent) as nat));
                }
            }
            return None;
        }
        if self.exponent >= 0 {
            self.scaled_up()
        } else {
            self.scaled_down()
        }
    }

    /// The search for a positive number with an exponent that is not negative.
    fn scaled_up(&self) -> (result: Option<u64>)
        requires
            !self.nan,
            self.positive,
            self.mantissa > 0,
            self.exponent >= 0,
        ensures
            result matches Some(k) ==> self.is_whole(k as nat),
            result is None ==> forall|k: nat| k <= u64::MAX ==> !self.is_whole(k),
    {
        let mut value: u64 = self.mantissa;
        let mut done: i16 = 0;
        proof {
            lemma_pow0(10);
        }
        while done < self.exponent
            invariant
                0 <= done <= self.exponent,
                value > 0,
                value == self.mantissa * pow(10, done as nat),
            decreases self.exponent - done,
        {
            proof {
                reveal(pow);
                assert(self.mantissa * (10 * pow(10, done as nat)) == 10 * (self.mantissa * pow(
                    10,
                    done as nat,
                ))) by (nonlinear_arith);
            }
            if value > u64::MAX / 10 {
                proof {
                    let reached = (done + 1) as nat;
                    let whole = self.exponent as nat;
                    lemma_pow_increases(10, reached, whole);
                    lemma_mul_inequality(
                        pow(10, reached),
                        pow(10, whole),
                        self.mantissa as int,
                    );
                    lemma_mul_is_commutative(pow(10, reached), self.mantissa as int);
                    lemma_mul_is_commutative(pow(10, whole), self.mantissa as int);
                }
                return None;
            }
            value = value * 10;
            done = done + 1;
        }
        Some(value)
    }

    /// The search for a positive number with a negative exponent.
    fn scaled_down(&self) -> (result: Option<u64>)
        requires
            !self.nan,
            self.positive,
            self.mantissa > 0,
            self.exponent < 0,
        ensures
            result matches Some(k) ==> self.is_whole(k as nat),
            result is None ==> forall|k: nat| k <= u64::MAX ==> !self.is_whole(k),
    {
        let mut value: u64 = self.mantissa;
        let mut left: i16 = self.exponent;
        proof {
            lemma_pow0(10);
        }
        while left < 0
            invariant
                self.exponent <= left <= 0,
                self.exponent < 0,
                value > 0,
                self.mantissa == value * pow(10, (left - self.exponent) as nat),
            decreases -left,
        {
            let ghost done = (left - self.exponent) as nat;
            if value % 10 != 0 {
                assert forall|k: nat| k <= u64::MAX implies !self.is_whole(k) by {
                    if self.is_whole(k) {
                        let rest = (-left) as nat;
                        lemma_pow_adds(10, rest, done);
                        lemma_pow_positive(10, done);
                        lemma_mul_is_associative(k as int, pow(10, rest), pow(10, done));
                        lemma_mul_equality_converse(
                            pow(10, done),
                            value as int,
                            k * pow(10, rest),
                        );
                        reveal(pow);
                        assert(k * (10 * pow(10, (rest - 1) as nat)) == 10 * (k * pow(
                            10,
                            (rest - 1) as nat,
                        ))) by (nonlinear_arith);
                    }
                }
                return None;
            }
            proof {
                reveal(pow);
                assert((value / 10) * (10 * pow(10, done)) == ((value / 10) * 10) * pow(10, done))
                    by (nonlinear_arith);
            }
            value = value / 10;
            left = left + 1;
        }
        Some(value)
    }
}

} // verus!
