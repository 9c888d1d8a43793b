//! Exact fractions, for how far along a piece of work is.

use vstd::prelude::*;

verus! {

/// A fraction of two counts; the lower one is never zero.
#[derive(Clone, Copy, Debug, PartialEq, Eq)]
pub struct Fraction {
    numerator: u128,
    denominator: u128,
}

impl Fraction {
    #[verifier::type_invariant]
    spec fn denominator_is_positive(self) -> bool {
        self.denominator > 0
    }

    /// The count above the line.
    pub closed spec fn num(self) -> nat {
        self.numerator as nat
    }

    /// The count below the line.
    pub closed spec fn den(self) -> nat {
        self.denominator as nat
    }

    /// Whether this is worth no more than `other`.
    pub open spec fn le(self, other: Fraction) -> bool {
        self.num() * other.den() <= other.num() * self.den()
    }

    /// `numerator` parts in `denominator`.
    pub fn new(numerator: u128, denominator: u128) -> (r: Self)
        requires
            denominator > 0,
        ensures
            r.num() == numerator,
            r.den() == denominator,
    {
        Fraction { numerator, denominator }
    }

    /// Nothing done.
    pub fn zero() -> (r: Self)
        ensures
            r.num() == 0,
            r.den() == 1,
    {
        Fraction { numerator: 0, denominator: 1 }
    }

    /// All done.
    pub fn one() -> (r: Self)
        ensures
            r.num() == 1,
            r.den() == 1,
    {
        Fraction { numerator: 1, denominator: 1 }
    }

    /// The count above the line.
    pub fn numerator(&self) -> (r: u128)
        ensures
            r == self.num(),
    {
        self.numerator
    }

    /// The count below the line.
    pub fn denominator(&self) -> (r: u128)
        ensures
            r == self.den(),
            r > 0,
    {
        proof {
            use_type_invariant(self);
        }
        self.denominator
    }

    /// Whether the fraction is nothing, or everything and more.
    pub fn is_settled(&self) -> (r: bool)
        ensures
            r == (self.num() == 0 || self.num() >= self.den()),
    {
        self.numerator == 0 || self.numerator >= self.denominator
    }

    /// The fraction, held at one.
    pub fn at_most_one(&self) -> (r: Self)
        ensures
            r.den() > 0,
            self.den() > 0,
            self.num() <= self.den() ==> r == *self,
            self.num() > self.den() ==> r.num() == 1 && r.den() == 1,
    {
        proof {
            use_type_invariant(self);
        }
        if self.numerator > self.denominator {
            Fraction::one()
        } else {
            *self
        }
    }
}

} // verus!
