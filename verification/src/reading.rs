//! Measured numbers, carried as IEEE-754 double bit patterns.
//!
//! A reading is stored, compared and ranked here; it is never computed with. Ordering two doubles
//! and telling a finite one from the rest are integer facts about their patterns, so they can be
//! stated and proved exactly. Arithmetic and printing belong to whoever holds the number itself.

use vstd::prelude::*;

verus! {

/// The pattern's sign bit, as a value: patterns from here on are negative.
pub const SIGN: u64 = 0x8000_0000_0000_0000;

/// The magnitude of an infinity. Larger magnitudes are not numbers.
pub const INFINITE: u64 = 0x7ff0_0000_0000_0000;

/// The pattern of one.
pub const ONE_BITS: u64 = 0x3ff0_0000_0000_0000;

/// The pattern of negative infinity, below every other number.
pub const NEGATIVE_INFINITY_BITS: u64 = 0xfff0_0000_0000_0000;

/// A number as its IEEE-754 double bit pattern.
#[derive(Debug, Clone, Copy, PartialEq, Eq, Structural)]
pub struct Reading {
    pub bits: u64,
}

/// A number together with the text it prints as.
#[derive(Debug, PartialEq, Eq)]
pub struct Figure {
    pub reading: Reading,
    pub text: String,
}

impl Clone for Figure {
    fn clone(&self) -> (copy: Self)
        ensures
            copy == *self,
    {
        Figure { reading: self.reading, text: self.text.clone() }
    }
}

impl Reading {
    /// Whether the sign bit is set.
    pub open spec fn negative(self) -> bool {
        self.bits >= SIGN
    }

    /// The pattern without its sign.
    pub open spec fn magnitude(self) -> int {
        if self.negative() {
            self.bits - SIGN
        } else {
            self.bits as int
        }
    }

    /// Neither an infinity nor a NaN.
    pub open spec fn finite(self) -> bool {
        self.magnitude() < INFINITE
    }

    /// Not a number.
    pub open spec fn nan(self) -> bool {
        self.magnitude() > INFINITE
    }

    /// Where the number lies on the number line, up to an increasing map. Both zeros lie at zero.
    pub open spec fn place(self) -> int {
        if self.negative() {
            -self.magnitude()
        } else {
            self.magnitude()
        }
    }

    /// Numeric `<`: false whenever either side is not a number.
    pub open spec fn below(self, other: Self) -> bool {
        !self.nan() && !other.nan() && self.place() < other.place()
    }

    /// Numeric `<=`: false whenever either side is not a number.
    pub open spec fn at_most(self, other: Self) -> bool {
        !self.nan() && !other.nan() && self.place() <= other.place()
    }

    /// Numeric `==`: false whenever either side is not a number.
    pub open spec fn equal(self, other: Self) -> bool {
        !self.nan() && !other.nan() && self.place() == other.place()
    }

    /// The rank of the pattern in the total order of doubles, in which the negative zero comes
    /// just before the positive one. No two patterns share a rank.
    pub open spec fn rank(self) -> int {
        if self.negative() {
            -self.magnitude() - 1
        } else {
            self.magnitude()
        }
    }

    pub open spec fn of(bits: u64) -> Self {
        Reading { bits }
    }

    fn unsigned(self) -> (magnitude: u64)
        ensures
            magnitude == self.magnitude(),
    {
        if self.bits >= SIGN {
            self.bits - SIGN
        } else {
            self.bits
        }
    }

    /// Whether the number is neither infinite nor NaN.
    pub fn is_finite(self) -> (finite: bool)
        ensures
            finite == self.finite(),
    {
        self.unsigned() < INFINITE
    }

    /// Whether the pattern is not a number.
    pub fn is_nan(self) -> (nan: bool)
        ensures
            nan == self.nan(),
    {
        self.unsigned() > INFINITE
    }

    /// Numeric `<`.
    pub fn is_below(self, other: Self) -> (below: bool)
        ensures
            below == self.below(other),
    {
        if self.is_nan() || other.is_nan() {
            return false;
        }
        let left: u64 = self.unsigned();
        let right: u64 = other.unsigned();
        if self.bits >= SIGN {
            if other.bits >= SIGN {
                right < left
            } else {
                left > 0 || right > 0
            }
        } else {
            other.bits < SIGN && left < right
        }
    }

    /// Numeric `<=`.
    pub fn is_at_most(self, other: Self) -> (at_most: bool)
        ensures
            at_most == self.at_most(other),
    {
        !self.is_nan() && !other.is_nan() && !other.is_below(self)
    }

    /// Numeric `==`.
    pub fn is_equal(self, other: Self) -> (equal: bool)
        ensures
            equal == self.equal(other),
    {
        self.is_at_most(other) && other.is_at_most(self)
    }

    /// Whether the number is greater than zero.
    pub fn is_positive(self) -> (positive: bool)
        ensures
            positive == Reading::of(0).below(self),
    {
        Reading { bits: 0 }.is_below(self)
    }

    /// Whether this pattern comes strictly before another in the total order of doubles.
    pub fn ranks_before(self, other: Self) -> (before: bool)
        ensures
            before == (self.rank() < other.rank()),
    {
        let left: u64 = self.unsigned();
        let right: u64 = other.unsigned();
        if self.bits >= SIGN {
            other.bits < SIGN || right < left
        } else {
            other.bits < SIGN && left < right
        }
    }

    /// The text of a number that is not finite; `None` for a finite one.
    pub fn non_finite_text(self) -> (text: Option<&'static str>)
        ensures
            text is None <==> self.finite(),
            text matches Some(shown) ==> shown@ == non_finite_name(self),
    {
        if self.is_finite() {
            None
        } else if self.is_nan() {
            Some("NaN")
        } else if self.bits >= SIGN {
            Some("-inf")
        } else {
            Some("inf")
        }
    }
}

/// How a number that is not finite is printed.
pub open spec fn non_finite_name(reading: Reading) -> Seq<char> {
    if reading.nan() {
        "NaN"@
    } else if reading.negative() {
        "-inf"@
    } else {
        "inf"@
    }
}

/// Numeric comparison is a strict weak order on the patterns that are numbers, and the total order
/// refines it: a number below another also ranks before it.
pub proof fn numeric_order_is_refined_by_rank(a: Reading, b: Reading)
    ensures
        a.below(b) ==> a.rank() < b.rank(),
        a.rank() == b.rank() <==> a == b,
        !a.nan() && !b.nan() && a.place() == b.place() && a != b ==> a.magnitude() == 0
            && b.magnitude() == 0,
{
}

/// Comparison of numbers is decided by their patterns alone: among patterns without a sign a
/// larger one is a larger number, among those with one a larger one is a smaller number, and a
/// negative number other than zero lies below every number without a sign.
pub proof fn patterns_order_numbers(a: Reading, b: Reading)
    ensures
        a.bits < b.bits <= 0x7ff0_0000_0000_0000 ==> a.below(b) && !b.at_most(a),
        0x8000_0000_0000_0000 <= a.bits < b.bits <= 0xfff0_0000_0000_0000 ==> b.below(a)
            && !a.at_most(b),
        0x8000_0000_0000_0000 < a.bits <= 0xfff0_0000_0000_0000 && b.bits <= 0x7ff0_0000_0000_0000
            ==> a.below(b) && !b.at_most(a),
        (Reading { bits: 0 }).equal(Reading { bits: 0x8000_0000_0000_0000 }),
{
}

/// A pattern is a number or not, and finite or not, by its exponent: the largest exponent with an
/// empty fraction is an infinity, with any other fraction not a number.
pub proof fn the_exponent_tells_finite_numbers(a: Reading)
    ensures
        a.finite() <==> (a.bits < 0x7ff0_0000_0000_0000 || 0x8000_0000_0000_0000 <= a.bits
            < 0xfff0_0000_0000_0000),
        a.nan() <==> (0x7ff0_0000_0000_0000 < a.bits < 0x8000_0000_0000_0000
            || 0xfff0_0000_0000_0000 < a.bits),
        a.finite() ==> !a.nan(),
{
}

/// What is not a number compares as false with everything, itself included; numbers are trichotomous.
pub proof fn comparisons_are_trichotomous(a: Reading, b: Reading)
    ensures
        a.nan() || b.nan() ==> !a.below(b) && !a.at_most(b) && !a.equal(b),
        !a.nan() && !b.nan() ==> (a.below(b) || b.below(a) || a.equal(b)),
        a.at_most(b) <==> (a.below(b) || a.equal(b)),
        !(a.below(b) && b.below(a)),
        !(a.below(b) && a.equal(b)),
        a.equal(b) <==> b.equal(a),
        !a.nan() ==> a.equal(a),
{
}

/// A number that is not finite prints as what it is.
pub proof fn non_finite_numbers_have_names(a: Reading)
    ensures
        a.bits == 0x7ff0_0000_0000_0000 ==> non_finite_name(a) == "inf"@,
        a.bits == 0xfff0_0000_0000_0000 ==> non_finite_name(a) == "-inf"@,
        a.nan() ==> non_finite_name(a) == "NaN"@,
{
}

} // verus!
