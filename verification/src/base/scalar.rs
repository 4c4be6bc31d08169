//! Binary64 numbers by their place in the numeric order.
use vstd::prelude::*;

verus! {

/// The rank of positive infinity; negative infinity has the opposite rank.
pub const INFINITY_RANK: i64 = 0x7FF0_0000_0000_0000;

/// The rank of one half.
pub const HALF_RANK: i64 = 0x3FE0_0000_0000_0000;

/// The rank of one.
pub const ONE_RANK: i64 = 0x3FF0_0000_0000_0000;

/// A binary64 number by its place in the numeric order.
///
/// The rank of a number that is zero or positive is its bit pattern; the rank
/// of a negative number is the opposite of that of its magnitude. Both zeros
/// have rank 0. Ranks are ordered as the numbers are.
#[derive(Clone, Copy, Debug, PartialEq, Eq, Structural)]
pub enum Scalar {
    /// The result of an undefined operation: it compares with nothing.
    Undefined,
    /// A number, by its rank.
    Rank(i64),
}

/// The scalar zero.
pub open spec fn zero() -> Scalar {
    Scalar::Rank(0)
}

impl Scalar {
    /// Whether the rank is that of a number or of an infinity.
    pub open spec fn wf(self) -> bool {
        self matches Scalar::Rank(a) ==> -INFINITY_RANK <= a <= INFINITY_RANK
    }

    /// `self < other`; false as soon as one side is undefined.
    pub open spec fn spec_lt(self, other: Scalar) -> bool {
        self matches Scalar::Rank(a) && other matches Scalar::Rank(b) && a < b
    }

    /// `self <= other`; false as soon as one side is undefined.
    pub open spec fn spec_le(self, other: Scalar) -> bool {
        self matches Scalar::Rank(a) && other matches Scalar::Rank(b) && a <= b
    }

    /// Neither undefined nor infinite.
    pub open spec fn spec_is_finite(self) -> bool {
        self matches Scalar::Rank(a) && -INFINITY_RANK < a < INFINITY_RANK
    }

    /// The greater of two numbers, or the one that is defined.
    pub open spec fn spec_max(self, other: Scalar) -> Scalar {
        match (self, other) {
            (Scalar::Undefined, b) => b,
            (a, Scalar::Undefined) => a,
            (Scalar::Rank(a), Scalar::Rank(b)) => if a >= b {
                Scalar::Rank(a)
            } else {
                Scalar::Rank(b)
            },
        }
    }

    /// The smaller of two numbers, or the one that is defined.
    pub open spec fn spec_min(self, other: Scalar) -> Scalar {
        match (self, other) {
            (Scalar::Undefined, b) => b,
            (a, Scalar::Undefined) => a,
            (Scalar::Rank(a), Scalar::Rank(b)) => if a <= b {
                Scalar::Rank(a)
            } else {
                Scalar::Rank(b)
            },
        }
    }

    /// The magnitude.
    pub open spec fn spec_abs(self) -> Scalar {
        match self {
            Scalar::Undefined => Scalar::Undefined,
            Scalar::Rank(a) => Scalar::Rank(
                if a == i64::MIN {
                    i64::MAX
                } else if a < 0 {
                    (-a) as i64
                } else {
                    a
                },
            ),
        }
    }

    pub fn lt(self, other: Scalar) -> (r: bool)
        ensures
            r == self.spec_lt(other),
    {
        match (self, other) {
            (Scalar::Rank(a), Scalar::Rank(b)) => a < b,
            _ => false,
        }
    }

    pub fn le(self, other: Scalar) -> (r: bool)
        ensures
            r == self.spec_le(other),
    {
        match (self, other) {
            (Scalar::Rank(a), Scalar::Rank(b)) => a <= b,
            _ => false,
        }
    }

    pub fn is_finite(self) -> (r: bool)
        ensures
            r == self.spec_is_finite(),
    {
        match self {
            Scalar::Rank(a) => -INFINITY_RANK < a && a < INFINITY_RANK,
            Scalar::Undefined => false,
        }
    }

    pub fn max(self, other: Scalar) -> (r: Scalar)
        ensures
            r == self.spec_max(other),
    {
        match (self, other) {
            (Scalar::Undefined, b) => b,
            (a, Scalar::Undefined) => a,
            (Scalar::Rank(a), Scalar::Rank(b)) => if a >= b {
                Scalar::Rank(a)
            } else {
                Scalar::Rank(b)
            },
        }
    }

    pub fn min(self, other: Scalar) -> (r: Scalar)
        ensures
            r == self.spec_min(other),
    {
        match (self, other) {
            (Scalar::Undefined, b) => b,
            (a, Scalar::Undefined) => a,
            (Scalar::Rank(a), Scalar::Rank(b)) => if a <= b {
                Scalar::Rank(a)
            } else {
                Scalar::Rank(b)
            },
        }
    }

    pub fn abs(self) -> (r: Scalar)
        ensures
            r == self.spec_abs(),
            self.wf() ==> r.wf(),
    {
        match self {
            Scalar::Undefined => Scalar::Undefined,
            Scalar::Rank(a) => Scalar::Rank(
                if a == i64::MIN {
                    i64::MAX
                } else if a < 0 {
                    -a
                } else {
                    a
                },
            ),
        }
    }
}

/// A number is never below itself, and of two numbers one is at most the other.
pub proof fn law_scalars_are_ordered(a: Scalar, b: Scalar)
    ensures
        !a.spec_lt(a),
        a is Rank && b is Rank ==> (a.spec_lt(b) <==> !b.spec_le(a)),
        !(a is Rank && b is Rank) ==> !a.spec_lt(b) && !a.spec_le(b),
{
}

/// Comparisons of numbers follow their ranks, and are false where one side is undefined.
pub proof fn law_comparisons_follow_the_ranks(a: Scalar, b: Scalar, below: bool, at_most: bool, finite: bool)
    requires
        call_ensures(Scalar::lt, (a, b), below),
        call_ensures(Scalar::le, (a, b), at_most),
        call_ensures(Scalar::is_finite, (a,), finite),
    ensures
        below <==> a is Rank && b is Rank && a->0 < b->0,
        at_most <==> a is Rank && b is Rank && a->0 <= b->0,
        finite <==> a is Rank && a->0 < 0x7FF0_0000_0000_0000 && a->0 > -0x7FF0_0000_0000_0000,
        below ==> at_most,
        a is Rank && b is Rank ==> (at_most <==> below || a == b),
{
}

/// The smaller and the greater of two numbers are these two, in order; what is undefined
/// gives way to what is not.
pub proof fn law_smaller_and_greater(a: Scalar, b: Scalar, low: Scalar, high: Scalar, size: Scalar)
    requires
        call_ensures(Scalar::min, (a, b), low),
        call_ensures(Scalar::max, (a, b), high),
        call_ensures(Scalar::abs, (a,), size),
    ensures
        low == a || low == b,
        high == a || high == b,
        a is Rank && b is Rank ==> low is Rank && high is Rank && low->0 <= a->0 <= high->0 && low->0
            <= b->0 <= high->0,
        a is Undefined ==> low == b && high == b,
        b is Undefined ==> low == a && high == a,
        a is Undefined <==> size is Undefined,
        a is Rank ==> size->0 >= 0 && (a->0 >= 0 ==> size == a) && (a->0 < 0 && a->0 > i64::MIN ==> size->0
            == -a->0),
{
}

/// The ranks of one half and of one have the exponents below and at the middle, and no
/// fraction.
pub proof fn law_half_and_one_are_powers_of_two()
    ensures
        ONE_RANK == 0x3FF * 0x10_0000_0000_0000,
        HALF_RANK + 0x10_0000_0000_0000 == ONE_RANK,
        INFINITY_RANK == 0x7FF * 0x10_0000_0000_0000,
{
}

} // verus!
