//! The numeric tower: integers, rationals, floats and complex numbers.
//!
//! A float is carried as its IEEE-754 binary64 bit pattern. Nothing here
//! computes with floats: a conversion that would need floating-point
//! arithmetic is not made, and the caller is told so.

use vstd::prelude::*;

verus! {

/// A number of the tower. `Float` and the two parts of `Complex` hold the
/// bit pattern of a binary64 float.
#[derive(Clone, Copy, Debug, PartialEq, Eq, Structural)]
pub enum Number {
    Integer(i64),
    Rational { numerator: i64, denominator: u64 },
    Float(u64),
    Complex { real: u64, imaginary: u64 },
}

/// The four levels of the tower, lowest first.
#[derive(Clone, Copy, Debug, PartialEq, Eq, Structural)]
pub enum NumberKind {
    Integer,
    Rational,
    Float,
    Complex,
}

/// The bit pattern of the float `+0.0`.
pub const POSITIVE_ZERO_BITS: u64 = 0;

impl NumberKind {
    /// The place of a level in the tower: Integer < Rational < Float < Complex.
    pub open spec fn spec_rank(self) -> nat {
        match self {
            NumberKind::Integer => 0,
            NumberKind::Rational => 1,
            NumberKind::Float => 2,
            NumberKind::Complex => 3,
        }
    }

    /// The place of a level in the tower.
    pub fn rank(self) -> (r: u8)
        ensures
            r == self.spec_rank(),
    {
        match self {
            NumberKind::Integer => 0,
            NumberKind::Rational => 1,
            NumberKind::Float => 2,
            NumberKind::Complex => 3,
        }
    }

    /// The higher of two levels.
    pub open spec fn spec_wider(self, other: NumberKind) -> NumberKind {
        if self.spec_rank() >= other.spec_rank() {
            self
        } else {
            other
        }
    }

    /// The higher of two levels.
    #[verifier::when_used_as_spec(spec_wider)]
    pub fn wider(self, other: NumberKind) -> (r: NumberKind)
        ensures
            r == self.spec_wider(other),
    {
        if self.rank() >= other.rank() {
            self
        } else {
            other
        }
    }
}

impl Number {
    /// The level of the tower a number stands on.
    pub open spec fn spec_kind(self) -> NumberKind {
        match self {
            Number::Integer(_) => NumberKind::Integer,
            Number::Rational { .. } => NumberKind::Rational,
            Number::Float(_) => NumberKind::Float,
            Number::Complex { .. } => NumberKind::Complex,
        }
    }

    /// The level of the tower a number stands on.
    #[verifier::when_used_as_spec(spec_kind)]
    pub fn kind(self) -> (k: NumberKind)
        ensures
            k == self.spec_kind(),
    {
        match self {
            Number::Integer(_) => NumberKind::Integer,
            Number::Rational { .. } => NumberKind::Rational,
            Number::Float(_) => NumberKind::Float,
            Number::Complex { .. } => NumberKind::Complex,
        }
    }

    /// What `self` is on the level `kind`, where that can be said without
    /// floating-point arithmetic: a number stays what it is on its own
    /// level, an integer `v` is the rational `v/1`, a float is the complex
    /// number with imaginary part `+0.0`, and a complex number keeps its real
    /// part as a float. Every other conversion is `None`.
    pub open spec fn converted(self, kind: NumberKind) -> Option<Number> {
        match (self, kind) {
            (Number::Integer(_), NumberKind::Integer) => Some(self),
            (Number::Rational { .. }, NumberKind::Rational) => Some(self),
            (Number::Float(_), NumberKind::Float) => Some(self),
            (Number::Complex { .. }, NumberKind::Complex) => Some(self),
            (Number::Integer(v), NumberKind::Rational) => Some(
                Number::Rational { numerator: v, denominator: 1 },
            ),
            (Number::Float(v), NumberKind::Complex) => Some(
                Number::Complex { real: v, imaginary: POSITIVE_ZERO_BITS },
            ),
            (Number::Complex { real: re, .. }, NumberKind::Float) => Some(Number::Float(re)),
            _ => None,
        }
    }

    /// Forces a number to an integer. Only an integer can be given back
    /// exactly; a rational, float or complex number would have to be
    /// truncated by floating-point arithmetic, and gives `None`.
    pub fn to_integer(self) -> (r: Option<Number>)
        ensures
            r == self.converted(NumberKind::Integer),
    {
        match self {
            Number::Integer(_) => Some(self),
            _ => None,
        }
    }

    /// Forces a number to a rational: an integer `v` becomes `v/1`, a
    /// rational stays. A float or complex number gives `None`.
    pub fn to_rational(self) -> (r: Option<Number>)
        ensures
            r == self.converted(NumberKind::Rational),
    {
        match self {
            Number::Integer(v) => Some(Number::Rational { numerator: v, denominator: 1 }),
            Number::Rational { .. } => Some(self),
            _ => None,
        }
    }

    /// Forces a number to a float: a float stays, a complex number drops
    /// its imaginary part. An integer or rational gives `None`.
    pub fn to_float(self) -> (r: Option<Number>)
        ensures
            r == self.converted(NumberKind::Float),
    {
        match self {
            Number::Float(_) => Some(self),
            Number::Complex { real: re, .. } => Some(Number::Float(re)),
            _ => None,
        }
    }

    /// Forces a number to a complex number: a float gets the imaginary
    /// part `+0.0`, a complex number stays. An integer or rational gives
    /// `None`.
    pub fn to_complex(self) -> (r: Option<Number>)
        ensures
            r == self.converted(NumberKind::Complex),
    {
        match self {
            Number::Float(v) => Some(Number::Complex { real: v, imaginary: POSITIVE_ZERO_BITS }),
            Number::Complex { .. } => Some(self),
            _ => None,
        }
    }

    /// The level two numbers meet on: the higher of their two levels.
    pub open spec fn common_kind(a: Number, b: Number) -> NumberKind {
        a.spec_kind().spec_wider(b.spec_kind())
    }

    /// Brings two numbers to the level they meet on. `None` where one of
    /// the two conversions needs floating-point arithmetic.
    pub open spec fn coerced(a: Number, b: Number) -> Option<(Number, Number)> {
        match (
            a.converted(Number::common_kind(a, b)),
            b.converted(Number::common_kind(a, b)),
        ) {
            (Some(x), Some(y)) => Some((x, y)),
            _ => None,
        }
    }

    /// Coerces two numbers to the same level, the higher of the two.
    pub fn coerce(a: Number, b: Number) -> (r: Option<(Number, Number)>)
        ensures
            r == Number::coerced(a, b),
            r matches Some((x, y)) ==> x.spec_kind() == y.spec_kind() && x.spec_kind()
                == Number::common_kind(a, b),
    {
        let target = a.kind().wider(b.kind());
        let x = match target {
            NumberKind::Integer => a.to_integer(),
            NumberKind::Rational => a.to_rational(),
            NumberKind::Float => a.to_float(),
            NumberKind::Complex => a.to_complex(),
        };
        let y = match target {
            NumberKind::Integer => b.to_integer(),
            NumberKind::Rational => b.to_rational(),
            NumberKind::Float => b.to_float(),
            NumberKind::Complex => b.to_complex(),
        };
        match (x, y) {
            (Some(x), Some(y)) => Some((x, y)),
            _ => None,
        }
    }
}

/// Two numbers are always brought to the wider of their two levels: the
/// level they meet on is at least the level of each, and it is the level of
/// one of them.
pub proof fn lemma_coercion_widens(a: Number, b: Number)
    ensures
        Number::common_kind(a, b).spec_rank() >= a.spec_kind().spec_rank(),
        Number::common_kind(a, b).spec_rank() >= b.spec_kind().spec_rank(),
        Number::common_kind(a, b) == a.spec_kind() || Number::common_kind(a, b) == b.spec_kind(),
        Number::common_kind(a, b) == Number::common_kind(b, a),
        Number::coerced(a, b) matches Some((x, y)) ==> x.spec_kind() == Number::common_kind(a, b)
            && y.spec_kind() == Number::common_kind(a, b),
{
}

} // verus!
