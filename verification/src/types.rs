//! The sign type, the signed 129-bit sign-magnitude integer, and the error
//! kinds the conversions report.

use vstd::prelude::*;

verus! {

/// The sign of an `S129` value.
#[derive(Copy, Clone, Debug, Eq, PartialEq, Structural)]
pub enum Sign {
    /// Positive sign.
    Pos,
    /// Negative sign.
    Neg,
}

/// A signed 129-bit integer: a sign paired with an unsigned 128-bit
/// magnitude. Canonical values pair magnitude zero with `Sign::Pos`.
#[derive(Copy, Clone, Debug, Eq, PartialEq, Structural)]
pub struct S129(pub Sign, pub u128);

/// Why a conversion or an addition was rejected.
#[derive(Copy, Clone, Debug, Eq, PartialEq, Structural)]
pub enum Error {
    /// A symbol or trit value outside its valid domain.
    InvalidInput,
    /// A sequence longer than the bound of the chosen operation.
    LengthExceeded,
    /// A sum whose magnitude exceeds the unsigned 128-bit range.
    MagnitudeOverflow,
}

/// The integer an `S129` stands for.
pub open spec fn s129_val(x: S129) -> int {
    match x.0 {
        Sign::Pos => x.1 as int,
        Sign::Neg => -(x.1 as int),
    }
}

/// Whether an `S129` is in canonical form: zero always carries `Sign::Pos`.
pub open spec fn s129_canonical(x: S129) -> bool {
    x.1 == 0 ==> x.0 == Sign::Pos
}

/// The canonical `S129` of an integer in the representable range.
pub open spec fn s129_of(v: int) -> S129
    recommends
        -u128::MAX <= v && v <= u128::MAX,
{
    if v >= 0 {
        S129(Sign::Pos, v as u128)
    } else {
        S129(Sign::Neg, (-v) as u128)
    }
}

/// The value with the same magnitude and the opposite sign.
pub open spec fn s129_negated(x: S129) -> S129 {
    match x.0 {
        Sign::Pos => S129(Sign::Neg, x.1),
        Sign::Neg => S129(Sign::Pos, x.1),
    }
}

/// What addition returns: the canonical representation of the sum of the two
/// values, or `MagnitudeOverflow` where that sum leaves the 128-bit
/// magnitude range.
pub open spec fn spec_add(a: S129, b: S129) -> Result<S129, Error> {
    let v = s129_val(a) + s129_val(b);
    if -u128::MAX <= v && v <= u128::MAX {
        Ok(s129_of(v))
    } else {
        Err(Error::MagnitudeOverflow)
    }
}

/// Converting an in-range integer to `S129` and back is the identity, and
/// the conversion is canonical.
pub proof fn lemma_s129_of_val(v: int)
    requires
        -u128::MAX <= v && v <= u128::MAX,
    ensures
        s129_val(s129_of(v)) == v,
        s129_canonical(s129_of(v)),
{
}

impl S129 {
    /// Sign-magnitude addition.
    ///
    /// Same signs add the magnitudes and keep the sign; opposite signs
    /// subtract the smaller magnitude from the larger and take the sign of
    /// the larger, an exact tie giving canonical zero. The sum of two
    /// same-sign magnitudes can exceed the 128-bit range; that case is
    /// reported as `MagnitudeOverflow`.
    pub fn add(self, other: S129) -> (r: Result<S129, Error>)
        ensures
            r == spec_add(self, other),
    {
        match (self.0, other.0) {
            (Sign::Pos, Sign::Neg) => {
                if other.1 > self.1 {
                    Ok(S129(Sign::Neg, other.1 - self.1))
                } else {
                    Ok(S129(Sign::Pos, self.1 - other.1))
                }
            },
            (Sign::Neg, Sign::Pos) => {
                if other.1 >= self.1 {
                    Ok(S129(Sign::Pos, other.1 - self.1))
                } else {
                    Ok(S129(Sign::Neg, self.1 - other.1))
                }
            },
            (Sign::Pos, Sign::Pos) => {
                if self.1 > u128::MAX - other.1 {
                    Err(Error::MagnitudeOverflow)
                } else {
                    Ok(S129(Sign::Pos, self.1 + other.1))
                }
            },
            (Sign::Neg, Sign::Neg) => {
                if self.1 > u128::MAX - other.1 {
                    Err(Error::MagnitudeOverflow)
                } else if self.1 == 0 && other.1 == 0 {
                    Ok(S129(Sign::Pos, 0))
                } else {
                    Ok(S129(Sign::Neg, self.1 + other.1))
                }
            },
        }
    }

    /// The canonical value with the same magnitude and the opposite sign.
    pub fn negate(self) -> (r: S129)
        ensures
            s129_val(r) == -s129_val(self),
            s129_canonical(r),
    {
        if self.1 == 0 {
            S129(Sign::Pos, 0)
        } else {
            match self.0 {
                Sign::Pos => S129(Sign::Neg, self.1),
                Sign::Neg => S129(Sign::Pos, self.1),
            }
        }
    }
}

/// Addition is commutative: swapping the operands changes neither the sum
/// nor whether it overflows.
pub proof fn lemma_add_commutative(a: S129, b: S129)
    ensures
        spec_add(a, b) == spec_add(b, a),
{
}

/// Addition is associative wherever every intermediate sum stays in range.
pub proof fn lemma_add_associative(a: S129, b: S129, c: S129)
    requires
        spec_add(a, b) matches Ok(ab) && spec_add(ab, c) matches Ok(_),
        spec_add(b, c) matches Ok(bc) && spec_add(a, bc) matches Ok(_),
    ensures
        spec_add(spec_add(a, b)->Ok_0, c) == spec_add(a, spec_add(b, c)->Ok_0),
{
    let ab = spec_add(a, b)->Ok_0;
    let bc = spec_add(b, c)->Ok_0;
    lemma_s129_of_val(s129_val(a) + s129_val(b));
    lemma_s129_of_val(s129_val(b) + s129_val(c));
    assert(s129_val(ab) == s129_val(a) + s129_val(b));
    assert(s129_val(bc) == s129_val(b) + s129_val(c));
}

/// Adding a value to its negation always yields canonical zero.
pub proof fn lemma_add_negated(x: S129)
    ensures
        spec_add(x, s129_negated(x)) == Ok::<S129, Error>(S129(Sign::Pos, 0)),
{
}

} // verus!
