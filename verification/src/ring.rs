use vstd::prelude::*;

verus! {

/// The algebraic capability required of a matrix element: an additive
/// identity, addition, and multiplication. Element values are plain data,
/// freely copyable and safely shareable across concurrent readers.
pub trait ScalarRing: Sized + Copy + Send + Sync {
    /// The additive identity, at the specification level.
    spec fn zero_spec() -> Self;

    /// Addition, at the specification level.
    spec fn add_spec(self, rhs: Self) -> Self;

    /// Multiplication, at the specification level.
    spec fn mul_spec(self, rhs: Self) -> Self;

    /// The additive identity.
    fn zero() -> (r: Self)
        ensures
            r == Self::zero_spec(),
    ;

    /// Addition.
    fn add_val(self, rhs: Self) -> (r: Self)
        ensures
            r == self.add_spec(rhs),
    ;

    /// Multiplication.
    fn mul_val(self, rhs: Self) -> (r: Self)
        ensures
            r == self.mul_spec(rhs),
    ;

    /// Equality test, so that two computed matrices can be compared
    /// elementwise by the equivalence oracle.
    fn eq_val(self, rhs: Self) -> (r: bool)
        ensures
            r == (self == rhs),
    ;
}

/// The ring of 64-bit integers with wrapping addition and multiplication.
/// Wrapping keeps both operations total, so the multipliers accept any
/// operand values.
impl ScalarRing for i64 {
    open spec fn zero_spec() -> i64 {
        0
    }

    open spec fn add_spec(self, rhs: i64) -> i64 {
        vstd::wrapping::i64_specs::wrapping_add(self, rhs)
    }

    open spec fn mul_spec(self, rhs: i64) -> i64 {
        vstd::wrapping::i64_specs::wrapping_mul(self, rhs)
    }

    fn zero() -> (r: i64) {
        0
    }

    fn add_val(self, rhs: i64) -> (r: i64) {
        self.wrapping_add(rhs)
    }

    fn mul_val(self, rhs: i64) -> (r: i64) {
        self.wrapping_mul(rhs)
    }

    fn eq_val(self, rhs: i64) -> (r: bool) {
        self == rhs
    }
}

} // verus!
