//! Functionality for representing abstract vector spaces.

use vstd::prelude::*;

use crate::fields::Field;

verus! {

/// Trait implementing properties of a vectorspace over a field.
///
/// This is the shared interface of kets and bras. Each implementation says
/// through the `*_ens` specification members exactly what each operation
/// returns, and every method guarantees its own member of its result.
pub trait VectorSpace<F: Field>: Sized + Clone {
    /// What the additive identity satisfies, as seen by specifications.
    spec fn zero_ens(r: Self) -> bool;

    /// What scaling this vector by `c` returns, as seen by specifications.
    spec fn scale_ens(self, c: F, r: Self) -> bool;

    /// What the sum of the given vectors is, as seen by specifications.
    spec fn sum_ens(vectors: Seq<Self>, r: Self) -> bool;

    /// What the weighted sum of the given vectors is, as seen by
    /// specifications.
    spec fn weighted_sum_ens(summands: Seq<(F, Self)>, r: Self) -> bool;

    /// What adding `rhs` to this vector returns, as seen by specifications.
    spec fn add_ens(self, rhs: Self, r: Self) -> bool;

    /// What subtracting `rhs` from this vector returns, as seen by
    /// specifications.
    spec fn sub_ens(self, rhs: Self, r: Self) -> bool;

    /// What negating this vector returns, as seen by specifications.
    spec fn neg_ens(self, r: Self) -> bool;

    /// The additive identity of the vectorspace.
    fn zero() -> (r: Self)
        ensures
            Self::zero_ens(r),
    ;

    /// Scale this vector by a scalar.
    fn scale(self, c: F) -> (r: Self)
        ensures
            self.scale_ens(c, r),
    ;

    /// Sum many vectors together.
    fn sum(vectors: Vec<Self>) -> (r: Self)
        ensures
            Self::sum_ens(vectors@, r),
    ;

    /// Sum many vectors together with given weights.
    fn weighted_sum(summands: Vec<(F, Self)>) -> (r: Self)
        ensures
            Self::weighted_sum_ens(summands@, r),
    ;

    /// Add another vector to this one.
    fn add(self, rhs: Self) -> (r: Self)
        ensures
            self.add_ens(rhs, r),
    ;

    /// Subtract another vector from this one.
    fn sub(self, rhs: Self) -> (r: Self)
        ensures
            self.sub_ens(rhs, r),
    ;

    /// Negate this vector.
    fn neg(self) -> (r: Self)
        ensures
            self.neg_ens(r),
    ;
}

} // verus!
