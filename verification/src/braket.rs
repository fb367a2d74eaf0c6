//! Bra-ket notation, where bras are adjoints of kets and vice versa. Each
//! form a vector space, with bras living in the dual space of kets. Applying
//! a bra to a ket results in an inner product.

use vstd::prelude::*;

use crate::signature::WFSignature;
use crate::vectorspace::VectorSpace;

verus! {

/// A ket (vector) in a function vectorspace.
pub trait Ket<S: WFSignature>: VectorSpace<S::Out> {
    /// The corresponding bra (covector) type.
    type Bra;

    /// Whether the squared norm can be computed: the integration domain must
    /// be steppable.
    spec fn normable(self) -> bool;

    /// What converting this ket to its bra returns, as seen by
    /// specifications.
    spec fn to_adjoint_ens(self, r: Self::Bra) -> bool;

    /// What the bra of the given ket is, as seen by specifications.
    spec fn adjoint_ens(ket: Self, r: Self::Bra) -> bool;

    /// The value of the squared norm, as seen by specifications.
    spec fn norm_sqr_ens(self, t: S::Time, r: S::Out) -> bool;

    /// Convert to corresponding bra (covector).
    fn to_adjoint(self) -> (r: Self::Bra)
        ensures
            self.to_adjoint_ens(r),
    ;

    /// Create corresponding bra (covector) of a ket (vector).
    fn adjoint(ket: &Self) -> (r: Self::Bra)
        ensures
            Self::adjoint_ens(*ket, r),
    ;

    /// Compute the squared norm using the standard inner product.
    fn norm_sqr(&self, t: S::Time) -> (r: S::Out)
        requires
            self.normable(),
        ensures
            self.norm_sqr_ens(t, r),
    ;
}

/// A bra (covector) in the dual of a function vectorspace.
pub trait Bra<S: WFSignature>: VectorSpace<S::Out> {
    /// The corresponding ket (vector) type.
    type Ket;

    /// Whether this bra can be applied to the given ket: their common
    /// integration domain must be steppable.
    spec fn applicable(self, ket: Self::Ket) -> bool;

    /// The value of the inner product of this bra with the given ket, as
    /// seen by specifications.
    spec fn apply_ens(self, ket: Self::Ket, t: S::Time, r: S::Out) -> bool;

    /// Apply this bra (covector) to a ket (vector) to produce an element of
    /// the field.
    fn apply(&self, ket: &Self::Ket, t: S::Time) -> (r: S::Out)
        requires
            self.applicable(*ket),
        ensures
            self.apply_ens(*ket, t, r),
    ;
}

} // verus!
