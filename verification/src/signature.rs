//! Function signatures store type and type-interaction information about
//! function vector spaces.

use vstd::prelude::*;

use crate::domain::{Domain, SubDomain};
use crate::fields::Field;

verus! {

/// A valid wavefunction from a space and a time coordinate to a field value.
///
/// This is the leaf of the operation tree: any type that can be evaluated
/// pointwise, with a specification-level account of the value it takes.
pub trait WFFunc<X, T, O>: Sized {
    /// The value of the wavefunction at a point, as seen by specifications.
    spec fn f_s(self, x: X, t: T) -> O;

    /// Evaluate the wavefunction at a point in space and time.
    fn f(&self, x: X, t: T) -> (r: O)
        ensures
            r == self.f_s(x, t),
    ;
}

/// The type signature for a wavefunction.
pub trait WFSignature: Sized + Clone {
    /// The type associated with the spatial domain of the wavefunction.
    type Space: Domain;

    /// The type associated with the time input to the wavefunction.
    type Time: Domain;

    /// The output type of the wavefunction. This is also the field over
    /// which wavefunctions will form a vectorspace.
    type Out: Field;

    /// The type implementing functionality for handling subsets of the
    /// domain.
    type SubDom: SubDomain<Self::Space>;

    /// The type of the function leaves of the operation tree.
    type Wf: WFFunc<Self::Space, Self::Time, Self::Out>;

    /// The combination of a space element with a wavefunction output, as
    /// seen by specifications.
    spec fn mul_to_codomain_s(a: Self::Space, b: Self::Out) -> Self::Out;

    /// Combine elements in space with wavefunction output.
    /// This defines how to multiply integrands by d(space) when computing
    /// inner products.
    fn mul_to_codomain(a: Self::Space, b: Self::Out) -> (r: Self::Out)
        ensures
            r == Self::mul_to_codomain_s(a, b),
    ;

    /// The quadrature weight distributes over field addition.
    proof fn law_mtc_add(a: Self::Space, x: Self::Out, y: Self::Out)
        ensures
            Self::mul_to_codomain_s(a, x.add_s(y)) == Self::mul_to_codomain_s(a, x).add_s(
                Self::mul_to_codomain_s(a, y),
            ),
    ;

    /// The quadrature weight commutes with scaling by a field element.
    proof fn law_mtc_scale(a: Self::Space, c: Self::Out, x: Self::Out)
        ensures
            Self::mul_to_codomain_s(a, c.mul_s(x)) == c.mul_s(Self::mul_to_codomain_s(a, x)),
    ;

    /// The quadrature weight commutes with conjugation: the weight is a
    /// real factor.
    proof fn law_mtc_conj(a: Self::Space, x: Self::Out)
        ensures
            Self::mul_to_codomain_s(a, x.conj_s()) == Self::mul_to_codomain_s(a, x).conj_s(),
    ;
}

/// Weighting the additive identity yields the additive identity.
pub proof fn lemma_mtc_zero<S: WFSignature>(a: S::Space)
    ensures
        S::mul_to_codomain_s(a, <S::Out as Field>::zero_s()) == <S::Out as Field>::zero_s(),
{
    let z = <S::Out as Field>::zero_s();
    S::law_mtc_add(a, z, z);
    <S::Out as Field>::law_add_zero(z);
    assert(S::mul_to_codomain_s(a, z) == S::mul_to_codomain_s(a, z).add_s(
        S::mul_to_codomain_s(a, z),
    ));
    <S::Out as Field>::law_add_zero(S::mul_to_codomain_s(a, z));
    crate::fields::lemma_add_cancel(S::mul_to_codomain_s(a, z), S::mul_to_codomain_s(a, z), z);
}

} // verus!
