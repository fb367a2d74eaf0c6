//! The common evaluation interface of bras and kets.

use vstd::prelude::*;

use crate::signature::WFSignature;

verus! {

/// Require ability to evaluate a wavefunction at points in domain.
pub trait Wavefunction<S: WFSignature>: Sized {
    /// The pointwise value of the wavefunction, as seen by specifications.
    spec fn f_spec(self, x: S::Space, t: S::Time) -> S::Out;

    /// The pointwise probability density, as seen by specifications.
    spec fn p_spec(self, x: S::Space, t: S::Time) -> S::Out;

    /// What translating this wavefunction in space returns, as seen by
    /// specifications.
    spec fn translate_space_ens(self, offset: S::Space, r: Self) -> bool;

    /// What translating this wavefunction in time returns, as seen by
    /// specifications.
    spec fn translate_time_ens(self, offset: S::Time, r: Self) -> bool;

    /// Evaluate the wavefunction at a point in space and time.
    fn f(&self, x: S::Space, t: S::Time) -> (r: S::Out)
        ensures
            r == self.f_spec(x, t),
    ;

    /// Evaluate the probability density at a point in space and time.
    fn p(&self, x: S::Space, t: S::Time) -> (r: S::Out)
        ensures
            r == self.p_spec(x, t),
    ;

    /// Return the wavefunction with a translation applied in space.
    fn translate_space(self, offset: S::Space) -> (r: Self)
        ensures
            self.translate_space_ens(offset, r),
    ;

    /// Return the wavefunction with a translation applied in time.
    fn translate_time(self, offset: S::Time) -> (r: Self)
        ensures
            self.translate_time_ens(offset, r),
    ;
}

} // verus!
