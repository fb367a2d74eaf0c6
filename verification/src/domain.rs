//! Functionality for domains (input types to wavefunctions), and subdomains
//! (subsets of domains where wavefunctions are defined).
//!
//! A [`Domain`] is an orderable, additively combinable coordinate type; a
//! [`SubDomain`] is a bounded, steppable subset of it, used as the support of
//! a wavefunction and as the sample range of a quadrature.

use vstd::prelude::*;

verus! {

/// Trait describing properties of the domain of a wavefunction.
/// Note that ordering and addition are needed to iterate over the domain;
/// for finite domains, these can be defined by assigning an arbitrary
/// ordering.
///
/// Addition and subtraction are total; an implementation on a bounded machine
/// type wraps around rather than fail, and the subdomain contracts that need
/// exact arithmetic state so through explicit side conditions.
pub trait Domain: Sized + Copy {
    /// The value of an addition, as seen by specifications.
    spec fn add_s(self, o: Self) -> Self;

    /// The value of a subtraction, as seen by specifications.
    spec fn sub_s(self, o: Self) -> Self;

    /// The ordering of the domain, as seen by specifications.
    spec fn le_s(self, o: Self) -> bool;

    /// The lower bound of the domain, as seen by specifications.
    spec fn first_s() -> Self;

    /// The upper bound of the domain, as seen by specifications.
    spec fn last_s() -> Self;

    /// The zero of the domain, as seen by specifications.
    spec fn zero_s() -> Self;

    /// The lower bound of the domain.
    fn first() -> (r: Self)
        ensures
            r == Self::first_s(),
    ;

    /// The upper bound of the domain.
    fn last() -> (r: Self)
        ensures
            r == Self::last_s(),
    ;

    /// The zero of the domain.
    fn zero() -> (r: Self)
        ensures
            r == Self::zero_s(),
    ;

    /// Add another coordinate to this one.
    fn add(self, o: Self) -> (r: Self)
        ensures
            r == self.add_s(o),
    ;

    /// Subtract another coordinate from this one.
    fn sub(self, o: Self) -> (r: Self)
        ensures
            r == self.sub_s(o),
    ;

    /// Compare this coordinate with another one.
    fn le(&self, o: &Self) -> (r: bool)
        ensures
            r == self.le_s(*o),
    ;
}

impl Domain for i64 {
    open spec fn add_s(self, o: Self) -> Self {
        vstd::wrapping::i64_specs::wrapping_add(self, o)
    }

    open spec fn sub_s(self, o: Self) -> Self {
        vstd::wrapping::i64_specs::wrapping_sub(self, o)
    }

    open spec fn le_s(self, o: Self) -> bool {
        self <= o
    }

    open spec fn first_s() -> Self {
        i64::MIN
    }

    open spec fn last_s() -> Self {
        i64::MAX
    }

    open spec fn zero_s() -> Self {
        0
    }

    fn first() -> Self {
        i64::MIN
    }

    fn last() -> Self {
        i64::MAX
    }

    fn zero() -> Self {
        0
    }

    fn add(self, o: Self) -> Self {
        self.wrapping_add(o)
    }

    fn sub(self, o: Self) -> Self {
        self.wrapping_sub(o)
    }

    fn le(&self, o: &Self) -> bool {
        *self <= *o
    }
}

impl Domain for i32 {
    open spec fn add_s(self, o: Self) -> Self {
        vstd::wrapping::i32_specs::wrapping_add(self, o)
    }

    open spec fn sub_s(self, o: Self) -> Self {
        vstd::wrapping::i32_specs::wrapping_sub(self, o)
    }

    open spec fn le_s(self, o: Self) -> bool {
        self <= o
    }

    open spec fn first_s() -> Self {
        i32::MIN
    }

    open spec fn last_s() -> Self {
        i32::MAX
    }

    open spec fn zero_s() -> Self {
        0
    }

    fn first() -> Self {
        i32::MIN
    }

    fn last() -> Self {
        i32::MAX
    }

    fn zero() -> Self {
        0
    }

    fn add(self, o: Self) -> Self {
        self.wrapping_add(o)
    }

    fn sub(self, o: Self) -> Self {
        self.wrapping_sub(o)
    }

    fn le(&self, o: &Self) -> bool {
        *self <= *o
    }
}

/// Trait describing properties of a subset of a domain. Used largely for
/// integration: the subset is sampled as a finite sequence of points, and its
/// step size is the quadrature weight.
///
/// The `law_*` obligations relate the combination operators to membership and
/// sampling; every implementation must prove them, so generic code over a
/// `SubDomain` may rely on them for any value.
pub trait SubDomain<D: Domain>: Sized + Copy {
    /// Membership in this subset, as seen by specifications.
    spec fn contains_s(self, x: D) -> bool;

    /// The step size, as seen by specifications.
    spec fn step_s(self) -> D;

    /// The finite sequence of sample points, as seen by specifications.
    /// The default is left unconstrained; every implementation verified
    /// here gives the exact sequence.
    open spec fn points_s(self) -> Seq<D> {
        vstd::pervasive::arbitrary()
    }

    /// Whether the sample points can be produced: the step must advance, and
    /// stepping must stay within the machine bounds of the coordinate type.
    spec fn iterable_s(self) -> bool;

    /// Whether a translation by `offset` keeps both bounds exactly
    /// representable.
    spec fn translatable_s(self, offset: D) -> bool;

    /// The union-style combination (for linear combinations), as seen by
    /// specifications.
    spec fn add_s(self, o: Self) -> Self;

    /// The intersection-style combination (for inner products), as seen by
    /// specifications.
    spec fn mul_s(self, o: Self) -> Self;

    /// The translation by an offset, as seen by specifications.
    spec fn translate_s(self, offset: D) -> Self;

    /// The same subset with another step size, as seen by specifications.
    spec fn with_step_s(self, step_size: D) -> Self;

    /// The entire domain, as seen by specifications.
    spec fn all_s() -> Self;

    /// The degenerate subdomain, as seen by specifications.
    spec fn none_s() -> Self;

    /// Check if a point is contained in this subset.
    fn contains(&self, x: D) -> (r: bool)
        ensures
            r == self.contains_s(x),
    ;

    /// The entire domain.
    fn all() -> (r: Self)
        ensures
            r == Self::all_s(),
    ;

    /// An empty subdomain.
    fn none() -> (r: Self)
        ensures
            r == Self::none_s(),
    ;

    /// The step size in this domain. Used as volume element in integration.
    fn step_size(&self) -> (r: D)
        ensures
            r == self.step_s(),
    ;

    /// The sample points of this subdomain, in increasing step order.
    fn points(&self) -> (r: Vec<D>)
        requires
            self.iterable_s(),
        ensures
            r@ == self.points_s(),
    ;

    /// Translate this subdomain.
    fn translate(self, offset: D) -> (r: Self)
        ensures
            r == self.translate_s(offset),
    ;

    /// Change step size.
    fn with_step_size(self, step_size: D) -> (r: Self)
        ensures
            r == self.with_step_s(step_size),
    ;

    /// Combine with another subdomain for a linear combination: the result
    /// covers both operands.
    fn add(self, o: Self) -> (r: Self)
        ensures
            r == self.add_s(o),
    ;

    /// Combine with another subdomain for a product: the result is the
    /// overlap of the operands.
    fn mul(self, o: Self) -> (r: Self)
        ensures
            r == self.mul_s(o),
    ;

    /// Every sample point is a member of the subdomain.
    proof fn law_points_contained(s: Self)
        requires
            s.iterable_s(),
        ensures
            forall|i: int|
                0 <= i < s.points_s().len() ==> s.contains_s(#[trigger] s.points_s()[i]),
    ;

    /// The product combination is exactly the intersection, pointwise.
    proof fn law_mul_contains(a: Self, b: Self, x: D)
        ensures
            a.mul_s(b).contains_s(x) <==> a.contains_s(x) && b.contains_s(x),
    ;

    /// The union combination covers both operands pointwise (it may cover
    /// more, since bounds may widen).
    proof fn law_add_contains(a: Self, b: Self, x: D)
        ensures
            a.contains_s(x) || b.contains_s(x) ==> a.add_s(b).contains_s(x),
    ;

    /// Combining a subdomain with itself, either way, changes nothing.
    proof fn law_combine_idempotent(a: Self)
        ensures
            a.add_s(a) == a,
            a.mul_s(a) == a,
    ;

    /// A translation within machine bounds shifts membership exactly.
    proof fn law_translate_contains(a: Self, offset: D, x: D)
        requires
            a.translatable_s(offset),
        ensures
            a.translate_s(offset).contains_s(x) <==> a.contains_s(x.sub_s(offset)),
    ;

    /// A translation preserves the step size.
    proof fn law_translate_step(a: Self, offset: D)
        ensures
            a.translate_s(offset).step_s() == a.step_s(),
    ;
}

} // verus!
