//! Functionality for representing mathematical fields.
//!
//! A [`Field`] is the scalar type of the wavefunction algebra: the codomain of
//! every wavefunction and the coefficient type of every linear combination.
//! Besides the ring operations it carries a conjugation involution, so that a
//! bra can be the pointwise conjugate of a ket.
//!
//! Two exact instances are provided: [`Gf2`], the two-element field, on which
//! conjugation is the identity (it plays the role of a real scalar type), and
//! [`Gf4`], its quadratic extension, whose conjugation is the nontrivial
//! automorphism fixing exactly the [`Gf2`] elements (it plays the role of a
//! complex scalar type).

use vstd::prelude::*;

verus! {

/// Trait requiring properties of a field (the mathematical object) with an
/// involution for conjugation.
///
/// The `law_*` obligations are the field axioms; every implementation must
/// prove them, so generic code over a `Field` may rely on them for any value.
pub trait Field: Sized + Copy {
    /// The value of an addition, as seen by specifications.
    spec fn add_s(self, o: Self) -> Self;

    /// The value of a multiplication, as seen by specifications.
    spec fn mul_s(self, o: Self) -> Self;

    /// The value of a negation, as seen by specifications.
    spec fn neg_s(self) -> Self;

    /// The value of a conjugation, as seen by specifications.
    spec fn conj_s(self) -> Self;

    /// The additive identity, as seen by specifications.
    spec fn zero_s() -> Self;

    /// The multiplicative identity, as seen by specifications.
    spec fn one_s() -> Self;

    /// The additive identity of the field.
    fn zero() -> (r: Self)
        ensures
            r == Self::zero_s(),
    ;

    /// The multiplicative identity of the field.
    fn one() -> (r: Self)
        ensures
            r == Self::one_s(),
    ;

    /// Add another element of the field to this one.
    fn add(self, o: Self) -> (r: Self)
        ensures
            r == self.add_s(o),
    ;

    /// Subtract another element of the field from this one.
    fn sub(self, o: Self) -> (r: Self)
        ensures
            r == self.add_s(o.neg_s()),
    ;

    /// Multiply this element of the field by another one.
    fn mul(self, o: Self) -> (r: Self)
        ensures
            r == self.mul_s(o),
    ;

    /// The additive inverse of this element.
    fn neg(self) -> (r: Self)
        ensures
            r == self.neg_s(),
    ;

    /// The multiplicative inverse of this element, or `None` exactly when the
    /// element is the additive identity.
    fn inv(&self) -> (r: Option<Self>)
        ensures
            r is None <==> *self == Self::zero_s(),
            r matches Some(i) ==> self.mul_s(i) == Self::one_s(),
    ;

    /// Check if element is the zero of the field.
    fn is_zero(&self) -> (r: bool)
        ensures
            r == (*self == Self::zero_s()),
    ;

    /// Take conjugate of the element.
    fn conjugate(self) -> (r: Self)
        ensures
            r == self.conj_s(),
    ;

    /// Addition commutes.
    proof fn law_add_comm(a: Self, b: Self)
        ensures
            a.add_s(b) == b.add_s(a),
    ;

    /// Addition associates.
    proof fn law_add_assoc(a: Self, b: Self, c: Self)
        ensures
            a.add_s(b).add_s(c) == a.add_s(b.add_s(c)),
    ;

    /// The additive identity is neutral.
    proof fn law_add_zero(a: Self)
        ensures
            a.add_s(Self::zero_s()) == a,
    ;

    /// Every element has an additive inverse.
    proof fn law_add_neg(a: Self)
        ensures
            a.add_s(a.neg_s()) == Self::zero_s(),
    ;

    /// Multiplication commutes.
    proof fn law_mul_comm(a: Self, b: Self)
        ensures
            a.mul_s(b) == b.mul_s(a),
    ;

    /// Multiplication associates.
    proof fn law_mul_assoc(a: Self, b: Self, c: Self)
        ensures
            a.mul_s(b).mul_s(c) == a.mul_s(b.mul_s(c)),
    ;

    /// The multiplicative identity is neutral.
    proof fn law_mul_one(a: Self)
        ensures
            a.mul_s(Self::one_s()) == a,
    ;

    /// Multiplication distributes over addition.
    proof fn law_mul_distrib(a: Self, b: Self, c: Self)
        ensures
            a.mul_s(b.add_s(c)) == a.mul_s(b).add_s(a.mul_s(c)),
    ;

    /// Conjugation is an involution.
    proof fn law_conj_involution(a: Self)
        ensures
            a.conj_s().conj_s() == a,
    ;

    /// Conjugation distributes over addition.
    proof fn law_conj_add(a: Self, b: Self)
        ensures
            a.add_s(b).conj_s() == a.conj_s().add_s(b.conj_s()),
    ;

    /// Conjugation distributes over multiplication.
    proof fn law_conj_mul(a: Self, b: Self)
        ensures
            a.mul_s(b).conj_s() == a.conj_s().mul_s(b.conj_s()),
    ;
}

/// Conjugation fixes the additive identity.
pub proof fn lemma_conj_zero<F: Field>()
    ensures
        F::zero_s().conj_s() == F::zero_s(),
{
    let z = F::zero_s();
    F::law_add_zero(z);
    F::law_conj_add(z, z);
    assert(z.conj_s() == z.conj_s().add_s(z.conj_s()));
    F::law_add_zero(z.conj_s());
    lemma_add_cancel(z.conj_s(), z.conj_s(), z);
}

/// The additive identity is also neutral on the left.
pub proof fn lemma_zero_add<F: Field>(a: F)
    ensures
        F::zero_s().add_s(a) == a,
{
    F::law_add_comm(F::zero_s(), a);
    F::law_add_zero(a);
}

/// Addition cancels: equal sums with an equal first summand have equal second
/// summands.
pub proof fn lemma_add_cancel<F: Field>(a: F, b: F, c: F)
    requires
        a.add_s(b) == a.add_s(c),
    ensures
        b == c,
{
    F::law_add_comm(a, b);
    F::law_add_comm(a, c);
    F::law_add_assoc(a.neg_s(), a, b);
    F::law_add_assoc(a.neg_s(), a, c);
    F::law_add_neg(a);
    F::law_add_comm(a, a.neg_s());
    assert(a.neg_s().add_s(a) == F::zero_s());
    assert(a.neg_s().add_s(b.add_s(a)) == a.neg_s().add_s(c.add_s(a)));
    F::law_add_comm(b, a);
    F::law_add_comm(c, a);
    lemma_zero_add(b);
    lemma_zero_add(c);
}

/// Multiplying by the additive identity yields the additive identity.
pub proof fn lemma_mul_zero<F: Field>(a: F)
    ensures
        a.mul_s(F::zero_s()) == F::zero_s(),
{
    F::law_mul_distrib(a, F::zero_s(), F::zero_s());
    F::law_add_zero(F::zero_s());
    assert(a.mul_s(F::zero_s()) == a.mul_s(F::zero_s()).add_s(a.mul_s(F::zero_s())));
    F::law_add_zero(a.mul_s(F::zero_s()));
    lemma_add_cancel(a.mul_s(F::zero_s()), a.mul_s(F::zero_s()), F::zero_s());
}

/// Negation moves through a multiplication.
pub proof fn lemma_mul_neg<F: Field>(a: F, b: F)
    ensures
        a.mul_s(b.neg_s()) == a.mul_s(b).neg_s(),
{
    F::law_mul_distrib(a, b, b.neg_s());
    F::law_add_neg(b);
    lemma_mul_zero(a);
    assert(a.mul_s(b).add_s(a.mul_s(b.neg_s())) == F::zero_s());
    F::law_add_neg(a.mul_s(b));
    lemma_add_cancel(a.mul_s(b), a.mul_s(b.neg_s()), a.mul_s(b).neg_s());
}

/// Two sums of two summands each may be re-paired.
pub proof fn lemma_add_shuffle<F: Field>(a: F, b: F, c: F, d: F)
    ensures
        a.add_s(b).add_s(c.add_s(d)) == a.add_s(c).add_s(b.add_s(d)),
{
    F::law_add_assoc(a, b, c.add_s(d));
    F::law_add_assoc(b, c, d);
    F::law_add_comm(b, c);
    F::law_add_assoc(c, b, d);
    assert(b.add_s(c.add_s(d)) == c.add_s(b.add_s(d)));
    F::law_add_assoc(a, c, b.add_s(d));
}

/// The two-element field: the exact counterpart of a real scalar type, on
/// which conjugation is the identity.
#[derive(Clone, Copy, PartialEq, Eq, Structural, Debug)]
pub struct Gf2 {
    /// The element, `false` standing for zero and `true` for one.
    pub bit: bool,
}

impl Field for Gf2 {
    open spec fn add_s(self, o: Self) -> Self {
        Gf2 { bit: self.bit != o.bit }
    }

    open spec fn mul_s(self, o: Self) -> Self {
        Gf2 { bit: self.bit && o.bit }
    }

    open spec fn neg_s(self) -> Self {
        self
    }

    open spec fn conj_s(self) -> Self {
        self
    }

    open spec fn zero_s() -> Self {
        Gf2 { bit: false }
    }

    open spec fn one_s() -> Self {
        Gf2 { bit: true }
    }

    fn zero() -> Self {
        Gf2 { bit: false }
    }

    fn one() -> Self {
        Gf2 { bit: true }
    }

    fn add(self, o: Self) -> Self {
        Gf2 { bit: self.bit != o.bit }
    }

    fn sub(self, o: Self) -> Self {
        Gf2 { bit: self.bit != o.bit }
    }

    fn mul(self, o: Self) -> Self {
        Gf2 { bit: self.bit && o.bit }
    }

    fn neg(self) -> Self {
        self
    }

    fn inv(&self) -> Option<Self> {
        if self.bit {
            Some(Gf2 { bit: true })
        } else {
            None
        }
    }

    fn is_zero(&self) -> bool {
        !self.bit
    }

    fn conjugate(self) -> Self {
        self
    }

    proof fn law_add_comm(a: Self, b: Self) {
    }

    proof fn law_add_assoc(a: Self, b: Self, c: Self) {
    }

    proof fn law_add_zero(a: Self) {
    }

    proof fn law_add_neg(a: Self) {
    }

    proof fn law_mul_comm(a: Self, b: Self) {
    }

    proof fn law_mul_assoc(a: Self, b: Self, c: Self) {
    }

    proof fn law_mul_one(a: Self) {
    }

    proof fn law_mul_distrib(a: Self, b: Self, c: Self) {
    }

    proof fn law_conj_involution(a: Self) {
    }

    proof fn law_conj_add(a: Self, b: Self) {
    }

    proof fn law_conj_mul(a: Self, b: Self) {
    }
}

/// On [`Gf2`] conjugation is the identity: it is a real scalar type.
pub proof fn lemma_gf2_conj_identity(a: Gf2)
    ensures
        a.conj_s() == a,
{
}

/// The four-element field, the quadratic extension of [`Gf2`]: the exact
/// counterpart of a complex scalar type.
///
/// An element is `unit + omega·w`, where `w` is a root of `w² = w + 1`.
/// Conjugation maps `w` to its conjugate root `w + 1`; it is the nontrivial
/// automorphism of the extension and fixes exactly the [`Gf2`] elements.
#[derive(Clone, Copy, PartialEq, Eq, Structural, Debug)]
pub struct Gf4 {
    /// The coefficient of one.
    pub unit: bool,
    /// The coefficient of the adjoined root.
    pub omega: bool,
}

impl Field for Gf4 {
    open spec fn add_s(self, o: Self) -> Self {
        Gf4 { unit: self.unit != o.unit, omega: self.omega != o.omega }
    }

    open spec fn mul_s(self, o: Self) -> Self {
        Gf4 {
            unit: (self.unit && o.unit) != (self.omega && o.omega),
            omega: ((self.unit && o.omega) != (self.omega && o.unit)) != (self.omega && o.omega),
        }
    }

    open spec fn neg_s(self) -> Self {
        self
    }

    open spec fn conj_s(self) -> Self {
        Gf4 { unit: self.unit != self.omega, omega: self.omega }
    }

    open spec fn zero_s() -> Self {
        Gf4 { unit: false, omega: false }
    }

    open spec fn one_s() -> Self {
        Gf4 { unit: true, omega: false }
    }

    fn zero() -> Self {
        Gf4 { unit: false, omega: false }
    }

    fn one() -> Self {
        Gf4 { unit: true, omega: false }
    }

    fn add(self, o: Self) -> Self {
        Gf4 { unit: self.unit != o.unit, omega: self.omega != o.omega }
    }

    fn sub(self, o: Self) -> Self {
        Gf4 { unit: self.unit != o.unit, omega: self.omega != o.omega }
    }

    fn mul(self, o: Self) -> Self {
        Gf4 {
            unit: (self.unit && o.unit) != (self.omega && o.omega),
            omega: ((self.unit && o.omega) != (self.omega && o.unit)) != (self.omega && o.omega),
        }
    }

    fn neg(self) -> Self {
        self
    }

    fn inv(&self) -> Option<Self> {
        if !self.unit && !self.omega {
            None
        } else if self.unit && !self.omega {
            Some(Gf4 { unit: true, omega: false })
        } else if !self.unit && self.omega {
            Some(Gf4 { unit: true, omega: true })
        } else {
            Some(Gf4 { unit: false, omega: true })
        }
    }

    fn is_zero(&self) -> bool {
        !self.unit && !self.omega
    }

    fn conjugate(self) -> Self {
        Gf4 { unit: self.unit != self.omega, omega: self.omega }
    }

    proof fn law_add_comm(a: Self, b: Self) {
    }

    proof fn law_add_assoc(a: Self, b: Self, c: Self) {
    }

    proof fn law_add_zero(a: Self) {
    }

    proof fn law_add_neg(a: Self) {
    }

    proof fn law_mul_comm(a: Self, b: Self) {
    }

    proof fn law_mul_assoc(a: Self, b: Self, c: Self) {
    }

    proof fn law_mul_one(a: Self) {
    }

    proof fn law_mul_distrib(a: Self, b: Self, c: Self) {
    }

    proof fn law_conj_involution(a: Self) {
    }

    proof fn law_conj_add(a: Self, b: Self) {
    }

    proof fn law_conj_mul(a: Self, b: Self) {
    }
}

/// The element of [`Gf4`] usually written `ω`: the adjoined root itself.
pub open spec fn gf4_omega_s() -> Gf4 {
    Gf4 { unit: false, omega: true }
}

/// On [`Gf4`] conjugation fixes exactly the elements of the base field, those
/// with no component along the adjoined root.
pub proof fn lemma_gf4_conj_real(a: Gf4)
    ensures
        a.conj_s() == a <==> !a.omega,
{
}

} // verus!
