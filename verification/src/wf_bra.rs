//! Bras: the duals of kets. Applying a bra to a ket integrates the product
//! of their pointwise values over the overlap of their subdomains, by the
//! left-endpoint rectangle rule with the subdomain step as quadrature
//! weight.

use std::sync::Arc;

use vstd::prelude::*;

use crate::braket::Bra;
use crate::domain::{Domain, SubDomain};
use crate::fields::Field;
use crate::operations::WFOperation;
use crate::signature::{WFFunc, WFSignature};
use crate::vectorspace::VectorSpace;
use crate::wavefunction::Wavefunction;
use crate::wf_ket::WFKet;

verus! {

/// The quadrature sum of the first `n` integrand values, each weighted by
/// the step `w`, folded from the field's zero.
pub open spec fn quad_sum_s<S: WFSignature>(terms: Seq<S::Out>, w: S::Space, n: int) -> S::Out
    decreases n,
{
    if n <= 0 || n > terms.len() {
        <S::Out as Field>::zero_s()
    } else {
        quad_sum_s::<S>(terms, w, n - 1).add_s(S::mul_to_codomain_s(w, terms[n - 1]))
    }
}

/// The integration domain of an inner product: the overlap of the ket's and
/// the bra's subdomains.
pub open spec fn apply_domain_s<S: WFSignature>(b: WFBra<S>, k: WFKet<S>) -> S::SubDom {
    k.subdomain.mul_s(b.subdomain)
}

/// The integrand of an inner product: the product of the bra's and the
/// ket's pointwise values at each sample point of the integration domain.
pub open spec fn integrand_s<S: WFSignature>(b: WFBra<S>, k: WFKet<S>, t: S::Time) -> Seq<
    S::Out,
> {
    apply_domain_s(b, k).points_s().map_values(|x: S::Space| b.f_s(x, t).mul_s(k.f_s(x, t)))
}

/// A bra (covector) holding a wavefunction.
///
/// It represents the dual of a ket: structurally the same pairing of an
/// operation tree with a subdomain, applied to kets by integration.
pub struct WFBra<S: WFSignature> {
    /// The wavefunction underlying this bra
    pub wavefunction: WFOperation<S>,
    /// The subset of the domain where this bra is defined
    pub subdomain: S::SubDom,
}

impl<S: WFSignature> WFBra<S> {
    /// The pointwise value of the bra: the value of its operation tree
    /// inside the subdomain, the field's zero outside.
    pub open spec fn f_s(self, x: S::Space, t: S::Time) -> S::Out {
        if self.subdomain.contains_s(x) {
            self.wavefunction.eval_s(x, t)
        } else {
            <S::Out as Field>::zero_s()
        }
    }

    /// The pointwise probability density of the bra.
    pub open spec fn p_s(self, x: S::Space, t: S::Time) -> S::Out {
        if self.subdomain.contains_s(x) {
            self.f_s(x, t).conj_s().mul_s(self.f_s(x, t))
        } else {
            <S::Out as Field>::zero_s()
        }
    }

    /// Whether this bra can be applied to the given ket: the overlap of
    /// their subdomains must be steppable.
    pub open spec fn applicable_s(self, ket: WFKet<S>) -> bool {
        apply_domain_s(self, ket).iterable_s()
    }

    /// The inner product of this bra with a ket at time `t`: the quadrature
    /// sum of the integrand over the overlap of the subdomains.
    pub open spec fn apply_s(b: WFBra<S>, k: WFKet<S>, t: S::Time) -> S::Out {
        quad_sum_s::<S>(
            integrand_s(b, k, t),
            apply_domain_s(b, k).step_s(),
            integrand_s(b, k, t).len() as int,
        )
    }

    /// The left fold of the subdomains of the first `n` bras under the
    /// union-style combination; the degenerate subdomain if there are none.
    pub open spec fn subdomain_sum_s(bs: Seq<WFBra<S>>, n: int) -> S::SubDom
        decreases n,
    {
        if n <= 0 || n > bs.len() {
            <S::SubDom as SubDomain<S::Space>>::none_s()
        } else if n == 1 {
            bs[0].subdomain
        } else {
            Self::subdomain_sum_s(bs, n - 1).add_s(bs[n - 1].subdomain)
        }
    }

    /// The left fold of the subdomains of the first `n` weighted bras under
    /// the union-style combination; the degenerate subdomain if there are
    /// none.
    pub open spec fn subdomain_wsum_s(ws: Seq<(S::Out, WFBra<S>)>, n: int) -> S::SubDom
        decreases n,
    {
        if n <= 0 || n > ws.len() {
            <S::SubDom as SubDomain<S::Space>>::none_s()
        } else if n == 1 {
            ws[0].1.subdomain
        } else {
            Self::subdomain_wsum_s(ws, n - 1).add_s(ws[n - 1].1.subdomain)
        }
    }

    /// A bra from a wavefunction leaf and the subdomain it lives on.
    pub fn new(f: Arc<S::Wf>, subdomain: S::SubDom) -> (r: Self)
        ensures
            r.subdomain == subdomain,
            forall|x: S::Space, t: S::Time| #[trigger] r.wavefunction.eval_s(x, t) == (*f).f_s(
                x,
                t,
            ),
    {
        WFBra { wavefunction: WFOperation::func(f), subdomain }
    }

    /// The additive identity: the zero function, over the degenerate
    /// subdomain, since a bra that contributes nothing constrains nothing.
    pub fn zero() -> (r: Self)
        ensures
            r.subdomain == <S::SubDom as SubDomain<S::Space>>::none_s(),
            forall|x: S::Space, t: S::Time|
                #[trigger] r.wavefunction.eval_s(x, t) == <S::Out as Field>::zero_s(),
    {
        WFBra {
            wavefunction: WFOperation::sum(Vec::new()),
            subdomain: <S::SubDom as SubDomain<S::Space>>::none(),
        }
    }

    /// Scale this bra by a scalar; the subdomain is untouched.
    pub fn scale(self, c: S::Out) -> (r: Self)
        ensures
            r.subdomain == self.subdomain,
            forall|x: S::Space, t: S::Time| #[trigger] r.wavefunction.eval_s(x, t) == c.mul_s(
                self.wavefunction.eval_s(x, t),
            ),
    {
        WFBra {
            wavefunction: WFOperation::scale(c, self.wavefunction),
            subdomain: self.subdomain,
        }
    }

    /// Sum many bras pointwise; the subdomains are combined by the
    /// union-style rule, so the result covers every summand.
    pub fn sum(vectors: Vec<Self>) -> (r: Self)
        ensures
            r.subdomain == Self::subdomain_sum_s(vectors@, vectors@.len() as int),
            forall|x: S::Space, t: S::Time| #[trigger] r.wavefunction.eval_s(x, t)
                == WFOperation::<S>::eval_sum_s(
                vectors@.map_values(|b: WFBra<S>| b.wavefunction),
                x,
                t,
                vectors@.len() as int,
            ),
    {
        let n = vectors.len();
        let mut ops: Vec<WFOperation<S>> = Vec::new();
        let mut i: usize = 0;
        while i < n
            invariant
                i <= n,
                n == vectors@.len(),
                ops@ == vectors@.take(i as int).map_values(|b: WFBra<S>| b.wavefunction),
            decreases n - i,
        {
            ops.push(vectors[i].wavefunction.clone());
            proof {
                assert(ops@ =~= vectors@.take(i + 1int).map_values(
                    |b: WFBra<S>| b.wavefunction,
                ));
            }
            i = i + 1;
        }
        proof {
            assert(vectors@.take(n as int) =~= vectors@);
        }
        let op = WFOperation::sum(ops);
        let mut sd = <S::SubDom as SubDomain<S::Space>>::none();
        if n > 0 {
            sd = vectors[0].subdomain;
            let mut j: usize = 1;
            while j < n
                invariant
                    1 <= j <= n,
                    n == vectors@.len(),
                    sd == Self::subdomain_sum_s(vectors@, j as int),
                decreases n - j,
            {
                sd = sd.add(vectors[j].subdomain);
                j = j + 1;
            }
        }
        WFBra { wavefunction: op, subdomain: sd }
    }

    /// Sum many bras pointwise with weights; the subdomains are combined by
    /// the union-style rule, so the result covers every summand.
    pub fn weighted_sum(summands: Vec<(S::Out, Self)>) -> (r: Self)
        ensures
            r.subdomain == Self::subdomain_wsum_s(summands@, summands@.len() as int),
            forall|x: S::Space, t: S::Time| #[trigger] r.wavefunction.eval_s(x, t)
                == WFOperation::<S>::eval_wsum_s(
                summands@.map_values(|p: (S::Out, WFBra<S>)| (p.0, p.1.wavefunction)),
                x,
                t,
                summands@.len() as int,
            ),
    {
        let n = summands.len();
        let mut ops: Vec<(S::Out, WFOperation<S>)> = Vec::new();
        let mut i: usize = 0;
        while i < n
            invariant
                i <= n,
                n == summands@.len(),
                ops@ == summands@.take(i as int).map_values(
                    |p: (S::Out, WFBra<S>)| (p.0, p.1.wavefunction),
                ),
            decreases n - i,
        {
            ops.push((summands[i].0, summands[i].1.wavefunction.clone()));
            proof {
                assert(ops@ =~= summands@.take(i + 1int).map_values(
                    |p: (S::Out, WFBra<S>)| (p.0, p.1.wavefunction),
                ));
            }
            i = i + 1;
        }
        proof {
            assert(summands@.take(n as int) =~= summands@);
        }
        let op = WFOperation::weighted_sum(ops);
        let mut sd = <S::SubDom as SubDomain<S::Space>>::none();
        if n > 0 {
            sd = summands[0].1.subdomain;
            let mut j: usize = 1;
            while j < n
                invariant
                    1 <= j <= n,
                    n == summands@.len(),
                    sd == Self::subdomain_wsum_s(summands@, j as int),
                decreases n - j,
            {
                sd = sd.add(summands[j].1.subdomain);
                j = j + 1;
            }
        }
        WFBra { wavefunction: op, subdomain: sd }
    }

    /// Add another bra pointwise; the subdomains are combined by the
    /// union-style rule.
    pub fn add(self, rhs: Self) -> (r: Self)
        ensures
            r.subdomain == self.subdomain.add_s(rhs.subdomain),
            forall|x: S::Space, t: S::Time| #[trigger] r.wavefunction.eval_s(x, t)
                == self.wavefunction.eval_s(x, t).add_s(rhs.wavefunction.eval_s(x, t)),
    {
        let sd = self.subdomain.add(rhs.subdomain);
        WFBra { wavefunction: self.wavefunction.add(rhs.wavefunction), subdomain: sd }
    }

    /// Subtract another bra pointwise. The subdomains are still combined by
    /// the union-style rule: subtraction only affects the values, and the
    /// support must cover both operands.
    pub fn sub(self, rhs: Self) -> (r: Self)
        ensures
            r.subdomain == self.subdomain.add_s(rhs.subdomain),
            forall|x: S::Space, t: S::Time| #[trigger] r.wavefunction.eval_s(x, t)
                == self.wavefunction.eval_s(x, t).add_s(rhs.wavefunction.eval_s(x, t).neg_s()),
    {
        let sd = self.subdomain.add(rhs.subdomain);
        WFBra { wavefunction: self.wavefunction.sub(rhs.wavefunction), subdomain: sd }
    }

    /// Negate this bra pointwise; the subdomain is untouched.
    pub fn neg(self) -> (r: Self)
        ensures
            r.subdomain == self.subdomain,
            forall|x: S::Space, t: S::Time| #[trigger] r.wavefunction.eval_s(x, t)
                == self.wavefunction.eval_s(x, t).neg_s(),
    {
        WFBra { wavefunction: self.wavefunction.neg(), subdomain: self.subdomain }
    }

    /// Evaluate this bra at a point in space and time: the value of its
    /// wavefunction inside the subdomain, the field's zero outside.
    pub fn f(&self, x: S::Space, t: S::Time) -> (r: S::Out)
        ensures
            r == self.f_s(x, t),
    {
        if self.subdomain.contains(x) {
            self.wavefunction.eval(x, t)
        } else {
            <S::Out as Field>::zero()
        }
    }

    /// Evaluate the probability density of this bra at a point in space and
    /// time.
    pub fn p(&self, x: S::Space, t: S::Time) -> (r: S::Out)
        ensures
            r == self.p_s(x, t),
    {
        if self.subdomain.contains(x) {
            let value = self.f(x, t);
            value.conjugate().mul(value)
        } else {
            <S::Out as Field>::zero()
        }
    }

    /// Translate this bra in space: both the wavefunction and the subdomain
    /// shift by the offset, and the step size is unchanged.
    pub fn translate_space(self, offset: S::Space) -> (r: Self)
        ensures
            r.subdomain == self.subdomain.translate_s(offset),
            forall|x: S::Space, t: S::Time| #[trigger] r.wavefunction.eval_s(x, t)
                == self.wavefunction.eval_s(x.sub_s(offset), t),
    {
        WFBra {
            wavefunction: WFOperation::translate_space(offset, self.wavefunction),
            subdomain: self.subdomain.translate(offset),
        }
    }

    /// Translate this bra in time; the subdomain, which bounds space only,
    /// is untouched.
    pub fn translate_time(self, offset: S::Time) -> (r: Self)
        ensures
            r.subdomain == self.subdomain,
            forall|x: S::Space, t: S::Time| #[trigger] r.wavefunction.eval_s(x, t)
                == self.wavefunction.eval_s(x, t.sub_s(offset)),
    {
        WFBra {
            wavefunction: WFOperation::translate_time(offset, self.wavefunction),
            subdomain: self.subdomain,
        }
    }

    /// Convert to the corresponding ket: the wavefunction is conjugated
    /// pointwise, the subdomain is carried through unchanged. The adjoint is
    /// an involution between kets and bras.
    pub fn to_adjoint(self) -> (r: WFKet<S>)
        ensures
            r.subdomain == self.subdomain,
            forall|x: S::Space, t: S::Time| #[trigger] r.wavefunction.eval_s(x, t)
                == self.wavefunction.eval_s(x, t).conj_s(),
    {
        WFKet {
            wavefunction: WFOperation::adjoint(self.wavefunction),
            subdomain: self.subdomain,
        }
    }

    /// Apply this bra to a ket: the inner product at time `t`, integrating
    /// the pointwise product over the overlap of the subdomains by the
    /// left-endpoint rectangle rule. An empty overlap yields the field's
    /// zero.
    pub fn apply(&self, ket: &WFKet<S>, t: S::Time) -> (r: S::Out)
        requires
            self.applicable_s(*ket),
        ensures
            r == Self::apply_s(*self, *ket, t),
    {
        let domain = ket.subdomain.mul(self.subdomain);
        let step = domain.step_size();
        let pts = domain.points();
        let mut acc = <S::Out as Field>::zero();
        let mut i: usize = 0;
        while i < pts.len()
            invariant
                i <= pts@.len(),
                pts@ == apply_domain_s(*self, *ket).points_s(),
                step == apply_domain_s(*self, *ket).step_s(),
                acc == quad_sum_s::<S>(integrand_s(*self, *ket, t), step, i as int),
            decreases pts@.len() - i,
        {
            let term = self.f(pts[i], t).mul(ket.f(pts[i], t));
            acc = acc.add(S::mul_to_codomain(step, term));
            i = i + 1;
        }
        acc
    }

    /// Apply this bra to a ket at the zero of time.
    pub fn mul(&self, rhs: &WFKet<S>) -> (r: S::Out)
        requires
            self.applicable_s(*rhs),
        ensures
            r == Self::apply_s(*self, *rhs, <S::Time as Domain>::zero_s()),
    {
        self.apply(rhs, <S::Time as Domain>::zero())
    }
}

impl<S: WFSignature> Default for WFBra<S> {
    /// The zero function over the degenerate subdomain.
    fn default() -> (r: Self)
        ensures
            r.subdomain == <S::SubDom as SubDomain<S::Space>>::none_s(),
            forall|x: S::Space, t: S::Time|
                #[trigger] r.wavefunction.eval_s(x, t) == <S::Out as Field>::zero_s(),
    {
        WFBra {
            wavefunction: WFOperation::sum(Vec::new()),
            subdomain: <S::SubDom as SubDomain<S::Space>>::none(),
        }
    }
}

impl<S: WFSignature> Clone for WFBra<S> {
    /// Another owner of the same immutable wavefunction and subdomain.
    fn clone(&self) -> (r: Self)
        ensures
            r == *self,
    {
        WFBra { wavefunction: self.wavefunction.clone(), subdomain: self.subdomain }
    }
}

impl<S: WFSignature> Wavefunction<S> for WFBra<S> {
    open spec fn f_spec(self, x: S::Space, t: S::Time) -> S::Out {
        self.f_s(x, t)
    }

    open spec fn p_spec(self, x: S::Space, t: S::Time) -> S::Out {
        self.p_s(x, t)
    }

    open spec fn translate_space_ens(self, offset: S::Space, r: Self) -> bool {
        &&& r.subdomain == self.subdomain.translate_s(offset)
        &&& forall|x: S::Space, t: S::Time| #[trigger] r.wavefunction.eval_s(x, t)
            == self.wavefunction.eval_s(x.sub_s(offset), t)
    }

    open spec fn translate_time_ens(self, offset: S::Time, r: Self) -> bool {
        &&& r.subdomain == self.subdomain
        &&& forall|x: S::Space, t: S::Time| #[trigger] r.wavefunction.eval_s(x, t)
            == self.wavefunction.eval_s(x, t.sub_s(offset))
    }

    fn f(&self, x: S::Space, t: S::Time) -> S::Out {
        WFBra::f(self, x, t)
    }

    fn p(&self, x: S::Space, t: S::Time) -> S::Out {
        WFBra::p(self, x, t)
    }

    fn translate_space(self, offset: S::Space) -> Self {
        WFBra::translate_space(self, offset)
    }

    fn translate_time(self, offset: S::Time) -> Self {
        WFBra::translate_time(self, offset)
    }
}

impl<S: WFSignature> VectorSpace<S::Out> for WFBra<S> {
    open spec fn zero_ens(r: Self) -> bool {
        &&& r.subdomain == <S::SubDom as SubDomain<S::Space>>::none_s()
        &&& forall|x: S::Space, t: S::Time|
            #[trigger] r.wavefunction.eval_s(x, t) == <S::Out as Field>::zero_s()
    }

    open spec fn scale_ens(self, c: S::Out, r: Self) -> bool {
        &&& r.subdomain == self.subdomain
        &&& forall|x: S::Space, t: S::Time| #[trigger] r.wavefunction.eval_s(x, t) == c.mul_s(
            self.wavefunction.eval_s(x, t),
        )
    }

    open spec fn sum_ens(vectors: Seq<WFBra<S>>, r: Self) -> bool {
        &&& r.subdomain == Self::subdomain_sum_s(vectors, vectors.len() as int)
        &&& forall|x: S::Space, t: S::Time| #[trigger] r.wavefunction.eval_s(x, t)
            == WFOperation::<S>::eval_sum_s(
            vectors.map_values(|b: WFBra<S>| b.wavefunction),
            x,
            t,
            vectors.len() as int,
        )
    }

    open spec fn weighted_sum_ens(summands: Seq<(S::Out, WFBra<S>)>, r: Self) -> bool {
        &&& r.subdomain == Self::subdomain_wsum_s(summands, summands.len() as int)
        &&& forall|x: S::Space, t: S::Time| #[trigger] r.wavefunction.eval_s(x, t)
            == WFOperation::<S>::eval_wsum_s(
            summands.map_values(|p: (S::Out, WFBra<S>)| (p.0, p.1.wavefunction)),
            x,
            t,
            summands.len() as int,
        )
    }

    open spec fn add_ens(self, rhs: Self, r: Self) -> bool {
        &&& r.subdomain == self.subdomain.add_s(rhs.subdomain)
        &&& forall|x: S::Space, t: S::Time| #[trigger] r.wavefunction.eval_s(x, t)
            == self.wavefunction.eval_s(x, t).add_s(rhs.wavefunction.eval_s(x, t))
    }

    open spec fn sub_ens(self, rhs: Self, r: Self) -> bool {
        &&& r.subdomain == self.subdomain.add_s(rhs.subdomain)
        &&& forall|x: S::Space, t: S::Time| #[trigger] r.wavefunction.eval_s(x, t)
            == self.wavefunction.eval_s(x, t).add_s(rhs.wavefunction.eval_s(x, t).neg_s())
    }

    open spec fn neg_ens(self, r: Self) -> bool {
        &&& r.subdomain == self.subdomain
        &&& forall|x: S::Space, t: S::Time| #[trigger] r.wavefunction.eval_s(x, t)
            == self.wavefunction.eval_s(x, t).neg_s()
    }

    fn zero() -> Self {
        WFBra::zero()
    }

    fn scale(self, c: S::Out) -> Self {
        WFBra::scale(self, c)
    }

    fn sum(vectors: Vec<Self>) -> Self {
        WFBra::sum(vectors)
    }

    fn weighted_sum(summands: Vec<(S::Out, Self)>) -> Self {
        WFBra::weighted_sum(summands)
    }

    fn add(self, rhs: Self) -> Self {
        WFBra::add(self, rhs)
    }

    fn sub(self, rhs: Self) -> Self {
        WFBra::sub(self, rhs)
    }

    fn neg(self) -> Self {
        WFBra::neg(self)
    }
}

impl<S: WFSignature> Bra<S> for WFBra<S> {
    type Ket = WFKet<S>;

    open spec fn applicable(self, ket: WFKet<S>) -> bool {
        self.applicable_s(ket)
    }

    open spec fn apply_ens(self, ket: WFKet<S>, t: S::Time, r: S::Out) -> bool {
        r == Self::apply_s(self, ket, t)
    }

    fn apply(&self, ket: &WFKet<S>, t: S::Time) -> S::Out {
        WFBra::apply(self, ket, t)
    }
}

} // verus!
