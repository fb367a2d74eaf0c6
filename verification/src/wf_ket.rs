//! Kets: wavefunction value objects pairing an operation tree with the
//! subdomain on which the wavefunction is defined.

use std::sync::Arc;

use vstd::prelude::*;

use crate::braket::Ket;
use crate::domain::{Domain, SubDomain};
use crate::fields::Field;
use crate::operations::WFOperation;
use crate::signature::{WFFunc, WFSignature};
use crate::vectorspace::VectorSpace;
use crate::wavefunction::Wavefunction;
use crate::wf_bra::WFBra;

verus! {

/// A ket (vector) holding a wavefunction.
///
/// It represents the function equal to `wavefunction` inside `subdomain` and
/// to the field's zero outside it: the subdomain is a hard truncation mask.
pub struct WFKet<S: WFSignature> {
    /// The wavefunction underlying this ket
    pub wavefunction: WFOperation<S>,
    /// The subset of the domain where this ket is defined.
    pub subdomain: S::SubDom,
}

impl<S: WFSignature> WFKet<S> {
    /// The pointwise value of the ket: the value of its operation tree
    /// inside the subdomain, the field's zero outside.
    pub open spec fn f_s(self, x: S::Space, t: S::Time) -> S::Out {
        if self.subdomain.contains_s(x) {
            self.wavefunction.eval_s(x, t)
        } else {
            <S::Out as Field>::zero_s()
        }
    }

    /// The pointwise probability density of the ket: conjugate times value
    /// inside the subdomain, the field's zero outside.
    pub open spec fn p_s(self, x: S::Space, t: S::Time) -> S::Out {
        if self.subdomain.contains_s(x) {
            self.f_s(x, t).conj_s().mul_s(self.f_s(x, t))
        } else {
            <S::Out as Field>::zero_s()
        }
    }

    /// The left fold of the subdomains of the first `n` kets under the
    /// union-style combination; the entire domain if there are none, since
    /// the empty sum of kets is the additive identity, which is defined
    /// everywhere.
    pub open spec fn subdomain_sum_s(ks: Seq<WFKet<S>>, n: int) -> S::SubDom
        decreases n,
    {
        if n <= 0 || n > ks.len() {
            <S::SubDom as SubDomain<S::Space>>::all_s()
        } else if n == 1 {
            ks[0].subdomain
        } else {
            Self::subdomain_sum_s(ks, n - 1).add_s(ks[n - 1].subdomain)
        }
    }

    /// The left fold of the subdomains of the first `n` weighted kets under
    /// the union-style combination; the entire domain if there are none,
    /// since the empty weighted sum of kets is the additive identity, which
    /// is defined everywhere.
    pub open spec fn subdomain_wsum_s(ws: Seq<(S::Out, WFKet<S>)>, n: int) -> S::SubDom
        decreases n,
    {
        if n <= 0 || n > ws.len() {
            <S::SubDom as SubDomain<S::Space>>::all_s()
        } else if n == 1 {
            ws[0].1.subdomain
        } else {
            Self::subdomain_wsum_s(ws, n - 1).add_s(ws[n - 1].1.subdomain)
        }
    }

    /// A ket from a wavefunction leaf and the subdomain it lives on.
    pub fn new(f: Arc<S::Wf>, subdomain: S::SubDom) -> (r: Self)
        ensures
            r.subdomain == subdomain,
            forall|x: S::Space, t: S::Time| #[trigger] r.wavefunction.eval_s(x, t) == (*f).f_s(
                x,
                t,
            ),
    {
        WFKet { wavefunction: WFOperation::func(f), subdomain }
    }

    /// The additive identity: the zero function, defined on the entire
    /// domain.
    pub fn zero() -> (r: Self)
        ensures
            r.subdomain == <S::SubDom as SubDomain<S::Space>>::all_s(),
            forall|x: S::Space, t: S::Time|
                #[trigger] r.wavefunction.eval_s(x, t) == <S::Out as Field>::zero_s(),
    {
        WFKet {
            wavefunction: WFOperation::sum(Vec::new()),
            subdomain: <S::SubDom as SubDomain<S::Space>>::all(),
        }
    }

    /// Scale this ket by a scalar; the subdomain is untouched.
    pub fn scale(self, c: S::Out) -> (r: Self)
        ensures
            r.subdomain == self.subdomain,
            forall|x: S::Space, t: S::Time| #[trigger] r.wavefunction.eval_s(x, t) == c.mul_s(
                self.wavefunction.eval_s(x, t),
            ),
    {
        WFKet {
            wavefunction: WFOperation::scale(c, self.wavefunction),
            subdomain: self.subdomain,
        }
    }

    /// Sum many kets pointwise; the subdomains are combined by the
    /// union-style rule, so the result covers every summand. An empty sum
    /// is the additive identity: the zero function over the entire domain.
    pub fn sum(vectors: Vec<Self>) -> (r: Self)
        ensures
            r.subdomain == Self::subdomain_sum_s(vectors@, vectors@.len() as int),
            forall|x: S::Space, t: S::Time| #[trigger] r.wavefunction.eval_s(x, t)
                == WFOperation::<S>::eval_sum_s(
                vectors@.map_values(|k: WFKet<S>| k.wavefunction),
                x,
                t,
                vectors@.len() as int,
            ),
    {
        let n = vectors.len();
        let mut ops: Vec<WFOperation<S>> = Vec::new();
        let mut i: usize = 0;
        while i < n
            invariant
                i <= n,
                n == vectors@.len(),
                ops@ == vectors@.take(i as int).map_values(|k: WFKet<S>| k.wavefunction),
            decreases n - i,
        {
            ops.push(vectors[i].wavefunction.clone());
            proof {
                assert(ops@ =~= vectors@.take(i + 1int).map_values(
                    |k: WFKet<S>| k.wavefunction,
                ));
            }
            i = i + 1;
        }
        proof {
            assert(vectors@.take(n as int) =~= vectors@);
        }
        let op = WFOperation::sum(ops);
        let mut sd = <S::SubDom as SubDomain<S::Space>>::all();
        if n > 0 {
            sd = vectors[0].subdomain;
            let mut j: usize = 1;
            while j < n
                invariant
                    1 <= j <= n,
                    n == vectors@.len(),
                    sd == Self::subdomain_sum_s(vectors@, j as int),
                decreases n - j,
            {
                sd = sd.add(vectors[j].subdomain);
                j = j + 1;
            }
        }
        WFKet { wavefunction: op, subdomain: sd }
    }

    /// Sum many kets pointwise with weights; the subdomains are combined by
    /// the union-style rule, so the result covers every summand. An empty
    /// weighted sum is the additive identity: the zero function over the
    /// entire domain.
    pub fn weighted_sum(summands: Vec<(S::Out, Self)>) -> (r: Self)
        ensures
            r.subdomain == Self::subdomain_wsum_s(summands@, summands@.len() as int),
            forall|x: S::Space, t: S::Time| #[trigger] r.wavefunction.eval_s(x, t)
                == WFOperation::<S>::eval_wsum_s(
                summands@.map_values(|p: (S::Out, WFKet<S>)| (p.0, p.1.wavefunction)),
                x,
                t,
                summands@.len() as int,
            ),
    {
        let n = summands.len();
        let mut ops: Vec<(S::Out, WFOperation<S>)> = Vec::new();
        let mut i: usize = 0;
        while i < n
            invariant
                i <= n,
                n == summands@.len(),
                ops@ == summands@.take(i as int).map_values(
                    |p: (S::Out, WFKet<S>)| (p.0, p.1.wavefunction),
                ),
            decreases n - i,
        {
            ops.push((summands[i].0, summands[i].1.wavefunction.clone()));
            proof {
                assert(ops@ =~= summands@.take(i + 1int).map_values(
                    |p: (S::Out, WFKet<S>)| (p.0, p.1.wavefunction),
                ));
            }
            i = i + 1;
        }
        proof {
            assert(summands@.take(n as int) =~= summands@);
        }
        let op = WFOperation::weighted_sum(ops);
        let mut sd = <S::SubDom as SubDomain<S::Space>>::all();
        if n > 0 {
            sd = summands[0].1.subdomain;
            let mut j: usize = 1;
            while j < n
                invariant
                    1 <= j <= n,
                    n == summands@.len(),
                    sd == Self::subdomain_wsum_s(summands@, j as int),
                decreases n - j,
            {
                sd = sd.add(summands[j].1.subdomain);
                j = j + 1;
            }
        }
        WFKet { wavefunction: op, subdomain: sd }
    }

    /// Add another ket pointwise; the subdomains are combined by the
    /// union-style rule.
    pub fn add(self, rhs: Self) -> (r: Self)
        ensures
            r.subdomain == self.subdomain.add_s(rhs.subdomain),
            forall|x: S::Space, t: S::Time| #[trigger] r.wavefunction.eval_s(x, t)
                == self.wavefunction.eval_s(x, t).add_s(rhs.wavefunction.eval_s(x, t)),
    {
        let sd = self.subdomain.add(rhs.subdomain);
        WFKet { wavefunction: self.wavefunction.add(rhs.wavefunction), subdomain: sd }
    }

    /// Subtract another ket pointwise. The subdomains are still combined by
    /// the union-style rule: subtraction only affects the values, and the
    /// support must cover both operands.
    pub fn sub(self, rhs: Self) -> (r: Self)
        ensures
            r.subdomain == self.subdomain.add_s(rhs.subdomain),
            forall|x: S::Space, t: S::Time| #[trigger] r.wavefunction.eval_s(x, t)
                == self.wavefunction.eval_s(x, t).add_s(rhs.wavefunction.eval_s(x, t).neg_s()),
    {
        let sd = self.subdomain.add(rhs.subdomain);
        WFKet { wavefunction: self.wavefunction.sub(rhs.wavefunction), subdomain: sd }
    }

    /// Negate this ket pointwise; the subdomain is untouched.
    pub fn neg(self) -> (r: Self)
        ensures
            r.subdomain == self.subdomain,
            forall|x: S::Space, t: S::Time| #[trigger] r.wavefunction.eval_s(x, t)
                == self.wavefunction.eval_s(x, t).neg_s(),
    {
        WFKet { wavefunction: self.wavefunction.neg(), subdomain: self.subdomain }
    }

    /// Evaluate this ket at a point in space and time: the value of its
    /// wavefunction inside the subdomain, the field's zero outside.
    pub fn f(&self, x: S::Space, t: S::Time) -> (r: S::Out)
        ensures
            r == self.f_s(x, t),
    {
        if self.subdomain.contains(x) {
            self.wavefunction.eval(x, t)
        } else {
            <S::Out as Field>::zero()
        }
    }

    /// Evaluate the probability density of this ket at a point in space and
    /// time.
    pub fn p(&self, x: S::Space, t: S::Time) -> (r: S::Out)
        ensures
            r == self.p_s(x, t),
    {
        if self.subdomain.contains(x) {
            let value = self.f(x, t);
            value.conjugate().mul(value)
        } else {
            <S::Out as Field>::zero()
        }
    }

    /// Translate this ket in space: both the wavefunction and the subdomain
    /// shift by the offset, and the step size is unchanged.
    pub fn translate_space(self, offset: S::Space) -> (r: Self)
        ensures
            r.subdomain == self.subdomain.translate_s(offset),
            forall|x: S::Space, t: S::Time| #[trigger] r.wavefunction.eval_s(x, t)
                == self.wavefunction.eval_s(x.sub_s(offset), t),
    {
        WFKet {
            wavefunction: WFOperation::translate_space(offset, self.wavefunction),
            subdomain: self.subdomain.translate(offset),
        }
    }

    /// Translate this ket in time; the subdomain, which bounds space only,
    /// is untouched.
    pub fn translate_time(self, offset: S::Time) -> (r: Self)
        ensures
            r.subdomain == self.subdomain,
            forall|x: S::Space, t: S::Time| #[trigger] r.wavefunction.eval_s(x, t)
                == self.wavefunction.eval_s(x, t.sub_s(offset)),
    {
        WFKet {
            wavefunction: WFOperation::translate_time(offset, self.wavefunction),
            subdomain: self.subdomain,
        }
    }

    /// Convert to the corresponding bra: the wavefunction is conjugated
    /// pointwise, the subdomain is carried through unchanged.
    pub fn to_adjoint(self) -> (r: WFBra<S>)
        ensures
            r.subdomain == self.subdomain,
            forall|x: S::Space, t: S::Time| #[trigger] r.wavefunction.eval_s(x, t)
                == self.wavefunction.eval_s(x, t).conj_s(),
    {
        WFBra {
            wavefunction: WFOperation::adjoint(self.wavefunction),
            subdomain: self.subdomain,
        }
    }

    /// Create the corresponding bra of a ket: the wavefunction is conjugated
    /// pointwise, the subdomain is carried through unchanged.
    pub fn adjoint(ket: &Self) -> (r: WFBra<S>)
        ensures
            r.subdomain == ket.subdomain,
            forall|x: S::Space, t: S::Time| #[trigger] r.wavefunction.eval_s(x, t)
                == ket.wavefunction.eval_s(x, t).conj_s(),
    {
        WFBra {
            wavefunction: WFOperation::adjoint(ket.wavefunction.clone()),
            subdomain: ket.subdomain,
        }
    }

    /// The pointwise value the adjoint bra of `k` takes: the conjugated
    /// wavefunction inside `k`'s subdomain, the field's zero outside.
    pub open spec fn adjoint_f_s(k: WFKet<S>, x: S::Space, t: S::Time) -> S::Out {
        if k.subdomain.contains_s(x) {
            k.wavefunction.eval_s(x, t).conj_s()
        } else {
            <S::Out as Field>::zero_s()
        }
    }

    /// The squared norm of `k` at time `t`: the inner product of `k` with
    /// its own adjoint, integrated over `k`'s subdomain.
    pub open spec fn norm_sqr_s(k: WFKet<S>, t: S::Time) -> S::Out {
        crate::wf_bra::quad_sum_s::<S>(
            k.subdomain.mul_s(k.subdomain).points_s().map_values(
                |x: S::Space| Self::adjoint_f_s(k, x, t).mul_s(k.f_s(x, t)),
            ),
            k.subdomain.mul_s(k.subdomain).step_s(),
            k.subdomain.mul_s(k.subdomain).points_s().len() as int,
        )
    }

    /// Compute the squared norm using the standard inner product.
    pub fn norm_sqr(&self, t: S::Time) -> (r: S::Out)
        requires
            self.subdomain.iterable_s(),
        ensures
            r == Self::norm_sqr_s(*self, t),
    {
        let b = Self::adjoint(self);
        proof {
            <S::SubDom as SubDomain<S::Space>>::law_combine_idempotent(self.subdomain);
            assert(crate::wf_bra::integrand_s(b, *self, t) =~= self.subdomain.mul_s(
                self.subdomain,
            ).points_s().map_values(|x: S::Space| Self::adjoint_f_s(*self, x, t).mul_s(
                self.f_s(x, t),
            )));
        }
        b.apply(self, t)
    }
}

impl<S: WFSignature> Default for WFKet<S> {
    /// An inert placeholder: the zero function over the degenerate
    /// subdomain. The additive identity of the ket vectorspace is `zero`,
    /// which is defined on the entire domain.
    fn default() -> (r: Self)
        ensures
            r.subdomain == <S::SubDom as SubDomain<S::Space>>::none_s(),
            forall|x: S::Space, t: S::Time|
                #[trigger] r.wavefunction.eval_s(x, t) == <S::Out as Field>::zero_s(),
    {
        WFKet {
            wavefunction: WFOperation::sum(Vec::new()),
            subdomain: <S::SubDom as SubDomain<S::Space>>::none(),
        }
    }
}

impl<S: WFSignature> Clone for WFKet<S> {
    /// Another owner of the same immutable wavefunction and subdomain.
    fn clone(&self) -> (r: Self)
        ensures
            r == *self,
    {
        WFKet { wavefunction: self.wavefunction.clone(), subdomain: self.subdomain }
    }
}

impl<S: WFSignature> Wavefunction<S> for WFKet<S> {
    open spec fn f_spec(self, x: S::Space, t: S::Time) -> S::Out {
        self.f_s(x, t)
    }

    open spec fn p_spec(self, x: S::Space, t: S::Time) -> S::Out {
        self.p_s(x, t)
    }

    open spec fn translate_space_ens(self, offset: S::Space, r: Self) -> bool {
        &&& r.subdomain == self.subdomain.translate_s(offset)
        &&& forall|x: S::Space, t: S::Time| #[trigger] r.wavefunction.eval_s(x, t)
            == self.wavefunction.eval_s(x.sub_s(offset), t)
    }

    open spec fn translate_time_ens(self, offset: S::Time, r: Self) -> bool {
        &&& r.subdomain == self.subdomain
        &&& forall|x: S::Space, t: S::Time| #[trigger] r.wavefunction.eval_s(x, t)
            == self.wavefunction.eval_s(x, t.sub_s(offset))
    }

    fn f(&self, x: S::Space, t: S::Time) -> S::Out {
        WFKet::f(self, x, t)
    }

    fn p(&self, x: S::Space, t: S::Time) -> S::Out {
        WFKet::p(self, x, t)
    }

    fn translate_space(self, offset: S::Space) -> Self {
        WFKet::translate_space(self, offset)
    }

    fn translate_time(self, offset: S::Time) -> Self {
        WFKet::translate_time(self, offset)
    }
}

impl<S: WFSignature> VectorSpace<S::Out> for WFKet<S> {
    open spec fn zero_ens(r: Self) -> bool {
        &&& r.subdomain == <S::SubDom as SubDomain<S::Space>>::all_s()
        &&& forall|x: S::Space, t: S::Time|
            #[trigger] r.wavefunction.eval_s(x, t) == <S::Out as Field>::zero_s()
    }

    open spec fn scale_ens(self, c: S::Out, r: Self) -> bool {
        &&& r.subdomain == self.subdomain
        &&& forall|x: S::Space, t: S::Time| #[trigger] r.wavefunction.eval_s(x, t) == c.mul_s(
            self.wavefunction.eval_s(x, t),
        )
    }

    open spec fn sum_ens(vectors: Seq<WFKet<S>>, r: Self) -> bool {
        &&& r.subdomain == Self::subdomain_sum_s(vectors, vectors.len() as int)
        &&& forall|x: S::Space, t: S::Time| #[trigger] r.wavefunction.eval_s(x, t)
            == WFOperation::<S>::eval_sum_s(
            vectors.map_values(|k: WFKet<S>| k.wavefunction),
            x,
            t,
            vectors.len() as int,
        )
    }

    open spec fn weighted_sum_ens(summands: Seq<(S::Out, WFKet<S>)>, r: Self) -> bool {
        &&& r.subdomain == Self::subdomain_wsum_s(summands, summands.len() as int)
        &&& forall|x: S::Space, t: S::Time| #[trigger] r.wavefunction.eval_s(x, t)
            == WFOperation::<S>::eval_wsum_s(
            summands.map_values(|p: (S::Out, WFKet<S>)| (p.0, p.1.wavefunction)),
            x,
            t,
            summands.len() as int,
        )
    }

    open spec fn add_ens(self, rhs: Self, r: Self) -> bool {
        &&& r.subdomain == self.subdomain.add_s(rhs.subdomain)
        &&& forall|x: S::Space, t: S::Time| #[trigger] r.wavefunction.eval_s(x, t)
            == self.wavefunction.eval_s(x, t).add_s(rhs.wavefunction.eval_s(x, t))
    }

    open spec fn sub_ens(self, rhs: Self, r: Self) -> bool {
        &&& r.subdomain == self.subdomain.add_s(rhs.subdomain)
        &&& forall|x: S::Space, t: S::Time| #[trigger] r.wavefunction.eval_s(x, t)
            == self.wavefunction.eval_s(x, t).add_s(rhs.wavefunction.eval_s(x, t).neg_s())
    }

    open spec fn neg_ens(self, r: Self) -> bool {
        &&& r.subdomain == self.subdomain
        &&& forall|x: S::Space, t: S::Time| #[trigger] r.wavefunction.eval_s(x, t)
            == self.wavefunction.eval_s(x, t).neg_s()
    }

    fn zero() -> Self {
        WFKet::zero()
    }

    fn scale(self, c: S::Out) -> Self {
        WFKet::scale(self, c)
    }

    fn sum(vectors: Vec<Self>) -> Self {
        WFKet::sum(vectors)
    }

    fn weighted_sum(summands: Vec<(S::Out, Self)>) -> Self {
        WFKet::weighted_sum(summands)
    }

    fn add(self, rhs: Self) -> Self {
        WFKet::add(self, rhs)
    }

    fn sub(self, rhs: Self) -> Self {
        WFKet::sub(self, rhs)
    }

    fn neg(self) -> Self {
        WFKet::neg(self)
    }
}

impl<S: WFSignature> Ket<S> for WFKet<S> {
    type Bra = WFBra<S>;

    open spec fn normable(self) -> bool {
        self.subdomain.iterable_s()
    }

    open spec fn to_adjoint_ens(self, r: WFBra<S>) -> bool {
        &&& r.subdomain == self.subdomain
        &&& forall|x: S::Space, t: S::Time| #[trigger] r.wavefunction.eval_s(x, t)
            == self.wavefunction.eval_s(x, t).conj_s()
    }

    open spec fn adjoint_ens(ket: Self, r: WFBra<S>) -> bool {
        &&& r.subdomain == ket.subdomain
        &&& forall|x: S::Space, t: S::Time| #[trigger] r.wavefunction.eval_s(x, t)
            == ket.wavefunction.eval_s(x, t).conj_s()
    }

    open spec fn norm_sqr_ens(self, t: S::Time, r: S::Out) -> bool {
        r == Self::norm_sqr_s(self, t)
    }

    fn to_adjoint(self) -> WFBra<S> {
        WFKet::to_adjoint(self)
    }

    fn adjoint(ket: &Self) -> WFBra<S> {
        WFKet::adjoint(ket)
    }

    fn norm_sqr(&self, t: S::Time) -> S::Out {
        WFKet::norm_sqr(self, t)
    }
}

} // verus!
