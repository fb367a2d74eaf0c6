//! The lazily evaluated operation tree underlying bras and kets.
//!
//! A [`WFOperation`] is an immutable algebraic expression over wavefunctions:
//! a function leaf, pointwise sums and weighted sums, subtraction, scaling,
//! negation, conjugation (the adjoint), and translations in space and time.
//! Subtrees are shared by reference counting, so cloning an operation is a
//! constant-time transfer of ownership of the same immutable expression.
//!
//! The meaning of a tree is its pointwise evaluation, given by the
//! specification function [`WFOperation::eval_s`]; every builder states how
//! the tree it returns evaluates.

use std::sync::Arc;

use vstd::prelude::*;

use crate::domain::Domain;
use crate::fields::{lemma_zero_add, Field};
use crate::signature::{WFFunc, WFSignature};

verus! {

/// Relies on alloc::sync::Arc::clone: the returned handle refers to the same
/// immutable value as the argument.
#[verifier::external_body]
fn arc_clone<T>(b: &Arc<T>) -> (res: Arc<T>)
    ensures
        res == *b,
{
    Arc::clone(b)
}

/// Operations that can be done on the wavefunctions underlying bras
/// (covectors) and kets (vectors).
pub struct WFOperation<S: WFSignature>(pub WFOperationInner<S>);

/// The nodes of the operation tree. Children are shared, never copied.
pub enum WFOperationInner<S: WFSignature> {
    /// A constant in the function space (i.e., a function from
    /// (Space x Time) --> Out)
    Function(Arc<S::Wf>),
    /// Sum n wavefunctions pointwise
    Sum(Arc<Vec<WFOperation<S>>>),
    /// Sum n wavefunctions pointwise with weights
    WeightedSum(Arc<Vec<(S::Out, WFOperation<S>)>>),
    /// Subtract two wavefunctions pointwise
    Sub(Arc<WFOperation<S>>, Arc<WFOperation<S>>),
    /// Scale a wavefunction by a scalar
    Scale(S::Out, Arc<WFOperation<S>>),
    /// Negate a wavefunction pointwise
    Neg(Arc<WFOperation<S>>),
    /// Take the adjoint of a wavefunction (conjugate pointwise)
    Adjoint(Arc<WFOperation<S>>),
    /// Translate the wave function in space
    TranslateSpace(S::Space, Arc<WFOperation<S>>),
    /// Translate the wave function in time
    TranslateTime(S::Time, Arc<WFOperation<S>>),
}

impl<S: WFSignature> WFOperation<S> {
    /// The pointwise value of this expression: children are evaluated
    /// recursively and combined with the field operation the node stands
    /// for.
    pub open spec fn eval_s(self, x: S::Space, t: S::Time) -> S::Out
        decreases self, 0int,
    {
        match self.0 {
            WFOperationInner::Function(f) => (*f).f_s(x, t),
            WFOperationInner::Sum(fs) => Self::eval_sum_s(fs@, x, t, fs@.len() as int),
            WFOperationInner::WeightedSum(ws) => Self::eval_wsum_s(ws@, x, t, ws@.len() as int),
            WFOperationInner::Sub(f, g) => (*f).eval_s(x, t).add_s((*g).eval_s(x, t).neg_s()),
            WFOperationInner::Scale(c, f) => c.mul_s((*f).eval_s(x, t)),
            WFOperationInner::Neg(f) => (*f).eval_s(x, t).neg_s(),
            WFOperationInner::Adjoint(f) => (*f).eval_s(x, t).conj_s(),
            WFOperationInner::TranslateSpace(dx, f) => (*f).eval_s(x.sub_s(dx), t),
            WFOperationInner::TranslateTime(dt, f) => (*f).eval_s(x, t.sub_s(dt)),
        }
    }

    /// The left fold, from the field's zero, of the values of the first `n`
    /// summands at a point.
    pub open spec fn eval_sum_s(fs: Seq<WFOperation<S>>, x: S::Space, t: S::Time, n: int) -> S::Out
        decreases fs, n,
    {
        if n <= 0 || n > fs.len() {
            <S::Out as Field>::zero_s()
        } else {
            Self::eval_sum_s(fs, x, t, n - 1).add_s(fs[n - 1].eval_s(x, t))
        }
    }

    /// The left fold, from the field's zero, of coefficient times value of
    /// the first `n` weighted summands at a point.
    pub open spec fn eval_wsum_s(
        ws: Seq<(S::Out, WFOperation<S>)>,
        x: S::Space,
        t: S::Time,
        n: int,
    ) -> S::Out
        decreases ws, n,
    {
        if n <= 0 || n > ws.len() {
            <S::Out as Field>::zero_s()
        } else {
            Self::eval_wsum_s(ws, x, t, n - 1).add_s(ws[n - 1].0.mul_s(ws[n - 1].1.eval_s(x, t)))
        }
    }

    /// Evaluate this expression at a point in space and time.
    pub(crate) fn eval(&self, x: S::Space, t: S::Time) -> (r: S::Out)
        ensures
            r == self.eval_s(x, t),
        decreases *self, 0int,
    {
        match &self.0 {
            WFOperationInner::Function(f) => f.f(x, t),
            WFOperationInner::Sum(fs) => {
                let n = fs.len();
                Self::eval_sum(fs, x, t, n)
            },
            WFOperationInner::WeightedSum(ws) => {
                let n = ws.len();
                Self::eval_wsum(ws, x, t, n)
            },
            WFOperationInner::Sub(f, g) => f.eval(x, t).sub(g.eval(x, t)),
            WFOperationInner::Scale(c, f) => c.mul(f.eval(x, t)),
            WFOperationInner::Neg(f) => f.eval(x, t).neg(),
            WFOperationInner::Adjoint(f) => f.eval(x, t).conjugate(),
            WFOperationInner::TranslateSpace(dx, f) => f.eval(x.sub(*dx), t),
            WFOperationInner::TranslateTime(dt, f) => f.eval(x, t.sub(*dt)),
        }
    }

    /// Evaluate and fold the first `n` summands of a pointwise sum.
    fn eval_sum(fs: &Vec<WFOperation<S>>, x: S::Space, t: S::Time, n: usize) -> (r: S::Out)
        requires
            n <= fs@.len(),
        ensures
            r == Self::eval_sum_s(fs@, x, t, n as int),
        decreases fs@, n as int,
    {
        if n == 0 {
            <S::Out as Field>::zero()
        } else {
            let acc = Self::eval_sum(fs, x, t, n - 1);
            acc.add(fs[n - 1].eval(x, t))
        }
    }

    /// Evaluate, weight and fold the first `n` summands of a pointwise
    /// weighted sum.
    fn eval_wsum(ws: &Vec<(S::Out, WFOperation<S>)>, x: S::Space, t: S::Time, n: usize) -> (r:
        S::Out)
        requires
            n <= ws@.len(),
        ensures
            r == Self::eval_wsum_s(ws@, x, t, n as int),
        decreases ws@, n as int,
    {
        if n == 0 {
            <S::Out as Field>::zero()
        } else {
            let acc = Self::eval_wsum(ws, x, t, n - 1);
            acc.add(ws[n - 1].0.mul(ws[n - 1].1.eval(x, t)))
        }
    }

    /// A constant in the function space (i.e., a function from
    /// (Space x Time) --> Out).
    pub fn func(f: Arc<S::Wf>) -> (r: Self)
        ensures
            forall|x: S::Space, t: S::Time| #[trigger] r.eval_s(x, t) == (*f).f_s(x, t),
    {
        WFOperation(WFOperationInner::Function(f))
    }

    /// Sum n wavefunctions pointwise.
    pub fn sum(summands: Vec<Self>) -> (r: Self)
        ensures
            forall|x: S::Space, t: S::Time| #[trigger] r.eval_s(x, t) == Self::eval_sum_s(
                summands@,
                x,
                t,
                summands@.len() as int,
            ),
    {
        WFOperation(WFOperationInner::Sum(Arc::new(summands)))
    }

    /// Sum n wavefunctions pointwise with weights.
    pub fn weighted_sum(summands: Vec<(S::Out, Self)>) -> (r: Self)
        ensures
            forall|x: S::Space, t: S::Time| #[trigger] r.eval_s(x, t) == Self::eval_wsum_s(
                summands@,
                x,
                t,
                summands@.len() as int,
            ),
    {
        WFOperation(WFOperationInner::WeightedSum(Arc::new(summands)))
    }

    /// Scale a wavefunction by a scalar.
    pub fn scale(s: S::Out, op: Self) -> (r: Self)
        ensures
            forall|x: S::Space, t: S::Time| #[trigger] r.eval_s(x, t) == s.mul_s(op.eval_s(x, t)),
    {
        WFOperation(WFOperationInner::Scale(s, Arc::new(op)))
    }

    /// Take the adjoint of a wavefunction (conjugate pointwise).
    pub fn adjoint(f: Self) -> (r: Self)
        ensures
            forall|x: S::Space, t: S::Time| #[trigger] r.eval_s(x, t) == f.eval_s(x, t).conj_s(),
    {
        WFOperation(WFOperationInner::Adjoint(Arc::new(f)))
    }

    /// Translate a wavefunction in space: the new expression takes at `x`
    /// the value the old one took at `x - offset`.
    pub fn translate_space(offset: S::Space, op: Self) -> (r: Self)
        ensures
            forall|x: S::Space, t: S::Time| #[trigger] r.eval_s(x, t) == op.eval_s(
                x.sub_s(offset),
                t,
            ),
    {
        WFOperation(WFOperationInner::TranslateSpace(offset, Arc::new(op)))
    }

    /// Translate a wavefunction in time: the new expression takes at `t`
    /// the value the old one took at `t - offset`.
    pub fn translate_time(offset: S::Time, op: Self) -> (r: Self)
        ensures
            forall|x: S::Space, t: S::Time| #[trigger] r.eval_s(x, t) == op.eval_s(
                x,
                t.sub_s(offset),
            ),
    {
        WFOperation(WFOperationInner::TranslateTime(offset, Arc::new(op)))
    }

    /// Add two wavefunctions pointwise.
    pub fn add(self, rhs: Self) -> (r: Self)
        ensures
            forall|x: S::Space, t: S::Time| #[trigger] r.eval_s(x, t) == self.eval_s(x, t).add_s(
                rhs.eval_s(x, t),
            ),
    {
        let ghost a = self;
        let ghost b = rhs;
        let mut summands: Vec<Self> = Vec::new();
        summands.push(self);
        summands.push(rhs);
        let r = Self::sum(summands);
        proof {
            assert forall|x: S::Space, t: S::Time| #[trigger] r.eval_s(x, t) == a.eval_s(
                x,
                t,
            ).add_s(b.eval_s(x, t)) by {
                reveal_with_fuel(WFOperation::eval_sum_s, 3);
                lemma_zero_add::<S::Out>(a.eval_s(x, t));
            }
        }
        r
    }

    /// Subtract one wavefunction from another pointwise.
    pub fn sub(self, rhs: Self) -> (r: Self)
        ensures
            forall|x: S::Space, t: S::Time| #[trigger] r.eval_s(x, t) == self.eval_s(x, t).add_s(
                rhs.eval_s(x, t).neg_s(),
            ),
    {
        WFOperation(WFOperationInner::Sub(Arc::new(self), Arc::new(rhs)))
    }

    /// Negate a wavefunction pointwise.
    pub fn neg(self) -> (r: Self)
        ensures
            forall|x: S::Space, t: S::Time| #[trigger] r.eval_s(x, t) == self.eval_s(x, t).neg_s(),
    {
        WFOperation(WFOperationInner::Neg(Arc::new(self)))
    }
}

impl<S: WFSignature> Clone for WFOperation<S> {
    /// Another owner of the same immutable expression: cloning shares the
    /// children, it does not copy them.
    fn clone(&self) -> (r: Self)
        ensures
            r == *self,
    {
        WFOperation(
            match &self.0 {
                WFOperationInner::Function(f) => WFOperationInner::Function(arc_clone(f)),
                WFOperationInner::Sum(fs) => WFOperationInner::Sum(arc_clone(fs)),
                WFOperationInner::WeightedSum(ws) => WFOperationInner::WeightedSum(arc_clone(ws)),
                WFOperationInner::Sub(f, g) => WFOperationInner::Sub(arc_clone(f), arc_clone(g)),
                WFOperationInner::Scale(c, f) => WFOperationInner::Scale(*c, arc_clone(f)),
                WFOperationInner::Neg(f) => WFOperationInner::Neg(arc_clone(f)),
                WFOperationInner::Adjoint(f) => WFOperationInner::Adjoint(arc_clone(f)),
                WFOperationInner::TranslateSpace(dx, f) => WFOperationInner::TranslateSpace(
                    *dx,
                    arc_clone(f),
                ),
                WFOperationInner::TranslateTime(dt, f) => WFOperationInner::TranslateTime(
                    *dt,
                    arc_clone(f),
                ),
            },
        )
    }
}

} // verus!
