//! For representing systems with discrete states indexed over a signed
//! range, such as a two-state system.
//!
//! The shared [`evolution`] algorithm is the same eigenbasis expansion as
//! for confined potentials, over energy eigenstates indexed from `min_n` to
//! `max_n`.

use vstd::prelude::*;

use crate::braket::Bra;
use crate::domain::SubDomain;
use crate::fields::{Field, Gf4};
use crate::finite_domains::FiniteSubDomain;
use crate::operations::WFOperation;
use crate::signature::WFSignature;
use crate::signatures::{FiniteWf, WFFinite};
use crate::wf_bra::{integrand_s, quad_sum_s};
use crate::wf_ket::WFKet;

use std::sync::Arc;

verus! {

/// A system with discrete energy eigenstates indexed by a signed integer.
pub trait DiscreteSystem<S: WFSignature>: Sized + Copy {
    /// Which eigenstate indices the system supports. Querying any other
    /// index is a programming error and is ruled out by precondition.
    spec fn valid_index(self, n: i32) -> bool;

    /// The support of the `n`th energy eigenstate, as seen by
    /// specifications.
    spec fn eigenstate_sd(self, n: i32) -> S::SubDom;

    /// The pointwise value of the `n`th energy eigenstate's wavefunction,
    /// as seen by specifications.
    spec fn eigenstate_f(self, n: i32, x: S::Space, t: S::Time) -> S::Out;

    /// Return the `n`th energy eigenstate of the system, in the basis
    /// specified by the spatial coordinate.
    fn energy_eigenstate(&self, n: i32) -> (r: WFKet<S>)
        requires
            self.valid_index(n),
        ensures
            r.subdomain == self.eigenstate_sd(n),
            forall|x: S::Space, t: S::Time| #[trigger] r.wavefunction.eval_s(x, t)
                == self.eigenstate_f(n, x, t),
    ;
}

/// The expansion coefficient of `initial` along the `n`th energy eigenstate
/// of `p` at time `t0`.
pub open spec fn expansion_coef_s<S: WFSignature, P: DiscreteSystem<S>>(
    p: P,
    initial: WFKet<S>,
    t0: S::Time,
    n: int,
) -> S::Out {
    let d = initial.subdomain.mul_s(p.eigenstate_sd(n as i32));
    quad_sum_s::<S>(
        d.points_s().map_values(
            |x: S::Space|
                (if p.eigenstate_sd(n as i32).contains_s(x) {
                    p.eigenstate_f(n as i32, x, t0).conj_s()
                } else {
                    <S::Out as Field>::zero_s()
                }).mul_s(initial.f_s(x, t0)),
        ),
        d.step_s(),
        d.points_s().len() as int,
    )
}

/// The left fold of the supports of the first `k` eigenstates from `min_n`
/// upward under the union-style combination.
pub open spec fn evolution_sd_s<S: WFSignature, P: DiscreteSystem<S>>(
    p: P,
    min_n: int,
    k: int,
) -> S::SubDom
    decreases k,
{
    if k <= 0 {
        <S::SubDom as SubDomain<S::Space>>::all_s()
    } else if k == 1 {
        p.eigenstate_sd(min_n as i32)
    } else {
        evolution_sd_s(p, min_n, k - 1).add_s(p.eigenstate_sd((min_n + k - 1) as i32))
    }
}

/// The pointwise value of the eigenbasis reconstruction of `initial` over
/// the `k` eigenstates from `min_n` upward.
pub open spec fn evolution_eval_s<S: WFSignature, P: DiscreteSystem<S>>(
    p: P,
    initial: WFKet<S>,
    t0: S::Time,
    min_n: int,
    k: int,
    x: S::Space,
    t: S::Time,
) -> S::Out
    decreases k,
{
    if k <= 0 {
        <S::Out as Field>::zero_s()
    } else {
        evolution_eval_s(p, initial, t0, min_n, k - 1, x, t).add_s(
            expansion_coef_s(p, initial, t0, min_n + k - 1).mul_s(
                p.eigenstate_f((min_n + k - 1) as i32, x, t),
            ),
        )
    }
}

/// One expansion term is in place: the pair holds the expansion coefficient
/// for index `i` and a ket whose support and pointwise value are those of
/// the `i`th energy eigenstate.
pub open spec fn coef_pair_ok<S: WFSignature, P: DiscreteSystem<S>>(
    p: P,
    initial: WFKet<S>,
    t0: S::Time,
    pr: (S::Out, WFKet<S>),
    i: int,
) -> bool {
    &&& pr.0 == expansion_coef_s(p, initial, t0, i)
    &&& pr.1.subdomain == p.eigenstate_sd(i as i32)
    &&& forall|x: S::Space, t: S::Time| #[trigger] pr.1.wavefunction.eval_s(x, t)
        == p.eigenstate_f(i as i32, x, t)
}

/// The weighted sum of correct expansion pairs evaluates to the eigenbasis
/// reconstruction fold.
proof fn lemma_pairs_eval<S: WFSignature, P: DiscreteSystem<S>>(
    p: P,
    initial: WFKet<S>,
    t0: S::Time,
    pairs: Seq<(S::Out, WFKet<S>)>,
    min_n: int,
    k: int,
    x: S::Space,
    t: S::Time,
)
    requires
        0 <= k <= pairs.len(),
        forall|j: int|
            0 <= j < k ==> coef_pair_ok(p, initial, t0, #[trigger] pairs[j], min_n + j),
    ensures
        WFOperation::<S>::eval_wsum_s(
            pairs.map_values(|pr: (S::Out, WFKet<S>)| (pr.0, pr.1.wavefunction)),
            x,
            t,
            k,
        ) == evolution_eval_s(p, initial, t0, min_n, k, x, t),
    decreases k,
{
    if k > 0 {
        lemma_pairs_eval(p, initial, t0, pairs, min_n, k - 1, x, t);
        assert(coef_pair_ok(p, initial, t0, pairs[k - 1], min_n + k - 1));
        let m = pairs.map_values(|pr: (S::Out, WFKet<S>)| (pr.0, pr.1.wavefunction));
        assert(m[k - 1] == (pairs[k - 1].0, pairs[k - 1].1.wavefunction));
        assert(pairs[k - 1].1.wavefunction.eval_s(x, t) == p.eigenstate_f((min_n + k - 1) as i32, x, t));
    }
}

/// The subdomain of a weighted sum of correct expansion pairs is the fold
/// of the eigenstate supports.
proof fn lemma_pairs_sd<S: WFSignature, P: DiscreteSystem<S>>(
    p: P,
    initial: WFKet<S>,
    t0: S::Time,
    pairs: Seq<(S::Out, WFKet<S>)>,
    min_n: int,
    k: int,
)
    requires
        0 <= k <= pairs.len(),
        forall|j: int|
            0 <= j < k ==> coef_pair_ok(p, initial, t0, #[trigger] pairs[j], min_n + j),
    ensures
        WFKet::<S>::subdomain_wsum_s(pairs, k) == evolution_sd_s(p, min_n, k),
    decreases k,
{
    if k > 0 {
        lemma_pairs_sd(p, initial, t0, pairs, min_n, k - 1);
        assert(coef_pair_ok(p, initial, t0, pairs[k - 1], min_n + k - 1));
        if k == 1 {
            assert(WFKet::<S>::subdomain_wsum_s(pairs, 1) == pairs[0].1.subdomain);
        }
    }
}

/// Return a state which evolves from `initial_state(t=0)` according to the
/// Schrodinger equation: project the initial state onto the energy
/// eigenstates from `min_n` to `max_n` of `system` at time `t0`, then
/// reconstruct it as the weighted sum of those eigenstates.
pub fn evolution<S: WFSignature, P: DiscreteSystem<S>>(
    system: &P,
    initial_state: &WFKet<S>,
    t0: S::Time,
    min_n: i32,
    max_n: i32,
) -> (r: WFKet<S>)
    requires
        max_n < i32::MAX,
        forall|i: i32| min_n <= i <= max_n ==> system.valid_index(i),
        forall|i: i32|
            min_n <= i <= max_n ==> (#[trigger] initial_state.subdomain.mul_s(
                system.eigenstate_sd(i),
            )).iterable_s(),
    ensures
        r.subdomain == evolution_sd_s(
            *system,
            min_n as int,
            if min_n <= max_n {
                max_n - min_n + 1int
            } else {
                0int
            },
        ),
        forall|x: S::Space, t: S::Time| #[trigger] r.wavefunction.eval_s(x, t)
            == evolution_eval_s(
            *system,
            *initial_state,
            t0,
            min_n as int,
            if min_n <= max_n {
                max_n - min_n + 1int
            } else {
                0int
            },
            x,
            t,
        ),
{
    let ghost count: int = if min_n <= max_n {
        max_n - min_n + 1int
    } else {
        0int
    };
    let mut pairs: Vec<(S::Out, WFKet<S>)> = Vec::new();
    let mut i: i32 = min_n;
    while i <= max_n
        invariant
            max_n < i32::MAX,
            min_n <= i <= vstd::math::max(max_n as int + 1, min_n as int),
            pairs@.len() == i - min_n,
            forall|n: i32| min_n <= n <= max_n ==> system.valid_index(n),
            forall|n: i32|
                min_n <= n <= max_n ==> (#[trigger] initial_state.subdomain.mul_s(
                    system.eigenstate_sd(n),
                )).iterable_s(),
            forall|j: int|
                0 <= j < i - min_n ==> coef_pair_ok(
                    *system,
                    *initial_state,
                    t0,
                    #[trigger] pairs@[j],
                    min_n + j,
                ),
        decreases max_n + 1 - i,
    {
        let basis_state = system.energy_eigenstate(i);
        let b = WFKet::<S>::adjoint(&basis_state);
        let c = b.apply(initial_state, t0);
        proof {
            let n = i as int;
            let d = initial_state.subdomain.mul_s(system.eigenstate_sd(i));
            assert(integrand_s(b, *initial_state, t0) =~= d.points_s().map_values(
                |x: S::Space|
                    (if system.eigenstate_sd(i).contains_s(x) {
                        system.eigenstate_f(i, x, t0).conj_s()
                    } else {
                        <S::Out as Field>::zero_s()
                    }).mul_s(initial_state.f_s(x, t0)),
            ));
            assert(c == expansion_coef_s(*system, *initial_state, t0, n));
        }
        pairs.push((c, basis_state));
        i = i + 1;
    }
    let r = WFKet::<S>::weighted_sum(pairs);
    proof {
        lemma_pairs_sd(*system, *initial_state, t0, pairs@, min_n as int, count);
        assert forall|x: S::Space, t: S::Time| #[trigger] r.wavefunction.eval_s(x, t)
            == evolution_eval_s(*system, *initial_state, t0, min_n as int, count, x, t) by {
            lemma_pairs_eval(*system, *initial_state, t0, pairs@, min_n as int, count, x, t);
        }
    }
    r
}

/// A two-state quantum system over exact scalars: its two energy
/// eigenstates are concentrated on the two coordinate indices, each with a
/// configurable amplitude.
///
/// With unit-modulus amplitudes the pair is exactly orthonormal under the
/// inner product over the two indices.
#[derive(Clone, Copy, PartialEq, Eq, Structural, Debug)]
pub struct TwoLevel {
    /// The amplitude of the lower eigenstate on index zero.
    pub amp_0: Gf4,
    /// The amplitude of the upper eigenstate on index one.
    pub amp_1: Gf4,
}

impl TwoLevel {
    /// Return a new two-level system with the given amplitudes.
    pub fn new(amp_0: Gf4, amp_1: Gf4) -> (r: Self)
        ensures
            r == (TwoLevel { amp_0, amp_1 }),
    {
        TwoLevel { amp_0, amp_1 }
    }
}

impl DiscreteSystem<WFFinite> for TwoLevel {
    open spec fn valid_index(self, n: i32) -> bool {
        n == 0 || n == 1
    }

    open spec fn eigenstate_sd(self, n: i32) -> FiniteSubDomain {
        FiniteSubDomain { min_idx: 0, max_idx: 1 }
    }

    open spec fn eigenstate_f(self, n: i32, x: i32, t: i64) -> Gf4 {
        if n == 0 {
            if x == 0 {
                self.amp_0
            } else {
                Gf4::zero_s()
            }
        } else {
            if x == 0 {
                Gf4::zero_s()
            } else {
                self.amp_1
            }
        }
    }

    fn energy_eigenstate(&self, n: i32) -> (r: WFKet<WFFinite>) {
        let leaf = if n == 0 {
            FiniteWf::Pair { first: self.amp_0, rest: Gf4::zero() }
        } else {
            FiniteWf::Pair { first: Gf4::zero(), rest: self.amp_1 }
        };
        WFKet::new(Arc::new(leaf), FiniteSubDomain { min_idx: 0, max_idx: 1 })
    }
}

} // verus!
