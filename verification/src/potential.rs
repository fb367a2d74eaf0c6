//! For representing solvable, confined time-independent potentials.
//!
//! A confined potential supplies discrete energy eigenstates; the shared
//! [`evolution`] algorithm expands an arbitrary initial state in that
//! eigenbasis (one inner product per basis state) and reconstructs it as a
//! weighted sum, which then evolves in time through the eigenstates' own
//! time dependence.

use vstd::prelude::*;

use crate::braket::Bra;
use crate::domain::SubDomain;
use crate::domain_sect_1d::SubDomain1D;
use crate::fields::{Field, Gf4};
use crate::operations::WFOperation;
use crate::signature::WFSignature;
use crate::signatures::{LatticeWf, WF1Space1Time};
use crate::wf_bra::{integrand_s, quad_sum_s};
use crate::wf_ket::WFKet;

use std::sync::Arc;

verus! {

/// A time-independent potential for which the Schroedinger equation can be
/// solved. Note that the potential must be confining so that eigenstates
/// are discrete.
pub trait ConfinedPotential<S: WFSignature>: Sized + Copy {
    /// Which eigenstate indices the potential supports. Querying any other
    /// index is a programming error and is ruled out by precondition.
    spec fn valid_index(self, n: usize) -> bool;

    /// The support of the `n`th eigenstate, as seen by specifications.
    spec fn eigenstate_sd(self, n: usize) -> S::SubDom;

    /// The pointwise value of the `n`th eigenstate's wavefunction, as seen
    /// by specifications.
    spec fn eigenstate_f(self, n: usize, x: S::Space, t: S::Time) -> S::Out;

    /// Return the `n`th eigenstate of the potential.
    fn eigenstate(&self, n: usize) -> (r: WFKet<S>)
        requires
            self.valid_index(n),
        ensures
            r.subdomain == self.eigenstate_sd(n),
            forall|x: S::Space, t: S::Time| #[trigger] r.wavefunction.eval_s(x, t)
                == self.eigenstate_f(n, x, t),
    ;
}

/// The expansion coefficient of `initial` along the `n`th eigenstate of `p`
/// at time `t0`: the inner product of the eigenstate's adjoint with
/// `initial`, integrated over the overlap of their subdomains.
pub open spec fn expansion_coef_s<S: WFSignature, P: ConfinedPotential<S>>(
    p: P,
    initial: WFKet<S>,
    t0: S::Time,
    n: int,
) -> S::Out {
    let d = initial.subdomain.mul_s(p.eigenstate_sd(n as usize));
    quad_sum_s::<S>(
        d.points_s().map_values(
            |x: S::Space|
                (if p.eigenstate_sd(n as usize).contains_s(x) {
                    p.eigenstate_f(n as usize, x, t0).conj_s()
                } else {
                    <S::Out as Field>::zero_s()
                }).mul_s(initial.f_s(x, t0)),
        ),
        d.step_s(),
        d.points_s().len() as int,
    )
}

/// The left fold of the supports of the first `n` eigenstates of `p` under
/// the union-style combination.
pub open spec fn evolution_sd_s<S: WFSignature, P: ConfinedPotential<S>>(p: P, n: int) -> S::SubDom
    decreases n,
{
    if n <= 0 {
        <S::SubDom as SubDomain<S::Space>>::all_s()
    } else if n == 1 {
        p.eigenstate_sd(1)
    } else {
        evolution_sd_s(p, n - 1).add_s(p.eigenstate_sd(n as usize))
    }
}

/// The pointwise value of the eigenbasis reconstruction of `initial`: the
/// fold of expansion coefficient times eigenstate value over the first `n`
/// eigenstates of `p`.
pub open spec fn evolution_eval_s<S: WFSignature, P: ConfinedPotential<S>>(
    p: P,
    initial: WFKet<S>,
    t0: S::Time,
    n: int,
    x: S::Space,
    t: S::Time,
) -> S::Out
    decreases n,
{
    if n <= 0 {
        <S::Out as Field>::zero_s()
    } else {
        evolution_eval_s(p, initial, t0, n - 1, x, t).add_s(
            expansion_coef_s(p, initial, t0, n).mul_s(p.eigenstate_f(n as usize, x, t)),
        )
    }
}

/// One expansion term is in place: the pair holds the `i`th expansion
/// coefficient and a ket whose support and pointwise value are those of the
/// `i`th eigenstate of `p`.
pub open spec fn coef_pair_ok<S: WFSignature, P: ConfinedPotential<S>>(
    p: P,
    initial: WFKet<S>,
    t0: S::Time,
    pr: (S::Out, WFKet<S>),
    i: int,
) -> bool {
    &&& pr.0 == expansion_coef_s(p, initial, t0, i)
    &&& pr.1.subdomain == p.eigenstate_sd(i as usize)
    &&& forall|x: S::Space, t: S::Time| #[trigger] pr.1.wavefunction.eval_s(x, t)
        == p.eigenstate_f(i as usize, x, t)
}

/// The weighted sum of correct expansion pairs evaluates to the eigenbasis
/// reconstruction fold.
proof fn lemma_pairs_eval<S: WFSignature, P: ConfinedPotential<S>>(
    p: P,
    initial: WFKet<S>,
    t0: S::Time,
    pairs: Seq<(S::Out, WFKet<S>)>,
    n: int,
    x: S::Space,
    t: S::Time,
)
    requires
        0 <= n <= pairs.len(),
        forall|j: int| 0 <= j < n ==> coef_pair_ok(p, initial, t0, #[trigger] pairs[j], j + 1),
    ensures
        WFOperation::<S>::eval_wsum_s(
            pairs.map_values(|pr: (S::Out, WFKet<S>)| (pr.0, pr.1.wavefunction)),
            x,
            t,
            n,
        ) == evolution_eval_s(p, initial, t0, n, x, t),
    decreases n,
{
    if n > 0 {
        lemma_pairs_eval(p, initial, t0, pairs, n - 1, x, t);
        assert(coef_pair_ok(p, initial, t0, pairs[n - 1], n));
        let m = pairs.map_values(|pr: (S::Out, WFKet<S>)| (pr.0, pr.1.wavefunction));
        assert(m[n - 1] == (pairs[n - 1].0, pairs[n - 1].1.wavefunction));
        assert(pairs[n - 1].1.wavefunction.eval_s(x, t) == p.eigenstate_f(n as usize, x, t));
    }
}

/// The subdomain of a weighted sum of correct expansion pairs is the fold
/// of the eigenstate supports.
proof fn lemma_pairs_sd<S: WFSignature, P: ConfinedPotential<S>>(
    p: P,
    initial: WFKet<S>,
    t0: S::Time,
    pairs: Seq<(S::Out, WFKet<S>)>,
    n: int,
)
    requires
        0 <= n <= pairs.len(),
        forall|j: int| 0 <= j < n ==> coef_pair_ok(p, initial, t0, #[trigger] pairs[j], j + 1),
    ensures
        WFKet::<S>::subdomain_wsum_s(pairs, n) == evolution_sd_s(p, n),
    decreases n,
{
    if n > 0 {
        lemma_pairs_sd(p, initial, t0, pairs, n - 1);
        assert(coef_pair_ok(p, initial, t0, pairs[n - 1], n));
        if n == 1 {
            assert(WFKet::<S>::subdomain_wsum_s(pairs, 1) == pairs[0].1.subdomain);
        }
    }
}

/// Return a state which evolves from `initial_state(t=0)` according to the
/// Schrodinger equation: project the initial state onto the first `max_n`
/// eigenstates of `potential` at time `t0`, then reconstruct it as the
/// weighted sum of those eigenstates.
pub fn evolution<S: WFSignature, P: ConfinedPotential<S>>(
    potential: &P,
    initial_state: &WFKet<S>,
    t0: S::Time,
    max_n: usize,
) -> (r: WFKet<S>)
    requires
        max_n < usize::MAX,
        forall|i: usize| 1 <= i <= max_n ==> potential.valid_index(i),
        forall|i: usize|
            1 <= i <= max_n ==> (#[trigger] initial_state.subdomain.mul_s(
                potential.eigenstate_sd(i),
            )).iterable_s(),
    ensures
        r.subdomain == evolution_sd_s(*potential, max_n as int),
        forall|x: S::Space, t: S::Time| #[trigger] r.wavefunction.eval_s(x, t)
            == evolution_eval_s(*potential, *initial_state, t0, max_n as int, x, t),
{
    let mut pairs: Vec<(S::Out, WFKet<S>)> = Vec::new();
    let mut i: usize = 1;
    while i <= max_n
        invariant
            max_n < usize::MAX,
            1 <= i <= max_n + 1,
            pairs@.len() == i - 1,
            forall|n: usize| 1 <= n <= max_n ==> potential.valid_index(n),
            forall|n: usize|
                1 <= n <= max_n ==> (#[trigger] initial_state.subdomain.mul_s(
                    potential.eigenstate_sd(n),
                )).iterable_s(),
            forall|j: int|
                0 <= j < i - 1 ==> coef_pair_ok(
                    *potential,
                    *initial_state,
                    t0,
                    #[trigger] pairs@[j],
                    j + 1,
                ),
        decreases max_n + 1 - i,
    {
        let basis_state = potential.eigenstate(i);
        let b = WFKet::<S>::adjoint(&basis_state);
        let c = b.apply(initial_state, t0);
        proof {
            let n = i as int;
            let d = initial_state.subdomain.mul_s(potential.eigenstate_sd(i));
            assert(integrand_s(b, *initial_state, t0) =~= d.points_s().map_values(
                |x: S::Space|
                    (if potential.eigenstate_sd(i).contains_s(x) {
                        potential.eigenstate_f(i, x, t0).conj_s()
                    } else {
                        <S::Out as Field>::zero_s()
                    }).mul_s(initial_state.f_s(x, t0)),
            ));
            assert(c == expansion_coef_s(*potential, *initial_state, t0, n));
        }
        pairs.push((c, basis_state));
        i = i + 1;
    }
    let r = WFKet::<S>::weighted_sum(pairs);
    proof {
        lemma_pairs_sd(*potential, *initial_state, t0, pairs@, max_n as int);
        assert forall|x: S::Space, t: S::Time| #[trigger] r.wavefunction.eval_s(x, t)
            == evolution_eval_s(*potential, *initial_state, t0, max_n as int, x, t) by {
            lemma_pairs_eval(*potential, *initial_state, t0, pairs@, max_n as int, x, t);
        }
    }
    r
}

/// A confining lattice potential whose `n`th stationary state is
/// concentrated on site `n`: the exact counterpart of a particle pinned at
/// one of `width` wells, with the first `width` indices supported.
///
/// Each eigenstate takes a unit-modulus value on its site, so the family is
/// exactly orthonormal under the inner product over `[1, width]`.
#[derive(Clone, Copy, PartialEq, Eq, Structural, Debug)]
pub struct PointWell {
    /// How many sites, and hence eigenstates, the well has.
    pub width: i64,
}

impl PointWell {
    /// Create a point-site well with the given number of sites.
    pub fn new(width: i64) -> (r: PointWell)
        ensures
            r == (PointWell { width }),
    {
        PointWell { width }
    }
}

impl ConfinedPotential<WF1Space1Time> for PointWell {
    open spec fn valid_index(self, n: usize) -> bool {
        1 <= n <= self.width
    }

    open spec fn eigenstate_sd(self, n: usize) -> SubDomain1D {
        SubDomain1D { lower: 1, upper: self.width, step_size: 1 }
    }

    open spec fn eigenstate_f(self, n: usize, x: i64, t: i64) -> Gf4 {
        if x == n as i64 {
            crate::fields::gf4_omega_s()
        } else {
            Gf4::zero_s()
        }
    }

    fn eigenstate(&self, n: usize) -> (r: WFKet<WF1Space1Time>) {
        WFKet::new(
            Arc::new(LatticeWf::Point { at: n as i64, value: Gf4 { unit: false, omega: true } }),
            SubDomain1D { lower: 1, upper: self.width, step_size: 1 },
        )
    }
}

} // verus!
