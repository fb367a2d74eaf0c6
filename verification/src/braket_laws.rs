//! The algebraic laws of the bra-ket algebra, stated and proved once for
//! every field, domain and signature: the adjoint is an involution, the
//! inner product is linear in the ket, an empty integration domain yields
//! the field's zero, and translation shifts evaluation exactly.

use vstd::prelude::*;

use crate::discrete_system::{DiscreteSystem, TwoLevel};
use crate::domain::{Domain, SubDomain};
use crate::domain_sect_1d::SubDomain1D;
use crate::fields::{
    lemma_add_shuffle, lemma_conj_zero, lemma_mul_zero, lemma_zero_add, Field, Gf4,
};
use crate::finite_domains::FiniteSubDomain;
use crate::potential::{
    evolution_eval_s, evolution_sd_s, expansion_coef_s, ConfinedPotential, PointWell,
};
use crate::signature::{lemma_mtc_zero, WFSignature};
use crate::signatures::{WF1Space1Time, WFFinite};
use crate::wf_bra::{apply_domain_s, integrand_s, quad_sum_s, WFBra};
use crate::wf_ket::WFKet;

verus! {

/// A quadrature sum of pointwise sums splits into two quadrature sums.
pub proof fn lemma_quad_sum_add<S: WFSignature>(
    ts: Seq<S::Out>,
    aa: Seq<S::Out>,
    bb: Seq<S::Out>,
    w: S::Space,
    n: int,
)
    requires
        n <= ts.len(),
        aa.len() == ts.len(),
        bb.len() == ts.len(),
        forall|i: int| 0 <= i < n ==> #[trigger] ts[i] == aa[i].add_s(bb[i]),
    ensures
        quad_sum_s::<S>(ts, w, n) == quad_sum_s::<S>(aa, w, n).add_s(quad_sum_s::<S>(bb, w, n)),
    decreases n,
{
    if n <= 0 {
        <S::Out as Field>::law_add_zero(<S::Out as Field>::zero_s());
    } else {
        lemma_quad_sum_add::<S>(ts, aa, bb, w, n - 1);
        S::law_mtc_add(w, aa[n - 1], bb[n - 1]);
        lemma_add_shuffle(
            quad_sum_s::<S>(aa, w, n - 1),
            quad_sum_s::<S>(bb, w, n - 1),
            S::mul_to_codomain_s(w, aa[n - 1]),
            S::mul_to_codomain_s(w, bb[n - 1]),
        );
    }
}

/// A common scalar factor pulls out of a quadrature sum.
pub proof fn lemma_quad_sum_scale<S: WFSignature>(
    ts: Seq<S::Out>,
    aa: Seq<S::Out>,
    c: S::Out,
    w: S::Space,
    n: int,
)
    requires
        n <= ts.len(),
        aa.len() == ts.len(),
        forall|i: int| 0 <= i < n ==> #[trigger] ts[i] == c.mul_s(aa[i]),
    ensures
        quad_sum_s::<S>(ts, w, n) == c.mul_s(quad_sum_s::<S>(aa, w, n)),
    decreases n,
{
    if n <= 0 {
        lemma_mul_zero(c);
    } else {
        lemma_quad_sum_scale::<S>(ts, aa, c, w, n - 1);
        S::law_mtc_scale(w, c, aa[n - 1]);
        <S::Out as Field>::law_mul_distrib(
            c,
            quad_sum_s::<S>(aa, w, n - 1),
            S::mul_to_codomain_s(w, aa[n - 1]),
        );
    }
}

/// A quadrature sum of zeros is zero.
pub proof fn lemma_quad_sum_zero<S: WFSignature>(ts: Seq<S::Out>, w: S::Space, n: int)
    requires
        n <= ts.len(),
        forall|i: int| 0 <= i < n ==> #[trigger] ts[i] == <S::Out as Field>::zero_s(),
    ensures
        quad_sum_s::<S>(ts, w, n) == <S::Out as Field>::zero_s(),
    decreases n,
{
    if n > 0 {
        lemma_quad_sum_zero::<S>(ts, w, n - 1);
        lemma_mtc_zero::<S>(w);
        <S::Out as Field>::law_add_zero(<S::Out as Field>::zero_s());
    }
}

/// A quadrature sum with a single possibly nonzero entry is that entry's
/// weighted value.
pub proof fn lemma_quad_sum_single<S: WFSignature>(
    ts: Seq<S::Out>,
    w: S::Space,
    n: int,
    idx: int,
    v: S::Out,
)
    requires
        n <= ts.len(),
        0 <= idx < n,
        forall|i: int| 0 <= i < n ==> #[trigger] ts[i] == if i == idx {
            v
        } else {
            <S::Out as Field>::zero_s()
        },
    ensures
        quad_sum_s::<S>(ts, w, n) == S::mul_to_codomain_s(w, v),
    decreases n,
{
    if n - 1 == idx {
        lemma_quad_sum_zero::<S>(ts, w, n - 1);
        lemma_zero_add(S::mul_to_codomain_s(w, v));
    } else {
        lemma_quad_sum_single::<S>(ts, w, n - 1, idx, v);
        lemma_mtc_zero::<S>(w);
        <S::Out as Field>::law_add_zero(S::mul_to_codomain_s(w, v));
    }
}

/// Taking the adjoint of a ket twice — the bra of the ket, then the ket of
/// that bra — gives a ket that evaluates identically to the original at
/// every point and time: pointwise conjugation is an involution and the
/// subdomain is carried through unchanged.
///
/// The hypotheses are exactly what `to_adjoint` ensures of its result, so
/// the law applies to `k.to_adjoint().to_adjoint()` for any ket `k`.
pub proof fn lemma_adjoint_involution<S: WFSignature>(
    k: WFKet<S>,
    b: WFBra<S>,
    k2: WFKet<S>,
    x: S::Space,
    t: S::Time,
)
    requires
        b.subdomain == k.subdomain,
        forall|x: S::Space, t: S::Time| #[trigger] b.wavefunction.eval_s(x, t)
            == k.wavefunction.eval_s(x, t).conj_s(),
        k2.subdomain == b.subdomain,
        forall|x: S::Space, t: S::Time| #[trigger] k2.wavefunction.eval_s(x, t)
            == b.wavefunction.eval_s(x, t).conj_s(),
    ensures
        k2.f_s(x, t) == k.f_s(x, t),
{
    <S::Out as Field>::law_conj_involution(k.wavefunction.eval_s(x, t));
}

/// The inner product is additive in the ket: applying a bra to a pointwise
/// sum of two kets with a common subdomain gives the sum of the two inner
/// products. The hypotheses on `ksum` are exactly what `WFKet::add`
/// ensures of `k1.add(k2)`.
pub proof fn lemma_apply_additive<S: WFSignature>(
    b: WFBra<S>,
    k1: WFKet<S>,
    k2: WFKet<S>,
    ksum: WFKet<S>,
    t: S::Time,
)
    requires
        k1.subdomain == k2.subdomain,
        ksum.subdomain == k1.subdomain.add_s(k2.subdomain),
        forall|x: S::Space, t: S::Time| #[trigger] ksum.wavefunction.eval_s(x, t)
            == k1.wavefunction.eval_s(x, t).add_s(k2.wavefunction.eval_s(x, t)),
    ensures
        WFBra::apply_s(b, ksum, t) == WFBra::apply_s(b, k1, t).add_s(WFBra::apply_s(b, k2, t)),
{
    <S::SubDom as SubDomain<S::Space>>::law_combine_idempotent(k1.subdomain);
    assert(ksum.subdomain == k1.subdomain);
    let d = apply_domain_s(b, k1);
    let ts = integrand_s(b, ksum, t);
    let aa = integrand_s(b, k1, t);
    let bb = integrand_s(b, k2, t);
    assert forall|i: int| 0 <= i < ts.len() implies #[trigger] ts[i] == aa[i].add_s(bb[i]) by {
        let x = d.points_s()[i];
        if k1.subdomain.contains_s(x) {
            <S::Out as Field>::law_mul_distrib(
                b.f_s(x, t),
                k1.wavefunction.eval_s(x, t),
                k2.wavefunction.eval_s(x, t),
            );
        } else {
            lemma_mul_zero(b.f_s(x, t));
            <S::Out as Field>::law_add_zero(<S::Out as Field>::zero_s());
        }
    }
    lemma_quad_sum_add::<S>(ts, aa, bb, d.step_s(), ts.len() as int);
}

/// The inner product is homogeneous in the ket: applying a bra to a scaled
/// ket gives the scaled inner product. The hypotheses on `kscaled` are
/// exactly what `WFKet::scale` ensures of `k.scale(c)`.
pub proof fn lemma_apply_scale<S: WFSignature>(
    b: WFBra<S>,
    k: WFKet<S>,
    kscaled: WFKet<S>,
    c: S::Out,
    t: S::Time,
)
    requires
        kscaled.subdomain == k.subdomain,
        forall|x: S::Space, t: S::Time| #[trigger] kscaled.wavefunction.eval_s(x, t) == c.mul_s(
            k.wavefunction.eval_s(x, t),
        ),
    ensures
        WFBra::apply_s(b, kscaled, t) == c.mul_s(WFBra::apply_s(b, k, t)),
{
    let d = apply_domain_s(b, k);
    let ts = integrand_s(b, kscaled, t);
    let aa = integrand_s(b, k, t);
    assert forall|i: int| 0 <= i < ts.len() implies #[trigger] ts[i] == c.mul_s(aa[i]) by {
        let x = d.points_s()[i];
        if k.subdomain.contains_s(x) {
            let u = b.f_s(x, t);
            let v = k.wavefunction.eval_s(x, t);
            <S::Out as Field>::law_mul_assoc(u, c, v);
            <S::Out as Field>::law_mul_comm(u, c);
            <S::Out as Field>::law_mul_assoc(c, u, v);
        } else {
            lemma_mul_zero(b.f_s(x, t));
            lemma_mul_zero(c);
        }
    }
    lemma_quad_sum_scale::<S>(ts, aa, c, d.step_s(), ts.len() as int);
}

/// Applying a bra to a ket whose subdomain is disjoint from the bra's
/// yields exactly the field's zero: the integration domain is empty, and an
/// empty sum is the empty-sum identity.
pub proof fn lemma_apply_empty<S: WFSignature>(b: WFBra<S>, k: WFKet<S>, t: S::Time)
    requires
        b.applicable_s(k),
        forall|x: S::Space| !(b.subdomain.contains_s(x) && #[trigger] k.subdomain.contains_s(x)),
    ensures
        WFBra::apply_s(b, k, t) == <S::Out as Field>::zero_s(),
{
    let d = apply_domain_s(b, k);
    let ts = integrand_s(b, k, t);
    assert forall|i: int| 0 <= i < ts.len() implies #[trigger] ts[i] == <S::Out as Field>::zero_s()
        by {
        let x = d.points_s()[i];
        <S::SubDom as SubDomain<S::Space>>::law_points_contained(d);
        <S::SubDom as SubDomain<S::Space>>::law_mul_contains(k.subdomain, b.subdomain, x);
    }
    lemma_quad_sum_zero::<S>(ts, d.step_s(), ts.len() as int);
}

/// A space translation shifts pointwise evaluation exactly: the translated
/// ket takes at `x` the value the original took at `x - offset`, and its
/// subdomain keeps the original step size. The hypotheses on `kt` are
/// exactly what `WFKet::translate_space` ensures of `k.translate_space(dx)`,
/// and the offset must keep the bounds within the machine range of the
/// coordinate.
pub proof fn lemma_translate_space_eval<S: WFSignature>(
    k: WFKet<S>,
    kt: WFKet<S>,
    dx: S::Space,
    x: S::Space,
    t: S::Time,
)
    requires
        k.subdomain.translatable_s(dx),
        kt.subdomain == k.subdomain.translate_s(dx),
        forall|x: S::Space, t: S::Time| #[trigger] kt.wavefunction.eval_s(x, t)
            == k.wavefunction.eval_s(x.sub_s(dx), t),
    ensures
        kt.f_s(x, t) == k.f_s(x.sub_s(dx), t),
        kt.subdomain.step_s() == k.subdomain.step_s(),
{
    <S::SubDom as SubDomain<S::Space>>::law_translate_contains(k.subdomain, dx, x);
    <S::SubDom as SubDomain<S::Space>>::law_translate_step(k.subdomain, dx);
}

/// A quadrature sum of conjugation-fixed terms is itself fixed by
/// conjugation: conjugation distributes over the fold, and the quadrature
/// weight is a real factor.
proof fn lemma_quad_sum_conj_fixed<S: WFSignature>(ts: Seq<S::Out>, w: S::Space, n: int)
    requires
        n <= ts.len(),
        forall|i: int| 0 <= i < n ==> (#[trigger] ts[i]).conj_s() == ts[i],
    ensures
        quad_sum_s::<S>(ts, w, n).conj_s() == quad_sum_s::<S>(ts, w, n),
    decreases n,
{
    if n <= 0 {
        lemma_conj_zero::<S::Out>();
    } else {
        lemma_quad_sum_conj_fixed::<S>(ts, w, n - 1);
        <S::Out as Field>::law_conj_add(
            quad_sum_s::<S>(ts, w, n - 1),
            S::mul_to_codomain_s(w, ts[n - 1]),
        );
        S::law_mtc_conj(w, ts[n - 1]);
    }
}

/// The squared norm of any ket is fixed by conjugation: it lies in the
/// real subfield that conjugation fixes, the counterpart of the
/// real-valuedness of a squared norm. Its non-negativity is an order
/// property of the real scalars themselves and has no counterpart in an
/// abstract field.
pub proof fn lemma_norm_sqr_real<S: WFSignature>(k: WFKet<S>, t: S::Time)
    ensures
        WFKet::norm_sqr_s(k, t).conj_s() == WFKet::norm_sqr_s(k, t),
{
    let d = k.subdomain.mul_s(k.subdomain);
    let ts = d.points_s().map_values(
        |x: S::Space| WFKet::adjoint_f_s(k, x, t).mul_s(k.f_s(x, t)),
    );
    assert forall|i: int| 0 <= i < ts.len() implies (#[trigger] ts[i]).conj_s() == ts[i] by {
        let x = d.points_s()[i];
        if k.subdomain.contains_s(x) {
            let v = k.wavefunction.eval_s(x, t);
            <S::Out as Field>::law_conj_mul(v.conj_s(), v);
            <S::Out as Field>::law_conj_involution(v);
            <S::Out as Field>::law_mul_comm(v, v.conj_s());
        } else {
            lemma_mul_zero::<S::Out>(<S::Out as Field>::zero_s());
            lemma_conj_zero::<S::Out>();
        }
    }
    lemma_quad_sum_conj_fixed::<S>(ts, d.step_s(), ts.len() as int);
}

/// The inner product of the `i`th with the `j`th eigenstate of a confined
/// potential at time `t0`: the adjoint of eigenstate `i` applied to
/// eigenstate `j`.
pub open spec fn eigen_inner_s<S: WFSignature, P: ConfinedPotential<S>>(
    p: P,
    i: int,
    j: int,
    t0: S::Time,
) -> S::Out {
    let d = p.eigenstate_sd(j as usize).mul_s(p.eigenstate_sd(i as usize));
    quad_sum_s::<S>(
        d.points_s().map_values(
            |x: S::Space|
                (if p.eigenstate_sd(i as usize).contains_s(x) {
                    p.eigenstate_f(i as usize, x, t0).conj_s()
                } else {
                    <S::Out as Field>::zero_s()
                }).mul_s(
                    if p.eigenstate_sd(j as usize).contains_s(x) {
                        p.eigenstate_f(j as usize, x, t0)
                    } else {
                        <S::Out as Field>::zero_s()
                    },
                ),
        ),
        d.step_s(),
        d.points_s().len() as int,
    )
}

/// When the first `n` eigenstates share one support, the union fold of
/// their supports is that support.
proof fn lemma_sd_fold_collapse<S: WFSignature, P: ConfinedPotential<S>>(p: P, n: int)
    requires
        n >= 1,
        forall|i: int| 1 <= i <= n ==> #[trigger] p.eigenstate_sd(i as usize) == p.eigenstate_sd(1),
    ensures
        evolution_sd_s(p, n) == p.eigenstate_sd(1),
    decreases n,
{
    if n > 1 {
        lemma_sd_fold_collapse(p, n - 1);
        <S::SubDom as SubDomain<S::Space>>::law_combine_idempotent(p.eigenstate_sd(1));
    }
}

/// The integrand of reprojecting the reconstruction truncated after `k`
/// eigenstates onto eigenstate `m`.
spec fn reproject_terms_s<S: WFSignature, P: ConfinedPotential<S>>(
    p: P,
    initial: WFKet<S>,
    t0: S::Time,
    m: int,
    k: int,
) -> Seq<S::Out> {
    let sd = p.eigenstate_sd(1);
    sd.mul_s(sd).points_s().map_values(
        |x: S::Space|
            (if p.eigenstate_sd(m as usize).contains_s(x) {
                p.eigenstate_f(m as usize, x, t0).conj_s()
            } else {
                <S::Out as Field>::zero_s()
            }).mul_s(
                if sd.contains_s(x) {
                    evolution_eval_s(p, initial, t0, k, x, t0)
                } else {
                    <S::Out as Field>::zero_s()
                },
            ),
    )
}

/// Projecting the reconstruction truncated after `k` eigenstates onto
/// eigenstate `m` recovers the `m`th coefficient once `k` has reached `m`,
/// and nothing before.
proof fn lemma_reproject_prefix<S: WFSignature, P: ConfinedPotential<S>>(
    p: P,
    initial: WFKet<S>,
    t0: S::Time,
    m: int,
    k: int,
    max_n: int,
)
    requires
        1 <= m <= max_n,
        0 <= k <= max_n,
        forall|i: int| 1 <= i <= max_n ==> #[trigger] p.eigenstate_sd(i as usize) == p.eigenstate_sd(1),
        forall|i: int, j: int|
            1 <= i <= max_n && 1 <= j <= max_n ==> #[trigger] eigen_inner_s(p, i, j, t0) == (
            if i == j {
                <S::Out as Field>::one_s()
            } else {
                <S::Out as Field>::zero_s()
            }),
    ensures
        quad_sum_s::<S>(
            reproject_terms_s(p, initial, t0, m, k),
            p.eigenstate_sd(1).mul_s(p.eigenstate_sd(1)).step_s(),
            reproject_terms_s(p, initial, t0, m, k).len() as int,
        ) == if m <= k {
            expansion_coef_s(p, initial, t0, m)
        } else {
            <S::Out as Field>::zero_s()
        },
    decreases k,
{
    let sd = p.eigenstate_sd(1);
    let d = sd.mul_s(sd);
    let w = d.step_s();
    let ts = reproject_terms_s(p, initial, t0, m, k);
    let len = ts.len() as int;
    if k == 0 {
        assert forall|i: int| 0 <= i < len implies #[trigger] ts[i]
            == <S::Out as Field>::zero_s() by {
            let x = d.points_s()[i];
            let bx = if p.eigenstate_sd(m as usize).contains_s(x) {
                p.eigenstate_f(m as usize, x, t0).conj_s()
            } else {
                <S::Out as Field>::zero_s()
            };
            lemma_mul_zero(bx);
        }
        lemma_quad_sum_zero::<S>(ts, w, len);
    } else {
        lemma_reproject_prefix(p, initial, t0, m, k - 1, max_n);
        let prev = reproject_terms_s(p, initial, t0, m, k - 1);
        let ck = expansion_coef_s(p, initial, t0, k);
        let ek = d.points_s().map_values(
            |x: S::Space|
                (if p.eigenstate_sd(m as usize).contains_s(x) {
                    p.eigenstate_f(m as usize, x, t0).conj_s()
                } else {
                    <S::Out as Field>::zero_s()
                }).mul_s(
                    if sd.contains_s(x) {
                        p.eigenstate_f(k as usize, x, t0)
                    } else {
                        <S::Out as Field>::zero_s()
                    },
                ),
        );
        let sek = ek.map_values(|v: S::Out| ck.mul_s(v));
        assert forall|i: int| 0 <= i < len implies #[trigger] ts[i] == prev[i].add_s(sek[i]) by {
            let x = d.points_s()[i];
            let bx = if p.eigenstate_sd(m as usize).contains_s(x) {
                p.eigenstate_f(m as usize, x, t0).conj_s()
            } else {
                <S::Out as Field>::zero_s()
            };
            if sd.contains_s(x) {
                let u = evolution_eval_s(p, initial, t0, k - 1, x, t0);
                let v = p.eigenstate_f(k as usize, x, t0);
                <S::Out as Field>::law_mul_distrib(bx, u, ck.mul_s(v));
                <S::Out as Field>::law_mul_assoc(bx, ck, v);
                <S::Out as Field>::law_mul_comm(bx, ck);
                <S::Out as Field>::law_mul_assoc(ck, bx, v);
            } else {
                lemma_mul_zero(bx);
                lemma_mul_zero(ck);
                <S::Out as Field>::law_add_zero(<S::Out as Field>::zero_s());
            }
        }
        lemma_quad_sum_add::<S>(ts, prev, sek, w, len);
        assert forall|i: int| 0 <= i < len implies #[trigger] sek[i] == ck.mul_s(ek[i]) by {
        }
        lemma_quad_sum_scale::<S>(sek, ek, ck, w, len);
        assert(p.eigenstate_sd(k as usize) == sd);
        assert(p.eigenstate_sd(k as usize).mul_s(p.eigenstate_sd(m as usize)) == d) by {
            assert(p.eigenstate_sd(m as usize) == sd);
        }
        assert(ek =~= p.eigenstate_sd(k as usize).mul_s(p.eigenstate_sd(m as usize)).points_s().map_values(
            |x: S::Space|
                (if p.eigenstate_sd(m as usize).contains_s(x) {
                    p.eigenstate_f(m as usize, x, t0).conj_s()
                } else {
                    <S::Out as Field>::zero_s()
                }).mul_s(
                    if p.eigenstate_sd(k as usize).contains_s(x) {
                        p.eigenstate_f(k as usize, x, t0)
                    } else {
                        <S::Out as Field>::zero_s()
                    },
                ),
        ));
        assert(quad_sum_s::<S>(ek, w, len) == eigen_inner_s(p, m, k, t0));
        if m == k {
            <S::Out as Field>::law_mul_one(ck);
            lemma_zero_add(ck);
        } else {
            lemma_mul_zero(ck);
            <S::Out as Field>::law_add_zero(
                quad_sum_s::<S>(prev, w, len),
            );
        }
    }
}

/// Round-trip decomposition: when the eigenstates share one support and
/// are exactly orthonormal at `t0`, projecting the reconstructed state `r`
/// back onto the basis recovers the original expansion coefficients —
/// project, reconstruct, project is idempotent on the coefficients.
///
/// The hypotheses on `r` are exactly what `evolution` ensures of its
/// result.
pub proof fn lemma_evolution_reprojection<S: WFSignature, P: ConfinedPotential<S>>(
    p: P,
    initial: WFKet<S>,
    r: WFKet<S>,
    t0: S::Time,
    max_n: int,
    m: int,
)
    requires
        1 <= m <= max_n,
        forall|i: int| 1 <= i <= max_n ==> #[trigger] p.eigenstate_sd(i as usize) == p.eigenstate_sd(1),
        forall|i: int, j: int|
            1 <= i <= max_n && 1 <= j <= max_n ==> #[trigger] eigen_inner_s(p, i, j, t0) == (
            if i == j {
                <S::Out as Field>::one_s()
            } else {
                <S::Out as Field>::zero_s()
            }),
        r.subdomain == evolution_sd_s(p, max_n),
        forall|x: S::Space, t: S::Time| #[trigger] r.wavefunction.eval_s(x, t)
            == evolution_eval_s(p, initial, t0, max_n, x, t),
    ensures
        expansion_coef_s(p, r, t0, m) == expansion_coef_s(p, initial, t0, m),
{
    let sd = p.eigenstate_sd(1);
    lemma_sd_fold_collapse(p, max_n);
    assert(p.eigenstate_sd(m as usize) == sd);
    assert(r.subdomain.mul_s(p.eigenstate_sd(m as usize)) == sd.mul_s(sd));
    let d = sd.mul_s(sd);
    assert(d.points_s().map_values(
        |x: S::Space|
            (if p.eigenstate_sd(m as usize).contains_s(x) {
                p.eigenstate_f(m as usize, x, t0).conj_s()
            } else {
                <S::Out as Field>::zero_s()
            }).mul_s(r.f_s(x, t0)),
    ) =~= reproject_terms_s(p, initial, t0, m, max_n));
    lemma_reproject_prefix(p, initial, t0, m, max_n, max_n);
}

/// The inner product of the `i`th with the `j`th energy eigenstate of a
/// discrete system at time `t0`: the adjoint of eigenstate `i` applied to
/// eigenstate `j`.
pub open spec fn discrete_eigen_inner_s<S: WFSignature, P: DiscreteSystem<S>>(
    p: P,
    i: int,
    j: int,
    t0: S::Time,
) -> S::Out {
    let d = p.eigenstate_sd(j as i32).mul_s(p.eigenstate_sd(i as i32));
    quad_sum_s::<S>(
        d.points_s().map_values(
            |x: S::Space|
                (if p.eigenstate_sd(i as i32).contains_s(x) {
                    p.eigenstate_f(i as i32, x, t0).conj_s()
                } else {
                    <S::Out as Field>::zero_s()
                }).mul_s(
                    if p.eigenstate_sd(j as i32).contains_s(x) {
                        p.eigenstate_f(j as i32, x, t0)
                    } else {
                        <S::Out as Field>::zero_s()
                    },
                ),
        ),
        d.step_s(),
        d.points_s().len() as int,
    )
}

/// When the `k` eigenstates from `min_n` upward share one support, the
/// union fold of their supports is that support.
proof fn lemma_discrete_sd_fold_collapse<S: WFSignature, P: DiscreteSystem<S>>(
    p: P,
    min_n: int,
    k: int,
)
    requires
        k >= 1,
        forall|idx: int|
            0 <= idx < k ==> #[trigger] p.eigenstate_sd((min_n + idx) as i32) == p.eigenstate_sd(
                min_n as i32,
            ),
    ensures
        crate::discrete_system::evolution_sd_s(p, min_n, k) == p.eigenstate_sd(min_n as i32),
    decreases k,
{
    if k > 1 {
        lemma_discrete_sd_fold_collapse(p, min_n, k - 1);
        <S::SubDom as SubDomain<S::Space>>::law_combine_idempotent(p.eigenstate_sd(min_n as i32));
        assert(p.eigenstate_sd((min_n + (k - 1)) as i32) == p.eigenstate_sd(min_n as i32));
    }
}

/// The integrand of reprojecting the discrete reconstruction truncated
/// after `k` eigenstates onto eigenstate `m`.
spec fn discrete_reproject_terms_s<S: WFSignature, P: DiscreteSystem<S>>(
    p: P,
    initial: WFKet<S>,
    t0: S::Time,
    min_n: int,
    m: int,
    k: int,
) -> Seq<S::Out> {
    let sd = p.eigenstate_sd(min_n as i32);
    sd.mul_s(sd).points_s().map_values(
        |x: S::Space|
            (if p.eigenstate_sd(m as i32).contains_s(x) {
                p.eigenstate_f(m as i32, x, t0).conj_s()
            } else {
                <S::Out as Field>::zero_s()
            }).mul_s(
                if sd.contains_s(x) {
                    crate::discrete_system::evolution_eval_s(p, initial, t0, min_n, k, x, t0)
                } else {
                    <S::Out as Field>::zero_s()
                },
            ),
    )
}

/// Projecting the discrete reconstruction truncated after `k` eigenstates
/// onto eigenstate `m` recovers the `m`th coefficient once the truncation
/// has passed `m`, and nothing before.
proof fn lemma_discrete_reproject_prefix<S: WFSignature, P: DiscreteSystem<S>>(
    p: P,
    initial: WFKet<S>,
    t0: S::Time,
    min_n: int,
    m: int,
    k: int,
    count: int,
)
    requires
        min_n <= m < min_n + count,
        0 <= k <= count,
        forall|idx: int|
            0 <= idx < count ==> #[trigger] p.eigenstate_sd((min_n + idx) as i32)
                == p.eigenstate_sd(min_n as i32),
        forall|i: int, j: int|
            min_n <= i < min_n + count && min_n <= j < min_n + count
                ==> #[trigger] discrete_eigen_inner_s(p, i, j, t0) == (if i == j {
                <S::Out as Field>::one_s()
            } else {
                <S::Out as Field>::zero_s()
            }),
    ensures
        quad_sum_s::<S>(
            discrete_reproject_terms_s(p, initial, t0, min_n, m, k),
            p.eigenstate_sd(min_n as i32).mul_s(p.eigenstate_sd(min_n as i32)).step_s(),
            discrete_reproject_terms_s(p, initial, t0, min_n, m, k).len() as int,
        ) == if m < min_n + k {
            crate::discrete_system::expansion_coef_s(p, initial, t0, m)
        } else {
            <S::Out as Field>::zero_s()
        },
    decreases k,
{
    let sd = p.eigenstate_sd(min_n as i32);
    let d = sd.mul_s(sd);
    let w = d.step_s();
    let ts = discrete_reproject_terms_s(p, initial, t0, min_n, m, k);
    let len = ts.len() as int;
    if k == 0 {
        assert forall|i: int| 0 <= i < len implies #[trigger] ts[i]
            == <S::Out as Field>::zero_s() by {
            let x = d.points_s()[i];
            let bx = if p.eigenstate_sd(m as i32).contains_s(x) {
                p.eigenstate_f(m as i32, x, t0).conj_s()
            } else {
                <S::Out as Field>::zero_s()
            };
            lemma_mul_zero(bx);
        }
        lemma_quad_sum_zero::<S>(ts, w, len);
    } else {
        lemma_discrete_reproject_prefix(p, initial, t0, min_n, m, k - 1, count);
        let kk = min_n + k - 1;
        let prev = discrete_reproject_terms_s(p, initial, t0, min_n, m, k - 1);
        let ck = crate::discrete_system::expansion_coef_s(p, initial, t0, kk);
        let ek = d.points_s().map_values(
            |x: S::Space|
                (if p.eigenstate_sd(m as i32).contains_s(x) {
                    p.eigenstate_f(m as i32, x, t0).conj_s()
                } else {
                    <S::Out as Field>::zero_s()
                }).mul_s(
                    if sd.contains_s(x) {
                        p.eigenstate_f(kk as i32, x, t0)
                    } else {
                        <S::Out as Field>::zero_s()
                    },
                ),
        );
        let sek = ek.map_values(|v: S::Out| ck.mul_s(v));
        assert forall|i: int| 0 <= i < len implies #[trigger] ts[i] == prev[i].add_s(sek[i]) by {
            let x = d.points_s()[i];
            let bx = if p.eigenstate_sd(m as i32).contains_s(x) {
                p.eigenstate_f(m as i32, x, t0).conj_s()
            } else {
                <S::Out as Field>::zero_s()
            };
            if sd.contains_s(x) {
                let u = crate::discrete_system::evolution_eval_s(
                    p,
                    initial,
                    t0,
                    min_n,
                    k - 1,
                    x,
                    t0,
                );
                let v = p.eigenstate_f(kk as i32, x, t0);
                <S::Out as Field>::law_mul_distrib(bx, u, ck.mul_s(v));
                <S::Out as Field>::law_mul_assoc(bx, ck, v);
                <S::Out as Field>::law_mul_comm(bx, ck);
                <S::Out as Field>::law_mul_assoc(ck, bx, v);
            } else {
                lemma_mul_zero(bx);
                lemma_mul_zero(ck);
                <S::Out as Field>::law_add_zero(<S::Out as Field>::zero_s());
            }
        }
        lemma_quad_sum_add::<S>(ts, prev, sek, w, len);
        assert forall|i: int| 0 <= i < len implies #[trigger] sek[i] == ck.mul_s(ek[i]) by {
        }
        lemma_quad_sum_scale::<S>(sek, ek, ck, w, len);
        assert(p.eigenstate_sd(kk as i32) == sd) by {
            assert(p.eigenstate_sd((min_n + (k - 1)) as i32) == p.eigenstate_sd(min_n as i32));
        }
        assert(p.eigenstate_sd(kk as i32).mul_s(p.eigenstate_sd(m as i32)) == d) by {
            assert(p.eigenstate_sd((min_n + (m - min_n)) as i32) == p.eigenstate_sd(min_n as i32));
        }
        assert(ek =~= p.eigenstate_sd(kk as i32).mul_s(p.eigenstate_sd(m as i32)).points_s()
            .map_values(
            |x: S::Space|
                (if p.eigenstate_sd(m as i32).contains_s(x) {
                    p.eigenstate_f(m as i32, x, t0).conj_s()
                } else {
                    <S::Out as Field>::zero_s()
                }).mul_s(
                    if p.eigenstate_sd(kk as i32).contains_s(x) {
                        p.eigenstate_f(kk as i32, x, t0)
                    } else {
                        <S::Out as Field>::zero_s()
                    },
                ),
        ));
        assert(quad_sum_s::<S>(ek, w, len) == discrete_eigen_inner_s(p, m, kk, t0));
        if m == kk {
            <S::Out as Field>::law_mul_one(ck);
            lemma_zero_add(ck);
        } else {
            lemma_mul_zero(ck);
            <S::Out as Field>::law_add_zero(quad_sum_s::<S>(prev, w, len));
        }
    }
}

/// Round-trip decomposition for a discrete system: when the energy
/// eigenstates from `min_n` to `min_n + count - 1` share one support and
/// are exactly orthonormal at `t0`, projecting the reconstructed state `r`
/// back onto the basis recovers the original expansion coefficients.
///
/// The hypotheses on `r` are exactly what the discrete `evolution` ensures
/// of its result.
pub proof fn lemma_discrete_evolution_reprojection<S: WFSignature, P: DiscreteSystem<S>>(
    p: P,
    initial: WFKet<S>,
    r: WFKet<S>,
    t0: S::Time,
    min_n: int,
    count: int,
    m: int,
)
    requires
        min_n <= m < min_n + count,
        forall|idx: int|
            0 <= idx < count ==> #[trigger] p.eigenstate_sd((min_n + idx) as i32)
                == p.eigenstate_sd(min_n as i32),
        forall|i: int, j: int|
            min_n <= i < min_n + count && min_n <= j < min_n + count
                ==> #[trigger] discrete_eigen_inner_s(p, i, j, t0) == (if i == j {
                <S::Out as Field>::one_s()
            } else {
                <S::Out as Field>::zero_s()
            }),
        r.subdomain == crate::discrete_system::evolution_sd_s(p, min_n, count),
        forall|x: S::Space, t: S::Time| #[trigger] r.wavefunction.eval_s(x, t)
            == crate::discrete_system::evolution_eval_s(p, initial, t0, min_n, count, x, t),
    ensures
        crate::discrete_system::expansion_coef_s(p, r, t0, m)
            == crate::discrete_system::expansion_coef_s(p, initial, t0, m),
{
    let sd = p.eigenstate_sd(min_n as i32);
    lemma_discrete_sd_fold_collapse(p, min_n, count);
    assert(p.eigenstate_sd(m as i32) == sd) by {
        assert(p.eigenstate_sd((min_n + (m - min_n)) as i32) == p.eigenstate_sd(min_n as i32));
    }
    assert(r.subdomain.mul_s(p.eigenstate_sd(m as i32)) == sd.mul_s(sd));
    let d = sd.mul_s(sd);
    assert(d.points_s().map_values(
        |x: S::Space|
            (if p.eigenstate_sd(m as i32).contains_s(x) {
                p.eigenstate_f(m as i32, x, t0).conj_s()
            } else {
                <S::Out as Field>::zero_s()
            }).mul_s(r.f_s(x, t0)),
    ) =~= discrete_reproject_terms_s(p, initial, t0, min_n, m, count));
    lemma_discrete_reproject_prefix(p, initial, t0, min_n, m, count, count);
}

/// The energy eigenstates of a two-level system with unit-modulus
/// amplitudes are exactly orthonormal.
pub proof fn lemma_two_level_orthonormal(sys: TwoLevel, i: int, j: int, t0: i64)
    requires
        0 <= i <= 1,
        0 <= j <= 1,
        sys.amp_0.conj_s().mul_s(sys.amp_0) == Gf4::one_s(),
        sys.amp_1.conj_s().mul_s(sys.amp_1) == Gf4::one_s(),
    ensures
        discrete_eigen_inner_s::<WFFinite, TwoLevel>(sys, i, j, t0) == if i == j {
            Gf4::one_s()
        } else {
            Gf4::zero_s()
        },
{
    let sd = FiniteSubDomain { min_idx: 0, max_idx: 1 };
    let d = sd.mul_s(sd);
    assert(d == sd);
    let pts = d.points_s();
    let ts = pts.map_values(
        |x: i32|
            (if sys.eigenstate_sd(i as i32).contains_s(x) {
                sys.eigenstate_f(i as i32, x, t0).conj_s()
            } else {
                Gf4::zero_s()
            }).mul_s(
                if sys.eigenstate_sd(j as i32).contains_s(x) {
                    sys.eigenstate_f(j as i32, x, t0)
                } else {
                    Gf4::zero_s()
                },
            ),
    );
    let len = ts.len() as int;
    assert(len == 2);
    assert(pts[0] == 0i32 && pts[1] == 1i32);
    if i == j {
        assert forall|idx: int| 0 <= idx < len implies #[trigger] ts[idx] == if idx == i {
            Gf4::one_s()
        } else {
            Gf4::zero_s()
        } by {
        }
        lemma_quad_sum_single::<WFFinite>(ts, d.step_s(), len, i, Gf4::one_s());
        assert(1i32 & 1i32 == 1i32) by (bit_vector);
    } else {
        assert forall|idx: int| 0 <= idx < len implies #[trigger] ts[idx] == Gf4::zero_s() by {
        }
        lemma_quad_sum_zero::<WFFinite>(ts, d.step_s(), len);
    }
}

/// The eigenstates of a point-site well are exactly orthonormal: the inner
/// product of any two of them is one exactly when the indices agree and
/// the field's zero otherwise.
pub proof fn lemma_point_well_orthonormal(w: PointWell, i: int, j: int, t0: i64)
    requires
        1 <= i <= w.width,
        1 <= j <= w.width,
        w.width <= usize::MAX,
    ensures
        eigen_inner_s::<WF1Space1Time, PointWell>(w, i, j, t0) == if i == j {
            Gf4::one_s()
        } else {
            Gf4::zero_s()
        },
{
    let sd = SubDomain1D { lower: 1, upper: w.width, step_size: 1 };
    let d = sd.mul_s(sd);
    assert(d == sd);
    let pts = d.points_s();
    let ts = pts.map_values(
        |x: i64|
            (if w.eigenstate_sd(i as usize).contains_s(x) {
                w.eigenstate_f(i as usize, x, t0).conj_s()
            } else {
                Gf4::zero_s()
            }).mul_s(
                if w.eigenstate_sd(j as usize).contains_s(x) {
                    w.eigenstate_f(j as usize, x, t0)
                } else {
                    Gf4::zero_s()
                },
            ),
    );
    let len = ts.len() as int;
    assert(len == w.width) by {
        assert(d.points_count() == (w.width - 1) / 1 + 1);
    }
    assert forall|idx: int| 0 <= idx < len implies pts[idx] == idx + 1 by {
        vstd::arithmetic::mul::lemma_mul_basics(idx);
    }
    if i == j {
        assert forall|idx: int| 0 <= idx < len implies #[trigger] ts[idx] == if idx == i - 1 {
            Gf4::one_s()
        } else {
            Gf4::zero_s()
        } by {
            vstd::arithmetic::mul::lemma_mul_basics(idx);
        }
        lemma_quad_sum_single::<WF1Space1Time>(ts, d.step_s(), len, i - 1, Gf4::one_s());
        assert(1i64 & 1i64 == 1i64) by (bit_vector);
    } else {
        assert forall|idx: int| 0 <= idx < len implies #[trigger] ts[idx] == Gf4::zero_s() by {
            vstd::arithmetic::mul::lemma_mul_basics(idx);
        }
        lemma_quad_sum_zero::<WF1Space1Time>(ts, d.step_s(), len);
    }
}

} // verus!
