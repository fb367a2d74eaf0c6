//! Tests of the wavefunction algebra over the exact scalar field and the
//! integer lattice domain, where every equality is exact.

use std::sync::Arc;

use braket::braket::{Bra, Ket};
use braket::discrete_system::{DiscreteSystem, TwoLevel};
use braket::domain::{Domain, SubDomain};
use braket::domain_sect_1d::{SubDomain1D, SubDomain1DIter};
use braket::fields::{Field, Gf2, Gf4};
use braket::finite_domains::FiniteSubDomain;
use braket::potential::{ConfinedPotential, PointWell};
use braket::signatures::{LatticeWf, WF1Space1Time};
use braket::vectorspace::VectorSpace;
use braket::wavefunction::Wavefunction;
use braket::wf_bra::WFBra;
use braket::wf_ket::WFKet;
use braket::factorial;

const O: Gf4 = Gf4 { unit: false, omega: false };
const I: Gf4 = Gf4 { unit: true, omega: false };
const W: Gf4 = Gf4 { unit: false, omega: true };
const W2: Gf4 = Gf4 { unit: true, omega: true };

fn sd(lower: i64, upper: i64, step_size: i64) -> SubDomain1D {
    SubDomain1D { lower, upper, step_size }
}

fn const_ket(v: Gf4, dom: SubDomain1D) -> WFKet<WF1Space1Time> {
    WFKet::new(Arc::new(LatticeWf::Const(v)), dom)
}

#[test]
fn gf2_field_laws() {
    let z = Gf2 { bit: false };
    let o = Gf2 { bit: true };
    assert_eq!(Gf2::zero(), z);
    assert_eq!(Gf2::one(), o);
    assert_eq!(o.add(o), z);
    assert_eq!(o.add(z), o);
    assert_eq!(z.add(o), o.add(z));
    assert_eq!(o.mul(o), o);
    assert_eq!(o.mul(z), z);
    assert_eq!(o.sub(o), z);
    assert_eq!(o.neg(), o);
    assert_eq!(o.conjugate(), o);
    assert_eq!(z.conjugate(), z);
    assert!(z.is_zero());
    assert!(!o.is_zero());
    assert_eq!(z.inv(), None);
    assert_eq!(o.inv(), Some(o));
}

#[test]
fn gf4_field_laws() {
    // The multiplication table of the adjoined root: w * w = w + 1,
    // w * (w + 1) = 1.
    assert_eq!(W.mul(W), W2);
    assert_eq!(W.mul(W2), I);
    assert_eq!(W2.mul(W2), W);
    for &a in &[O, I, W, W2] {
        assert_eq!(a.add(O), a);
        assert_eq!(a.mul(I), a);
        assert_eq!(a.add(a), O);
        assert_eq!(a.neg(), a);
        assert_eq!(a.conjugate().conjugate(), a);
        assert_eq!(a.is_zero(), a == O);
        match a.inv() {
            None => assert_eq!(a, O),
            Some(b) => assert_eq!(a.mul(b), I),
        }
        for &b in &[O, I, W, W2] {
            assert_eq!(a.add(b), b.add(a));
            assert_eq!(a.mul(b), b.mul(a));
            for &c in &[O, I, W, W2] {
                assert_eq!(a.add(b).add(c), a.add(b.add(c)));
                assert_eq!(a.mul(b).mul(c), a.mul(b.mul(c)));
                assert_eq!(a.mul(b.add(c)), a.mul(b).add(a.mul(c)));
            }
        }
    }
}

#[test]
fn gf4_conjugation_fixes_the_base_field() {
    // Conjugation is the identity exactly on the elements with no component
    // along the adjoined root.
    assert_eq!(O.conjugate(), O);
    assert_eq!(I.conjugate(), I);
    assert_eq!(W.conjugate(), W2);
    assert_eq!(W2.conjugate(), W);
}

#[test]
fn factorial_values() {
    assert_eq!(factorial(0), 1);
    assert_eq!(factorial(1), 1);
    assert_eq!(factorial(5), 120);
    assert_eq!(factorial(10), 3628800);
}

#[test]
fn domain_sentinels() {
    assert_eq!(<i64 as Domain>::first(), i64::MIN);
    assert_eq!(<i64 as Domain>::last(), i64::MAX);
    assert_eq!(<i64 as Domain>::zero(), 0);
    assert_eq!(<i32 as Domain>::first(), i32::MIN);
    assert!(Domain::le(&3i64, &5));
    assert!(!Domain::le(&5i64, &3));
    assert_eq!(Domain::add(3i64, 4), 7);
    assert_eq!(Domain::sub(3i64, 4), -1);
}

#[test]
fn subdomain_union_and_intersection() {
    // The union takes the widest bounds, the intersection the overlap, and
    // both keep the finer step.
    let a = sd(0, 10, 2);
    let b = sd(5, 20, 1);
    let u = a.add(b);
    assert_eq!(u, sd(0, 20, 1));
    let m = a.mul(b);
    assert_eq!(m, sd(5, 10, 1));
    // Union membership covers both operands; intersection membership is
    // exactly the common members.
    for x in -2..25 {
        let in_a = a.contains(x);
        let in_b = b.contains(x);
        if in_a || in_b {
            assert!(u.contains(x));
        }
        assert_eq!(m.contains(x), in_a && in_b);
    }
}

#[test]
fn subdomain_empty_intersection_yields_no_points() {
    let a = sd(0, 1, 1);
    let b = sd(2, 3, 1);
    let m = a.mul(b);
    assert!(m.lower > m.upper);
    assert_eq!(m.points(), Vec::<i64>::new());
}

#[test]
fn subdomain_points_and_iter() {
    let a = sd(0, 10, 2);
    assert_eq!(a.points(), vec![0, 2, 4, 6, 8, 10]);
    // The step need not divide the width evenly; sampling stops at the
    // last point not beyond the upper bound.
    let b = sd(0, 5, 2);
    assert_eq!(b.points(), vec![0, 2, 4]);
    let mut it = SubDomain1DIter::new(&b, 2);
    assert_eq!(it.next(), Some(0));
    assert_eq!(it.next(), Some(2));
    assert_eq!(it.next(), Some(4));
    assert_eq!(it.next(), None);
    assert_eq!(it.next(), None);
}

#[test]
fn subdomain_all_none_and_with_step() {
    let n = <SubDomain1D as SubDomain<i64>>::none();
    assert_eq!(n.lower, 0);
    assert_eq!(n.upper, 0);
    assert!(n.contains(0));
    assert!(!n.contains(1));
    let a = <SubDomain1D as SubDomain<i64>>::all();
    assert!(a.contains(i64::MIN));
    assert!(a.contains(i64::MAX));
    let c = sd(0, 10, 2).with_step_size(5);
    assert_eq!(c, sd(0, 10, 5));
    assert_eq!(c.step_size(), 5);
}

#[test]
fn subdomain_translate_shifts_bounds_keeps_step() {
    let a = sd(0, 10, 2);
    let t = a.translate(3);
    assert_eq!(t, sd(3, 13, 2));
    let back = t.translate(-3);
    assert_eq!(back, a);
}

#[test]
fn finite_subdomain_combination() {
    let a = FiniteSubDomain { min_idx: 0, max_idx: 3 };
    let b = FiniteSubDomain { min_idx: 2, max_idx: 5 };
    assert_eq!(a.add(b), FiniteSubDomain { min_idx: 0, max_idx: 5 });
    assert_eq!(a.mul(b), FiniteSubDomain { min_idx: 2, max_idx: 3 });
    assert_eq!(a.points(), vec![0, 1, 2, 3]);
    assert_eq!(a.step_size(), 1);
    assert_eq!(a.translate(2), FiniteSubDomain { min_idx: 2, max_idx: 5 });
    let mut it = b.iter();
    assert_eq!(it.next(), Some(2));
}

#[test]
fn ket_evaluation_masks_outside_the_subdomain() {
    let k = const_ket(W, sd(1, 3, 1));
    assert_eq!(k.f(2, 0), W);
    assert_eq!(k.f(4, 0), O);
    assert_eq!(k.f(0, 7), O);
    // The probability density is conjugate times value inside, zero
    // outside.
    assert_eq!(k.p(2, 0), I);
    assert_eq!(k.p(4, 0), O);
}

#[test]
fn ket_algebra_is_pointwise() {
    let k1 = const_ket(I, sd(1, 3, 1));
    let k2 = const_ket(W, sd(2, 5, 1));
    let ksum = k1.clone().add(k2.clone());
    // Union support, pointwise sum inside.
    assert_eq!(ksum.subdomain, sd(1, 5, 1));
    assert_eq!(ksum.f(2, 0), I.add(W));
    let kdiff = k1.clone().sub(k2.clone());
    assert_eq!(kdiff.subdomain, sd(1, 5, 1));
    assert_eq!(kdiff.f(2, 0), I.add(W.neg()));
    let kneg = k2.clone().neg();
    assert_eq!(kneg.f(3, 0), W.neg());
    let kscaled = k2.scale(W);
    assert_eq!(kscaled.f(3, 0), W.mul(W));
    assert_eq!(kscaled.f(3, 0), W2);
}

#[test]
fn zero_ket_is_the_zero_function_everywhere() {
    let z = WFKet::<WF1Space1Time>::zero();
    assert_eq!(z.f(0, 0), O);
    assert_eq!(z.f(123456, -9), O);
}

#[test]
fn default_kets_and_bras_are_zero_on_the_degenerate_subdomain() {
    let k = <WFKet<WF1Space1Time> as Default>::default();
    assert_eq!(k.subdomain, SubDomain1D { lower: 0, upper: 0, step_size: i64::MAX });
    assert_eq!(k.f(0, 0), O);
    let b = <WFBra<WF1Space1Time> as Default>::default();
    assert_eq!(b.subdomain, SubDomain1D { lower: 0, upper: 0, step_size: i64::MAX });
    assert_eq!(b.f(0, 0), O);
    let mut iter = sd(2, 6, 2).into_iter();
    assert_eq!(iter.next(), Some(2));
    assert_eq!(iter.next(), Some(4));
    assert_eq!(iter.next(), Some(6));
    assert_eq!(iter.next(), None);
}

#[test]
fn empty_sums_are_the_vectorspace_zeros() {
    // An empty sum of kets is the zero ket, defined on the entire domain;
    // an empty sum of bras is the zero bra, over the degenerate subdomain.
    // A ket without constraints is unbounded; a bra that contributes
    // nothing constrains nothing.
    let s = WFKet::<WF1Space1Time>::sum(Vec::new());
    assert_eq!(
        s.subdomain,
        SubDomain1D { lower: i64::MIN, upper: i64::MAX, step_size: i64::MAX },
    );
    assert_eq!(s.f(0, 0), O);
    let ws = WFKet::<WF1Space1Time>::weighted_sum(Vec::new());
    assert_eq!(
        ws.subdomain,
        SubDomain1D { lower: i64::MIN, upper: i64::MAX, step_size: i64::MAX },
    );
    assert_eq!(ws.f(17, -3), O);
    let b = WFBra::<WF1Space1Time>::sum(Vec::new());
    assert_eq!(b.subdomain, SubDomain1D { lower: 0, upper: 0, step_size: i64::MAX });
    let w = WFBra::<WF1Space1Time>::weighted_sum(Vec::new());
    assert_eq!(w.subdomain, SubDomain1D { lower: 0, upper: 0, step_size: i64::MAX });
}

#[test]
fn adjoint_involution_pointwise() {
    let k = WFKet::<WF1Space1Time>::new(
        Arc::new(LatticeWf::Point { at: 2, value: W }),
        sd(1, 3, 1),
    );
    let b = k.clone().to_adjoint();
    // The bra conjugates pointwise.
    assert_eq!(b.f(2, 0), W.conjugate());
    assert_eq!(b.f(2, 0), W2);
    // Taking the adjoint twice evaluates identically to the original.
    let k2 = b.to_adjoint();
    for x in 0..5 {
        for t in -2..3 {
            assert_eq!(k2.f(x, t), k.f(x, t));
        }
    }
}

#[test]
fn inner_product_concrete_value() {
    // Three sample points of weight one; each term is w * w, and in
    // characteristic two a threefold sum collapses to a single term.
    let k = const_ket(W, sd(1, 3, 1));
    let b = const_ket(W2, sd(1, 3, 1)).to_adjoint();
    assert_eq!(b.f(1, 0), W);
    assert_eq!(b.apply(&k, 0), W2);
    // The shorthand operator applies at the zero of time.
    assert_eq!(b.mul(&k), W2);
}

#[test]
fn inner_product_over_disjoint_supports_is_exactly_zero() {
    let k1 = const_ket(W, sd(0, 1, 1));
    let k2 = const_ket(W2, sd(2, 3, 1));
    let b = k2.to_adjoint();
    assert_eq!(b.apply(&k1, 0), O);
}

#[test]
fn inner_product_is_linear_in_the_ket() {
    let dom = sd(1, 3, 1);
    let k1 = const_ket(I, dom);
    let k2 = const_ket(W, dom);
    let b = const_ket(W2, dom).to_adjoint();
    let lhs = b.apply(&k1.clone().add(k2.clone()), 0);
    let rhs = b.apply(&k1.clone(), 0).add(b.apply(&k2.clone(), 0));
    assert_eq!(lhs, rhs);
    assert_eq!(lhs, I);
    let scaled = b.apply(&k1.clone().scale(W), 0);
    assert_eq!(scaled, W.mul(b.apply(&k1, 0)));
    assert_eq!(scaled, W2);
}

#[test]
fn translation_shifts_evaluation_and_support() {
    let k = WFKet::<WF1Space1Time>::new(
        Arc::new(LatticeWf::Point { at: 2, value: W }),
        sd(1, 3, 1),
    );
    let moved = k.clone().translate_space(2);
    assert_eq!(moved.subdomain, sd(3, 5, 1));
    assert_eq!(moved.subdomain.step_size, k.subdomain.step_size);
    for x in 0..8 {
        for t in -1..2 {
            assert_eq!(moved.f(x, t), k.f(x - 2, t));
        }
    }
}

#[test]
fn time_translation_shifts_the_time_argument() {
    let k = WFKet::<WF1Space1Time>::new(Arc::new(LatticeWf::Parity), sd(0, 4, 1));
    let later = k.clone().translate_time(1);
    for x in 0..5 {
        for t in -2..3 {
            assert_eq!(later.f(x, t), k.f(x, t - 1));
        }
    }
    assert_eq!(later.subdomain, k.subdomain);
}

#[test]
fn norm_sqr_of_a_unit_eigenstate_is_one() {
    let well = PointWell::new(4);
    for n in 1..5 {
        let e = well.eigenstate(n);
        assert_eq!(e.norm_sqr(0), I);
    }
}

#[test]
fn norm_sqr_is_fixed_by_conjugation() {
    // The squared norm of any ket lies in the base field: conjugating it
    // changes nothing, even when the ket itself takes values with a
    // component along the adjoined root.
    let k = const_ket(W, sd(1, 3, 1)).add(WFKet::new(
        Arc::new(LatticeWf::Point { at: 2, value: W2 }),
        sd(2, 2, 1),
    ));
    for t in -2..3 {
        let n = k.norm_sqr(t);
        assert_eq!(n.conjugate(), n);
    }
}

#[test]
fn point_well_eigenstates_are_orthonormal() {
    let well = PointWell::new(4);
    for i in 1..5usize {
        for j in 1..5usize {
            let bi = WFKet::adjoint(&well.eigenstate(i));
            let c = bi.apply(&well.eigenstate(j), 0);
            if i == j {
                assert_eq!(c, I);
            } else {
                assert_eq!(c, O);
            }
        }
    }
}

#[test]
fn evolution_round_trip_recovers_coefficients() {
    // Project an eigenbasis combination, reconstruct it, and project the
    // reconstruction again: the coefficients come back exactly.
    let well = PointWell::new(3);
    let coefs = [I, W, W2];
    let summands: Vec<(Gf4, WFKet<WF1Space1Time>)> = coefs
        .iter()
        .enumerate()
        .map(|(idx, &c)| (c, well.eigenstate(idx + 1)))
        .collect();
    let initial = WFKet::weighted_sum(summands);
    let r = braket::potential::evolution(&well, &initial, 0, 3);
    for (idx, &c) in coefs.iter().enumerate() {
        let bra = WFKet::adjoint(&well.eigenstate(idx + 1));
        assert_eq!(bra.apply(&initial, 0), c);
        assert_eq!(bra.apply(&r, 0), c);
    }
    // The reconstruction also evaluates like the original combination on
    // every site.
    for x in 1..4 {
        assert_eq!(r.f(x, 0), initial.f(x, 0));
    }
}

#[test]
fn two_level_round_trip() {
    let sys = TwoLevel::new(W, W2);
    let e0 = sys.energy_eigenstate(0);
    let e1 = sys.energy_eigenstate(1);
    assert_eq!(e0.f(0, 0), W);
    assert_eq!(e0.f(1, 0), O);
    assert_eq!(e1.f(1, 0), W2);
    let initial = e0.clone().add(e1.clone().scale(W));
    let r = braket::discrete_system::evolution(&sys, &initial, 0, 0, 1);
    let c0 = WFKet::adjoint(&e0).apply(&initial, 0);
    let c1 = WFKet::adjoint(&e1).apply(&initial, 0);
    assert_eq!(WFKet::adjoint(&e0).apply(&r, 0), c0);
    assert_eq!(WFKet::adjoint(&e1).apply(&r, 0), c1);
    assert_eq!(c0, I);
    assert_eq!(c1, W);
}

#[test]
fn vectorspace_and_wavefunction_traits_forward() {
    // The trait-level entry points behave like the inherent ones.
    let k = const_ket(W, sd(1, 3, 1));
    let z = <WFKet<WF1Space1Time> as VectorSpace<Gf4>>::zero();
    assert_eq!(Wavefunction::<WF1Space1Time>::f(&z, 2, 0), O);
    let s = <WFKet<WF1Space1Time> as VectorSpace<Gf4>>::sum(vec![k.clone(), k.clone()]);
    assert_eq!(Wavefunction::<WF1Space1Time>::f(&s, 2, 0), W.add(W));
    let b = Ket::to_adjoint(k.clone());
    assert_eq!(Bra::apply(&b, &k, 0), Ket::norm_sqr(&k, 0));
    let scaled = VectorSpace::scale(k.clone(), W);
    assert_eq!(Wavefunction::<WF1Space1Time>::f(&scaled, 2, 0), W.mul(W));
    let moved = Wavefunction::<WF1Space1Time>::translate_space(k.clone(), 2);
    assert_eq!(moved.f(4, 0), k.f(2, 0));
    assert_eq!(moved.subdomain, sd(3, 5, 1));
}

#[test]
fn bra_algebra_mirrors_ket_algebra() {
    let b1 = const_ket(I, sd(1, 3, 1)).to_adjoint();
    let b2 = const_ket(W, sd(2, 4, 1)).to_adjoint();
    let bsum = b1.clone().add(b2.clone());
    assert_eq!(bsum.subdomain, sd(1, 4, 1));
    assert_eq!(bsum.f(2, 0), I.add(W2));
    let bscaled = b2.clone().scale(W);
    assert_eq!(bscaled.f(3, 0), W.mul(W2));
    let bneg = b1.clone().neg();
    assert_eq!(bneg.f(2, 0), I);
    let bdiff = b1.clone().sub(b2.clone());
    assert_eq!(bdiff.subdomain, sd(1, 4, 1));
    let bz = WFBra::<WF1Space1Time>::zero();
    assert_eq!(bz.f(0, 0), O);
    let bmoved = b2.translate_space(1).translate_time(2);
    assert_eq!(bmoved.subdomain, sd(3, 5, 1));
}

#[test]
fn two_state_indices_outside_the_well_give_zero_coefficient() {
    // A ket supported away from the well contributes nothing.
    let well = PointWell::new(3);
    let faraway = const_ket(W, sd(10, 12, 1));
    let b = WFKet::adjoint(&well.eigenstate(1));
    assert_eq!(b.apply(&faraway, 0), O);
}
