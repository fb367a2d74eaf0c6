//! Tests of the algebra instantiated with floating-point scalars: the
//! infinite square well and a two-state system, checked numerically within
//! quadrature tolerance.

use std::f32::consts::PI;
use std::sync::Arc;

use num_complex::Complex32;

use braket::domain::{Domain, SubDomain};
use braket::finite_domains::FiniteSubDomain;
use braket::potential::{evolution, ConfinedPotential};
use braket::signature::{WFFunc, WFSignature};
use braket::wf_ket::WFKet;

/// A real coordinate.
#[derive(Clone, Copy, PartialEq, Debug)]
struct Coord(f32);

impl Domain for Coord {

    // Specification-only members of the trait; never evaluated at run
    // time.
    fn add_s(self, _o: Self) -> Self {
        self
    }

    fn sub_s(self, _o: Self) -> Self {
        self
    }

    fn le_s(self, _o: Self) -> bool {
        false
    }

    fn first_s() -> Self {
        Coord(0.0)
    }

    fn last_s() -> Self {
        Coord(0.0)
    }

    fn zero_s() -> Self {
        Coord(0.0)
    }

    fn first() -> Self {
        Coord(f32::NEG_INFINITY)
    }

    fn last() -> Self {
        Coord(f32::INFINITY)
    }

    fn zero() -> Self {
        Coord(0.0)
    }

    fn add(self, o: Self) -> Self {
        Coord(self.0 + o.0)
    }

    fn sub(self, o: Self) -> Self {
        Coord(self.0 - o.0)
    }

    fn le(&self, o: &Self) -> bool {
        self.0 <= o.0
    }
}

/// A complex scalar.
#[derive(Clone, Copy, PartialEq, Debug)]
struct Scalar(Complex32);

impl braket::fields::Field for Scalar {
    fn zero() -> Self {
        Scalar(Complex32::new(0.0, 0.0))
    }

    fn one() -> Self {
        Scalar(Complex32::new(1.0, 0.0))
    }

    fn add(self, o: Self) -> Self {
        Scalar(self.0 + o.0)
    }

    fn sub(self, o: Self) -> Self {
        Scalar(self.0 - o.0)
    }

    fn mul(self, o: Self) -> Self {
        Scalar(self.0 * o.0)
    }

    fn neg(self) -> Self {
        Scalar(-self.0)
    }

    fn inv(&self) -> Option<Self> {
        if self.is_zero() {
            None
        } else {
            Some(Scalar(self.0.inv()))
        }
    }

    fn is_zero(&self) -> bool {
        self.0 == Complex32::new(0.0, 0.0)
    }

    fn conjugate(self) -> Self {
        Scalar(self.0.conj())
    }

    // Specification-only members of the trait; never evaluated at run
    // time.
    fn add_s(self, _o: Self) -> Self {
        self
    }

    fn mul_s(self, _o: Self) -> Self {
        self
    }

    fn neg_s(self) -> Self {
        self
    }

    fn conj_s(self) -> Self {
        self
    }

    fn zero_s() -> Self {
        Scalar(Complex32::new(0.0, 0.0))
    }

    fn one_s() -> Self {
        Scalar(Complex32::new(1.0, 0.0))
    }

    fn law_add_comm(_a: Self, _b: Self) {
    }

    fn law_add_assoc(_a: Self, _b: Self, _c: Self) {
    }

    fn law_add_zero(_a: Self) {
    }

    fn law_add_neg(_a: Self) {
    }

    fn law_mul_comm(_a: Self, _b: Self) {
    }

    fn law_mul_assoc(_a: Self, _b: Self, _c: Self) {
    }

    fn law_mul_one(_a: Self) {
    }

    fn law_mul_distrib(_a: Self, _b: Self, _c: Self) {
    }

    fn law_conj_involution(_a: Self) {
    }

    fn law_conj_add(_a: Self, _b: Self) {
    }

    fn law_conj_mul(_a: Self, _b: Self) {
    }
}

/// A bounded, steppable interval of real coordinates.
#[derive(Clone, Copy)]
struct Interval {
    lower: f32,
    upper: f32,
    step_size: f32,
}

impl SubDomain<Coord> for Interval {

    // Specification-only members of the trait; never evaluated at run
    // time.
    fn contains_s(self, _x: Coord) -> bool {
        false
    }

    fn step_s(self) -> Coord {
        Coord(self.step_size)
    }

    fn iterable_s(self) -> bool {
        false
    }

    fn translatable_s(self, _offset: Coord) -> bool {
        false
    }

    fn add_s(self, o: Self) -> Self {
        self.add(o)
    }

    fn mul_s(self, o: Self) -> Self {
        self.mul(o)
    }

    fn translate_s(self, offset: Coord) -> Self {
        self.translate(offset)
    }

    fn with_step_s(self, step_size: Coord) -> Self {
        self.with_step_size(step_size)
    }

    fn all_s() -> Self {
        <Interval as SubDomain<Coord>>::all()
    }

    fn none_s() -> Self {
        <Interval as SubDomain<Coord>>::none()
    }

    fn law_points_contained(_s: Self) {
    }

    fn law_mul_contains(_a: Self, _b: Self, _x: Coord) {
    }

    fn law_add_contains(_a: Self, _b: Self, _x: Coord) {
    }

    fn law_combine_idempotent(_a: Self) {
    }

    fn law_translate_contains(_a: Self, _offset: Coord, _x: Coord) {
    }

    fn law_translate_step(_a: Self, _offset: Coord) {
    }

    fn contains(&self, x: Coord) -> bool {
        self.lower <= x.0 && x.0 <= self.upper
    }

    fn all() -> Self {
        Interval { lower: f32::NEG_INFINITY, upper: f32::INFINITY, step_size: f32::INFINITY }
    }

    fn none() -> Self {
        Interval { lower: 0.0, upper: 0.0, step_size: f32::INFINITY }
    }

    fn step_size(&self) -> Coord {
        Coord(self.step_size)
    }

    fn points(&self) -> Vec<Coord> {
        let mut out = Vec::new();
        let mut v = self.lower;
        while v <= self.upper {
            out.push(Coord(v));
            v += self.step_size;
        }
        out
    }

    fn translate(self, offset: Coord) -> Self {
        Interval {
            lower: self.lower + offset.0,
            upper: self.upper + offset.0,
            step_size: self.step_size,
        }
    }

    fn with_step_size(self, step_size: Coord) -> Self {
        Interval { lower: self.lower, upper: self.upper, step_size: step_size.0 }
    }

    fn add(self, o: Self) -> Self {
        Interval {
            lower: self.lower.min(o.lower),
            upper: self.upper.max(o.upper),
            step_size: self.step_size.min(o.step_size),
        }
    }

    fn mul(self, o: Self) -> Self {
        Interval {
            lower: self.lower.max(o.lower),
            upper: self.upper.min(o.upper),
            step_size: self.step_size.min(o.step_size),
        }
    }
}

/// A wavefunction leaf holding an arbitrary shared closure.
struct FnWf(Arc<dyn Fn(f32, f32) -> Complex32 + Send + Sync>);

impl WFFunc<Coord, Coord, Scalar> for FnWf {

    // Specification-only member of the trait; never evaluated at run time.
    fn f_s(self, x: Coord, t: Coord) -> Scalar {
        Scalar((self.0)(x.0, t.0))
    }

    fn f(&self, x: Coord, t: Coord) -> Scalar {
        Scalar((self.0)(x.0, t.0))
    }
}

/// One real spatial dimension and one time dimension over complex scalars.
#[derive(Clone)]
struct RealLine;

impl WFSignature for RealLine {
    type Space = Coord;
    type Time = Coord;
    type Out = Scalar;
    type SubDom = Interval;
    type Wf = FnWf;

    fn mul_to_codomain(a: Coord, b: Scalar) -> Scalar {
        Scalar(a.0 * b.0)
    }

    // Specification-only members of the trait; never evaluated at run
    // time.
    fn mul_to_codomain_s(_a: Coord, b: Scalar) -> Scalar {
        b
    }

    fn law_mtc_add(_a: Coord, _x: Scalar, _y: Scalar) {
    }

    fn law_mtc_scale(_a: Coord, _c: Scalar, _x: Scalar) {
    }

    fn law_mtc_conj(_a: Coord, _x: Scalar) {
    }
}

fn eigenfunction(x: f32, t: f32, width: f32, mass: f32, hbar: f32, n: usize) -> Complex32 {
    let energy = (n as f32 * PI * hbar / width).powi(2) / (2.0 * mass);
    let coef = (2.0 / width).sqrt();
    let phase_x: f32 = (n as f32) * PI * x / width;
    coef * phase_x.sin() * Complex32::cis(-energy * t / hbar)
}

/// An infinite square well with a particle inside.
#[derive(Clone, Copy)]
struct InfiniteSquareWell {
    width: f32,
    mass: f32,
    hbar: f32,
    step_size: f32,
}

impl ConfinedPotential<RealLine> for InfiniteSquareWell {

    // Specification-only members of the trait; never evaluated at run
    // time.
    fn valid_index(self, _n: usize) -> bool {
        false
    }

    fn eigenstate_sd(self, _n: usize) -> Interval {
        Interval { lower: 0.0, upper: self.width, step_size: self.step_size }
    }

    fn eigenstate_f(self, _n: usize, _x: Coord, _t: Coord) -> Scalar {
        Scalar(Complex32::new(0.0, 0.0))
    }

    fn eigenstate(&self, n: usize) -> WFKet<RealLine> {
        let (width, mass, hbar) = (self.width, self.mass, self.hbar);
        WFKet::new(
            Arc::new(FnWf(Arc::new(move |x, t| eigenfunction(x, t, width, mass, hbar, n)))),
            Interval { lower: 0.0, upper: self.width, step_size: self.step_size },
        )
    }
}

fn isw() -> InfiniteSquareWell {
    InfiniteSquareWell { width: 1.0, mass: 1.0, hbar: 1.0, step_size: 1.0 / 1000.0 }
}

fn inner(b: &WFKet<RealLine>, k: &WFKet<RealLine>, t: f32) -> Complex32 {
    WFKet::adjoint(b).apply(k, Coord(t)).0
}

#[test]
fn isw_eigenstates_are_orthonormal() {
    // The first four infinite-square-well eigenstates for width 1, mass 1,
    // hbar 1, step 1/1000 satisfy the Kronecker-delta inner products within
    // quadrature tolerance.
    let well = isw();
    for i in 1..5usize {
        for j in 1..5usize {
            let c = inner(&well.eigenstate(i), &well.eigenstate(j), 0.0);
            let expected = if i == j { 1.0 } else { 0.0 };
            assert!(
                (c.re - expected).abs() < 1e-2 && c.im.abs() < 1e-2,
                "inner({}, {}) = {}",
                i,
                j,
                c
            );
        }
    }
}

#[test]
fn norm_sqr_is_real_and_non_negative() {
    let well = isw();
    let e = well.eigenstate(2);
    for &t in &[0.0f32, 0.3, 1.7, -2.5] {
        let n = e.norm_sqr(Coord(t)).0;
        assert!(n.im.abs() < 1e-3, "imaginary norm at t = {}: {}", t, n);
        assert!(n.re >= -1e-6, "negative norm at t = {}: {}", t, n);
        assert!((n.re - 1.0).abs() < 1e-2);
    }
}

#[test]
fn inner_product_is_bilinear_within_tolerance() {
    let well = isw();
    let k1 = well.eigenstate(1);
    let k2 = well.eigenstate(2);
    let b = well.eigenstate(1);
    let lhs = inner(&b, &k1.clone().add(k2.clone()), 0.0);
    let rhs = inner(&b, &k1.clone(), 0.0) + inner(&b, &k2.clone(), 0.0);
    assert!((lhs - rhs).norm() < 1e-4 * (1.0 + rhs.norm()));
    let c = Complex32::new(0.25, -1.5);
    let lhs2 = inner(&b, &k1.clone().scale(Scalar(c)), 0.0);
    let rhs2 = c * inner(&b, &k1, 0.0);
    assert!((lhs2 - rhs2).norm() < 1e-4 * (1.0 + rhs2.norm()));
}

#[test]
fn evolution_round_trip_is_consistent_numerically() {
    // Project an eigenstate mixture onto the basis, reconstruct, and
    // re-project: the recovered coefficients match the originals within
    // quadrature tolerance.
    let well = isw();
    let initial = well.eigenstate(1).scale(Scalar(Complex32::new(0.6, 0.0))).add(
        well.eigenstate(3).scale(Scalar(Complex32::new(0.0, 0.8))),
    );
    let reconstructed = evolution(&well, &initial, Coord(0.0), 4);
    for n in 1..5usize {
        let before = inner(&well.eigenstate(n), &initial, 0.0);
        let after = inner(&well.eigenstate(n), &reconstructed, 0.0);
        assert!(
            (before - after).norm() < 1e-2,
            "coefficient {} drifted: {} vs {}",
            n,
            before,
            after
        );
    }
}

#[test]
fn translation_shifts_float_evaluation() {
    let well = isw();
    let k = well.eigenstate(1);
    let moved = k.clone().translate_space(Coord(0.25));
    for i in 0..10 {
        let x = 0.05 + 0.1 * i as f32;
        let a = moved.f(Coord(x), Coord(0.0)).0;
        let b = k.f(Coord(x - 0.25), Coord(0.0)).0;
        assert!((a - b).norm() < 1e-6);
    }
}

/// A leaf for the two-state system: a pair of components selected by the
/// coordinate index.
struct PairWf(Arc<dyn Fn(i32, f32) -> Complex32 + Send + Sync>);

impl WFFunc<i32, Coord, Scalar> for PairWf {
    // Specification-only member of the trait; never evaluated at run time.
    fn f_s(self, x: i32, t: Coord) -> Scalar {
        Scalar((self.0)(x, t.0))
    }

    fn f(&self, x: i32, t: Coord) -> Scalar {
        Scalar((self.0)(x, t.0))
    }
}

/// Finite coordinates and one time dimension over complex scalars.
#[derive(Clone)]
struct TwoStateSig;

impl WFSignature for TwoStateSig {
    type Space = i32;
    type Time = Coord;
    type Out = Scalar;
    type SubDom = FiniteSubDomain;
    type Wf = PairWf;

    fn mul_to_codomain(a: i32, b: Scalar) -> Scalar {
        Scalar(a as f32 * b.0)
    }

    // Specification-only members of the trait; never evaluated at run
    // time.
    fn mul_to_codomain_s(_a: i32, b: Scalar) -> Scalar {
        b
    }

    fn law_mtc_add(_a: i32, _x: Scalar, _y: Scalar) {
    }

    fn law_mtc_scale(_a: i32, _c: Scalar, _x: Scalar) {
    }

    fn law_mtc_conj(_a: i32, _x: Scalar) {
    }
}

/// A two-state quantum system with float levels and complex coupling.
struct TwoState {
    level_1: f32,
    level_2: f32,
    coupling: Complex32,
    hbar: f32,
}

impl TwoState {
    fn energy_eigenstate(&self, n: i32) -> WFKet<TwoStateSig> {
        if n < 0 || n > 1 {
            panic!("Index of TwoState eigenstate invalid. Only states 0,1 allowed.")
        }
        let (level_1, level_2, coupling, hbar) =
            (self.level_1, self.level_2, self.coupling, self.hbar);
        let delta = level_1 - level_2;
        let v = coupling.norm();
        let theta = 0.5 * (2.0 * v / delta).atan();
        let phase = if v == 0.0 { Complex32::new(1.0, 0.0) } else { coupling / v };
        let eigenstate = match n {
            0 => (Complex32::new(-theta.sin(), 0.0), phase * theta.cos()),
            _ => (Complex32::new(theta.cos(), 0.0), phase * theta.sin()),
        };
        let split = ((delta / 2.0).powi(2) + coupling.norm_sqr()).sqrt()
            * match n {
                0 => -1.0,
                _ => 1.0,
            };
        let mean_level = 0.5 * (level_1 + level_2);
        let energy: f32 = mean_level + split;
        WFKet::new(
            Arc::new(PairWf(Arc::new(move |x: i32, t: f32| {
                Complex32::cis(-energy * t / hbar)
                    * match x {
                        0 => eigenstate.0,
                        _ => eigenstate.1,
                    }
            }))),
            FiniteSubDomain { min_idx: 0, max_idx: 1 },
        )
    }
}

#[test]
fn two_state_eigenstates_are_orthonormal() {
    // The quadrature step over the finite domain is one, so the inner
    // product is the plain complex dot product of the two-component
    // eigenvectors, which the analytic formulas make orthonormal.
    let sys = TwoState {
        level_1: 1.0,
        level_2: -1.0,
        coupling: Complex32::new(0.5, 0.5),
        hbar: 1.0,
    };
    let e0 = sys.energy_eigenstate(0);
    let e1 = sys.energy_eigenstate(1);
    let cross = WFKet::adjoint(&e0).apply(&e1, Coord(0.0)).0;
    assert!(cross.norm() < 1e-6, "eigenvectors not orthogonal: {}", cross);
    let n0 = e0.norm_sqr(Coord(0.0)).0;
    let n1 = e1.norm_sqr(Coord(0.0)).0;
    assert!((n0 - 1.0).norm() < 1e-6);
    assert!((n1 - 1.0).norm() < 1e-6);
    assert!(n0.re >= 0.0 && n1.re >= 0.0);
}
