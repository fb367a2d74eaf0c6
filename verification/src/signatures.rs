//! Concrete wavefunction signatures over exact scalar and coordinate types,
//! and the wavefunction leaves available to them.

use vstd::prelude::*;

use crate::domain::Domain;
use crate::domain_sect_1d::SubDomain1D;
use crate::fields::{Field, Gf4};
use crate::finite_domains::FiniteSubDomain;
use crate::signature::{WFFunc, WFSignature};

verus! {

/// Whether a coordinate carries quadrature weight one: the embedding of the
/// integers into the base field is reduction to parity.
pub open spec fn odd_weight_s(a: i64) -> bool {
    a & 1 == 1
}

/// Whether a finite-domain index carries quadrature weight one.
pub open spec fn odd_weight_i32_s(a: i32) -> bool {
    a & 1 == 1
}

/// A wavefunction leaf on the integer lattice: a constant, a value
/// concentrated on a single site, or a parity wave travelling one site per
/// time step.
pub enum LatticeWf {
    /// The same value at every site and time.
    Const(Gf4),
    /// `value` at the single site `at`, the field's zero elsewhere.
    Point {
        /// The site the wavefunction is concentrated on.
        at: i64,
        /// The value it takes there.
        value: Gf4,
    },
    /// One where site plus time is odd, zero elsewhere: a moving parity
    /// pattern, the simplest genuinely time-dependent leaf.
    Parity,
}

impl WFFunc<i64, i64, Gf4> for LatticeWf {
    open spec fn f_s(self, x: i64, t: i64) -> Gf4 {
        match self {
            LatticeWf::Const(v) => v,
            LatticeWf::Point { at, value } => if x == at {
                value
            } else {
                Gf4::zero_s()
            },
            LatticeWf::Parity => if odd_weight_s(x.add_s(t)) {
                Gf4::one_s()
            } else {
                Gf4::zero_s()
            },
        }
    }

    fn f(&self, x: i64, t: i64) -> Gf4 {
        match self {
            LatticeWf::Const(v) => *v,
            LatticeWf::Point { at, value } => if x == *at {
                *value
            } else {
                Gf4::zero()
            },
            LatticeWf::Parity => if x.wrapping_add(t) & 1 == 1 {
                Gf4::one()
            } else {
                Gf4::zero()
            },
        }
    }
}

/// A wavefunction leaf on a finite coordinate set: a constant, a value
/// concentrated on a single index, or a two-component state written as its
/// value at index zero and its value everywhere else.
pub enum FiniteWf {
    /// The same value at every index and time.
    Const(Gf4),
    /// `value` at the single index `at`, the field's zero elsewhere.
    Point {
        /// The index the wavefunction is concentrated on.
        at: i32,
        /// The value it takes there.
        value: Gf4,
    },
    /// `first` at index zero, `rest` at every other index.
    Pair {
        /// The component at index zero.
        first: Gf4,
        /// The component at every other index.
        rest: Gf4,
    },
}

impl WFFunc<i32, i64, Gf4> for FiniteWf {
    open spec fn f_s(self, x: i32, t: i64) -> Gf4 {
        match self {
            FiniteWf::Const(v) => v,
            FiniteWf::Point { at, value } => if x == at {
                value
            } else {
                Gf4::zero_s()
            },
            FiniteWf::Pair { first, rest } => if x == 0 {
                first
            } else {
                rest
            },
        }
    }

    fn f(&self, x: i32, t: i64) -> Gf4 {
        match self {
            FiniteWf::Const(v) => *v,
            FiniteWf::Point { at, value } => if x == *at {
                *value
            } else {
                Gf4::zero()
            },
            FiniteWf::Pair { first, rest } => if x == 0 {
                *first
            } else {
                *rest
            },
        }
    }
}

/// Standard wavefunction signature for 1 spatial dimension and 1 temporal
/// dimension, over the exact scalar field.
#[derive(Clone)]
pub struct WF1Space1Time;

impl WFSignature for WF1Space1Time {
    type Space = i64;

    type Time = i64;

    type Out = Gf4;

    type SubDom = SubDomain1D;

    type Wf = LatticeWf;

    open spec fn mul_to_codomain_s(a: i64, b: Gf4) -> Gf4 {
        if odd_weight_s(a) {
            b
        } else {
            Gf4::zero_s()
        }
    }

    fn mul_to_codomain(a: i64, b: Gf4) -> Gf4 {
        if a & 1 == 1 {
            b
        } else {
            Gf4::zero()
        }
    }

    proof fn law_mtc_add(a: i64, x: Gf4, y: Gf4) {
    }

    proof fn law_mtc_scale(a: i64, c: Gf4, x: Gf4) {
    }

    proof fn law_mtc_conj(a: i64, x: Gf4) {
    }
}

/// Standard wavefunction signature for finite coordinates and 1 temporal
/// dimension, over the exact scalar field.
#[derive(Clone)]
pub struct WFFinite;

impl WFSignature for WFFinite {
    type Space = i32;

    type Time = i64;

    type Out = Gf4;

    type SubDom = FiniteSubDomain;

    type Wf = FiniteWf;

    open spec fn mul_to_codomain_s(a: i32, b: Gf4) -> Gf4 {
        if odd_weight_i32_s(a) {
            b
        } else {
            Gf4::zero_s()
        }
    }

    fn mul_to_codomain(a: i32, b: Gf4) -> Gf4 {
        if a & 1 == 1 {
            b
        } else {
            Gf4::zero()
        }
    }

    proof fn law_mtc_add(a: i32, x: Gf4, y: Gf4) {
    }

    proof fn law_mtc_scale(a: i32, c: Gf4, x: Gf4) {
    }

    proof fn law_mtc_conj(a: i32, x: Gf4) {
    }
}

} // verus!
