//! A wavefunction algebra with verified contracts: kets and bras over an
//! abstract field and domain, a lazily evaluated operation tree, numerical
//! inner products by quadrature over steppable subdomains, and eigenbasis
//! decomposition for confined potentials and discrete systems.

pub mod braket;
pub mod braket_laws;
pub mod discrete_system;
pub mod domain;
pub mod domain_sect_1d;
pub mod fields;
pub mod finite_domains;
pub mod operations;
pub mod potential;
pub mod signature;
pub mod signatures;
pub mod vectorspace;
pub mod wavefunction;
pub mod wf_bra;
pub mod wf_ket;

use vstd::prelude::*;

verus! {

/// The factorial of `n`.
pub open spec fn factorial_s(n: nat) -> nat
    decreases n,
{
    if n == 0 {
        1
    } else {
        n * factorial_s((n - 1) as nat)
    }
}

/// The factorial of `n`, as used by normalisation coefficients of eigenstate
/// families.
pub fn factorial(n: usize) -> (r: usize)
    requires
        factorial_s(n as nat) <= usize::MAX,
    ensures
        r == factorial_s(n as nat),
    decreases n,
{
    match n {
        0 => 1,
        n => {
            proof {
                lemma_factorial_monotonic_step(n as nat);
            }
            n * factorial(n - 1)
        },
    }
}

/// One step of factorial growth: the factorial of `n` is at least the
/// factorial of `n - 1`, and at least `n` times anything at most it.
proof fn lemma_factorial_monotonic_step(n: nat)
    requires
        n >= 1,
    ensures
        factorial_s((n - 1) as nat) <= factorial_s(n),
        n * factorial_s((n - 1) as nat) == factorial_s(n),
    decreases n,
{
    if n > 1 {
        lemma_factorial_monotonic_step((n - 1) as nat);
    }
    assert(factorial_s((n - 1) as nat) >= 1) by {
        lemma_factorial_positive((n - 1) as nat);
    };
    vstd::arithmetic::mul::lemma_mul_ordering(n as int, factorial_s((n - 1) as nat) as int);
}

/// The factorial of any number is positive.
proof fn lemma_factorial_positive(n: nat)
    ensures
        factorial_s(n) >= 1,
    decreases n,
{
    if n > 0 {
        lemma_factorial_positive((n - 1) as nat);
        vstd::arithmetic::mul::lemma_mul_ordering(n as int, factorial_s((n - 1) as nat) as int);
    }
}

} // verus!
