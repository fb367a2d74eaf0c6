//! Implementation of finite subdomains.
//! E.g., a two-state system has subdomain {A, B}, represented here by the
//! range `0..=1` of coordinate indices.

use vstd::prelude::*;

use crate::domain::{Domain, SubDomain};
use crate::domain_sect_1d::SubDomain1DIter;

verus! {

/// A subdomain with finitely many coordinates, sampled index by index.
#[derive(Clone, Copy, PartialEq, Eq, Structural, Debug)]
pub struct FiniteSubDomain {
    /// The smallest domain index in the subdomain
    pub min_idx: i32,
    /// The biggest domain index in the subdomain
    pub max_idx: i32,
}

impl FiniteSubDomain {
    /// How many indices this subdomain yields.
    pub open spec fn points_count(self) -> int {
        if self.min_idx > self.max_idx {
            0
        } else {
            self.max_idx - self.min_idx + 1
        }
    }

    /// Return an iterator over this subdomain, one index at a time.
    pub fn iter(&self) -> (r: SubDomain1DIter<i32>)
        ensures
            r.upper == self.max_idx,
            r.step_size == 1i32,
            r.value == self.min_idx,
    {
        SubDomain1DIter::<i32> { upper: self.max_idx, step_size: 1, value: self.min_idx }
    }

    /// Consume this subdomain into an iterator over its indices.
    pub fn into_iter(self) -> (r: SubDomain1DIter<i32>)
        ensures
            r.upper == self.max_idx,
            r.step_size == 1i32,
            r.value == self.min_idx,
    {
        SubDomain1DIter::<i32> { upper: self.max_idx, step_size: 1, value: self.min_idx }
    }
}

impl SubDomain<i32> for FiniteSubDomain {
    open spec fn contains_s(self, x: i32) -> bool {
        self.min_idx <= x && x <= self.max_idx
    }

    open spec fn step_s(self) -> i32 {
        1
    }

    open spec fn points_s(self) -> Seq<i32> {
        Seq::new(self.points_count() as nat, |i: int| (self.min_idx + i) as i32)
    }

    open spec fn iterable_s(self) -> bool {
        self.min_idx > self.max_idx || self.max_idx < i32::MAX
    }

    open spec fn translatable_s(self, offset: i32) -> bool {
        &&& i32::MIN <= self.min_idx + offset <= i32::MAX
        &&& i32::MIN <= self.max_idx + offset <= i32::MAX
    }

    open spec fn add_s(self, o: Self) -> Self {
        FiniteSubDomain {
            min_idx: if self.min_idx < o.min_idx {
                self.min_idx
            } else {
                o.min_idx
            },
            max_idx: if self.max_idx > o.max_idx {
                self.max_idx
            } else {
                o.max_idx
            },
        }
    }

    open spec fn mul_s(self, o: Self) -> Self {
        FiniteSubDomain {
            min_idx: if self.min_idx > o.min_idx {
                self.min_idx
            } else {
                o.min_idx
            },
            max_idx: if self.max_idx < o.max_idx {
                self.max_idx
            } else {
                o.max_idx
            },
        }
    }

    open spec fn translate_s(self, offset: i32) -> Self {
        FiniteSubDomain {
            min_idx: self.min_idx.add_s(offset),
            max_idx: self.max_idx.add_s(offset),
        }
    }

    open spec fn with_step_s(self, step_size: i32) -> Self {
        self
    }

    open spec fn all_s() -> Self {
        FiniteSubDomain { min_idx: i32::MIN, max_idx: i32::MAX }
    }

    open spec fn none_s() -> Self {
        FiniteSubDomain { min_idx: 0, max_idx: 0 }
    }

    fn contains(&self, x: i32) -> bool {
        self.min_idx <= x && x <= self.max_idx
    }

    fn all() -> Self {
        FiniteSubDomain { min_idx: i32::MIN, max_idx: i32::MAX }
    }

    fn none() -> Self {
        FiniteSubDomain { min_idx: 0, max_idx: 0 }
    }

    fn step_size(&self) -> i32 {
        1
    }

    fn points(&self) -> (r: Vec<i32>) {
        let mut out: Vec<i32> = Vec::new();
        let mut v: i32 = self.min_idx;
        while v <= self.max_idx
            invariant
                self.iterable_s(),
                out.len() <= self.points_count(),
                v as int == self.min_idx + out.len(),
                self.min_idx <= v as int,
                out@ == self.points_s().take(out.len() as int),
            decreases self.max_idx + 1 - v,
        {
            let ghost k = out.len() as int;
            out.push(v);
            proof {
                assert(out@ =~= self.points_s().take(k + 1));
            }
            v = v + 1;
        }
        proof {
            assert(out@ =~= self.points_s());
        }
        out
    }

    fn translate(self, offset: i32) -> Self {
        FiniteSubDomain {
            min_idx: self.min_idx.wrapping_add(offset),
            max_idx: self.max_idx.wrapping_add(offset),
        }
    }

    fn with_step_size(self, step_size: i32) -> Self {
        FiniteSubDomain { min_idx: self.min_idx, max_idx: self.max_idx }
    }

    fn add(self, o: Self) -> Self {
        FiniteSubDomain {
            min_idx: if self.min_idx < o.min_idx {
                self.min_idx
            } else {
                o.min_idx
            },
            max_idx: if self.max_idx > o.max_idx {
                self.max_idx
            } else {
                o.max_idx
            },
        }
    }

    fn mul(self, o: Self) -> Self {
        FiniteSubDomain {
            min_idx: if self.min_idx > o.min_idx {
                self.min_idx
            } else {
                o.min_idx
            },
            max_idx: if self.max_idx < o.max_idx {
                self.max_idx
            } else {
                o.max_idx
            },
        }
    }

    proof fn law_points_contained(s: Self) {
    }

    proof fn law_mul_contains(a: Self, b: Self, x: i32) {
    }

    proof fn law_add_contains(a: Self, b: Self, x: i32) {
    }

    proof fn law_combine_idempotent(a: Self) {
    }

    proof fn law_translate_contains(a: Self, offset: i32, x: i32) {
    }

    proof fn law_translate_step(a: Self, offset: i32) {
    }
}

} // verus!
