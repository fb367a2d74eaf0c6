//! A one-dimensional subdomain: a bounded interval of coordinates together
//! with a step size, sampled as the arithmetic sequence
//! `lower, lower + step, lower + 2·step, …` up to and including `upper`.

use vstd::prelude::*;

use crate::domain::{Domain, SubDomain};

verus! {

/// A subdomain in one dimension over a machine integer coordinate.
///
/// Bounds are inclusive on both sides: a point `x` is a member exactly when
/// `lower <= x <= upper`.
#[derive(Clone, Copy, PartialEq, Eq, Structural, Debug)]
pub struct SubDomain1D {
    /// The lower bound of the subdomain
    pub lower: i64,
    /// The upper bound of the subdomain
    pub upper: i64,
    /// The step size in this subdomain
    pub step_size: i64,
}

/// An iterator over a 1D subdomain: yields `value` while it has not passed
/// `upper`, advancing by `step_size` after each sample.
pub struct SubDomain1DIter<D: Domain> {
    /// The bound at which iteration stops.
    pub upper: D,
    /// The amount by which each sample advances.
    pub step_size: D,
    /// The next sample to yield.
    pub value: D,
}

impl<D: Domain> SubDomain1DIter<D> {
    /// The next sample point, if the current value has not passed the upper
    /// bound; advancing wraps at the machine bounds of the coordinate.
    pub fn next(&mut self) -> (r: Option<D>)
        ensures
            old(self).value.le_s(old(self).upper) ==> {
                &&& r == Some(old(self).value)
                &&& final(self).value == old(self).value.add_s(old(self).step_size)
                &&& final(self).upper == old(self).upper
                &&& final(self).step_size == old(self).step_size
            },
            !old(self).value.le_s(old(self).upper) ==> {
                &&& r is None
                &&& final(self).value == old(self).value
                &&& final(self).upper == old(self).upper
                &&& final(self).step_size == old(self).step_size
            },
    {
        if self.value.le(&self.upper) {
            let res = self.value;
            self.value = self.value.add(self.step_size);
            Some(res)
        } else {
            None
        }
    }
}

impl SubDomain1DIter<i64> {
    /// An iterator over `domain` that advances by `step_size`.
    pub fn new(domain: &SubDomain1D, step_size: i64) -> (r: SubDomain1DIter<i64>)
        ensures
            r.upper == domain.upper,
            r.step_size == step_size,
            r.value == domain.lower,
    {
        SubDomain1DIter { upper: domain.upper, step_size, value: domain.lower }
    }
}

impl SubDomain1D {
    /// How many sample points this subdomain yields.
    pub open spec fn points_count(self) -> int {
        if self.step_size <= 0 || self.lower > self.upper {
            0
        } else {
            (self.upper - self.lower) / (self.step_size as int) + 1
        }
    }

    /// Return an iterator over this subdomain, stepping by its own step size.
    pub fn iter(&self) -> (r: SubDomain1DIter<i64>)
        ensures
            r.upper == self.upper,
            r.step_size == self.step_size,
            r.value == self.lower,
    {
        SubDomain1DIter::new(self, self.step_size)
    }

    /// Consume this subdomain into an iterator over its sample points.
    pub fn into_iter(self) -> (r: SubDomain1DIter<i64>)
        ensures
            r.upper == self.upper,
            r.step_size == self.step_size,
            r.value == self.lower,
    {
        let step_size = self.step_size;
        SubDomain1DIter::new(&self, step_size)
    }
}

impl SubDomain<i64> for SubDomain1D {
    open spec fn contains_s(self, x: i64) -> bool {
        self.lower <= x && x <= self.upper
    }

    open spec fn step_s(self) -> i64 {
        self.step_size
    }

    open spec fn points_s(self) -> Seq<i64> {
        Seq::new(
            self.points_count() as nat,
            |i: int| (self.lower + i * self.step_size) as i64,
        )
    }

    open spec fn iterable_s(self) -> bool {
        self.step_size > 0 && (self.lower > self.upper || self.upper + self.step_size
            <= i64::MAX)
    }

    open spec fn translatable_s(self, offset: i64) -> bool {
        &&& i64::MIN <= self.lower + offset <= i64::MAX
        &&& i64::MIN <= self.upper + offset <= i64::MAX
    }

    open spec fn add_s(self, o: Self) -> Self {
        SubDomain1D {
            lower: if self.lower < o.lower {
                self.lower
            } else {
                o.lower
            },
            upper: if self.upper > o.upper {
                self.upper
            } else {
                o.upper
            },
            step_size: if self.step_size < o.step_size {
                self.step_size
            } else {
                o.step_size
            },
        }
    }

    open spec fn mul_s(self, o: Self) -> Self {
        SubDomain1D {
            lower: if self.lower > o.lower {
                self.lower
            } else {
                o.lower
            },
            upper: if self.upper < o.upper {
                self.upper
            } else {
                o.upper
            },
            step_size: if self.step_size < o.step_size {
                self.step_size
            } else {
                o.step_size
            },
        }
    }

    open spec fn translate_s(self, offset: i64) -> Self {
        SubDomain1D {
            lower: self.lower.add_s(offset),
            upper: self.upper.add_s(offset),
            step_size: self.step_size,
        }
    }

    open spec fn with_step_s(self, step_size: i64) -> Self {
        SubDomain1D { lower: self.lower, upper: self.upper, step_size }
    }

    open spec fn all_s() -> Self {
        SubDomain1D { lower: i64::MIN, upper: i64::MAX, step_size: i64::MAX }
    }

    open spec fn none_s() -> Self {
        SubDomain1D { lower: 0, upper: 0, step_size: i64::MAX }
    }

    fn contains(&self, x: i64) -> bool {
        self.lower <= x && x <= self.upper
    }

    fn all() -> Self {
        SubDomain1D { lower: i64::MIN, upper: i64::MAX, step_size: i64::MAX }
    }

    fn none() -> Self {
        SubDomain1D { lower: 0, upper: 0, step_size: i64::MAX }
    }

    fn step_size(&self) -> i64 {
        self.step_size
    }

    fn points(&self) -> (r: Vec<i64>) {
        let mut out: Vec<i64> = Vec::new();
        let mut v: i64 = self.lower;
        proof {
            vstd::arithmetic::mul::lemma_mul_basics(self.step_size as int);
        }
        while v <= self.upper
            invariant
                self.iterable_s(),
                out.len() <= self.points_count(),
                v as int == self.lower + out.len() * self.step_size,
                self.lower <= v as int,
                out@ == self.points_s().take(out.len() as int),
            decreases self.upper + self.step_size - v,
        {
            let ghost k = out.len() as int;
            proof {
                lemma_take_count_bound(*self, k, v as int);
            }
            out.push(v);
            proof {
                assert(out@ =~= self.points_s().take(k + 1));
                assert((k + 1) * self.step_size == k * self.step_size + self.step_size)
                    by (nonlinear_arith);
            }
            v = v + self.step_size;
        }
        proof {
            lemma_exit_count(*self, out.len() as int, v as int);
            assert(out@ =~= self.points_s());
        }
        out
    }

    fn translate(self, offset: i64) -> Self {
        SubDomain1D {
            lower: self.lower.wrapping_add(offset),
            upper: self.upper.wrapping_add(offset),
            step_size: self.step_size,
        }
    }

    fn with_step_size(self, step_size: i64) -> Self {
        SubDomain1D { lower: self.lower, upper: self.upper, step_size }
    }

    fn add(self, o: Self) -> Self {
        SubDomain1D {
            lower: if self.lower < o.lower {
                self.lower
            } else {
                o.lower
            },
            upper: if self.upper > o.upper {
                self.upper
            } else {
                o.upper
            },
            step_size: if self.step_size < o.step_size {
                self.step_size
            } else {
                o.step_size
            },
        }
    }

    fn mul(self, o: Self) -> Self {
        SubDomain1D {
            lower: if self.lower > o.lower {
                self.lower
            } else {
                o.lower
            },
            upper: if self.upper < o.upper {
                self.upper
            } else {
                o.upper
            },
            step_size: if self.step_size < o.step_size {
                self.step_size
            } else {
                o.step_size
            },
        }
    }

    proof fn law_points_contained(s: Self) {
        assert forall|i: int| 0 <= i < s.points_s().len() implies s.contains_s(
            #[trigger] s.points_s()[i],
        ) by {
            lemma_point_in_bounds(s, i);
        }
    }

    proof fn law_mul_contains(a: Self, b: Self, x: i64) {
    }

    proof fn law_add_contains(a: Self, b: Self, x: i64) {
    }

    proof fn law_combine_idempotent(a: Self) {
    }

    proof fn law_translate_contains(a: Self, offset: i64, x: i64) {
    }

    proof fn law_translate_step(a: Self, offset: i64) {
    }
}

/// Inside the sampling loop the next sample is still within the count.
proof fn lemma_take_count_bound(s: SubDomain1D, k: int, v: int)
    requires
        s.step_size > 0,
        s.lower <= v <= s.upper,
        v == s.lower + k * s.step_size,
        0 <= k,
    ensures
        k < s.points_count(),
        s.points_s()[k] == v,
{
    let st = s.step_size as int;
    let u = s.upper - s.lower;
    assert(k * st <= u);
    vstd::arithmetic::div_mod::lemma_div_is_ordered(k * st, u, st);
    vstd::arithmetic::div_mod::lemma_div_by_multiple(k, st);
    vstd::arithmetic::mul::lemma_mul_is_commutative(k, st);
    assert(k <= u / st);
}

/// After the sampling loop has passed the upper bound, the count is reached.
proof fn lemma_exit_count(s: SubDomain1D, k: int, v: int)
    requires
        s.iterable_s(),
        0 <= k <= s.points_count(),
        v == s.lower + k * s.step_size,
        v > s.upper,
    ensures
        k == s.points_count(),
{
    if s.lower > s.upper {
        assert(k == 0);
    } else {
        let st = s.step_size as int;
        let u = s.upper - s.lower;
        let q = u / st;
        vstd::arithmetic::div_mod::lemma_fundamental_div_mod(u, st);
        vstd::arithmetic::div_mod::lemma_remainder_lower(u, st);
        assert(q * st <= u);
        assert(k * st > u);
        if k <= q {
            vstd::arithmetic::mul::lemma_mul_inequality(k, q, st);
            assert(k * st <= q * st);
        }
        assert(k > q);
    }
}

/// Every sample point of a 1D subdomain lies between its bounds.
proof fn lemma_point_in_bounds(s: SubDomain1D, i: int)
    requires
        0 <= i < s.points_s().len(),
    ensures
        s.lower <= s.points_s()[i] <= s.upper,
{
    let st = s.step_size as int;
    let u = s.upper - s.lower;
    assert(s.points_count() > 0);
    assert(st > 0 && s.lower <= s.upper);
    vstd::arithmetic::mul::lemma_mul_nonnegative(i, st);
    assert(i <= u / st);
    vstd::arithmetic::div_mod::lemma_fundamental_div_mod(u, st);
    vstd::arithmetic::div_mod::lemma_remainder_lower(u, st);
    assert((u / st) * st <= u);
    vstd::arithmetic::mul::lemma_mul_inequality(i, u / st, st);
    assert(i * st <= u);
    assert(s.points_s()[i] == (s.lower + i * st) as i64);
}

/// The union and intersection of 1D subdomains behave as interval bounds:
/// the union covers every member of either operand, the intersection holds
/// exactly the common members, and both keep the finer of the two step
/// sizes.
pub proof fn lemma_subdomain1d_combine(a: SubDomain1D, b: SubDomain1D, x: i64)
    ensures
        a.contains_s(x) || b.contains_s(x) ==> a.add_s(b).contains_s(x),
        a.mul_s(b).contains_s(x) <==> a.contains_s(x) && b.contains_s(x),
        a.add_s(b).step_s() == if a.step_s() <= b.step_s() {
            a.step_s()
        } else {
            b.step_s()
        },
        a.mul_s(b).step_s() == if a.step_s() <= b.step_s() {
            a.step_s()
        } else {
            b.step_s()
        },
{
}

} // verus!
