//! Precomputed orbit polylines.
//!
//! For one element set the sampler divides one full orbital period into
//! `count` equal time steps; each step is handed to the analytical
//! propagator and the successful positions, in order, form a closed
//! polyline approximation of the orbit. A step whose propagation fails is
//! simply omitted: the polyline may have fewer than `count` points, but
//! the call never fails as a whole. Both halves here are deterministic
//! and side-effect free, so a caller may cache the result for as long as
//! the element set lives.

use vstd::prelude::*;

use crate::elements::OrbitalElements;
use crate::vec3::Vec3;

verus! {

/// The `k`-th sample time: `k / count`-ths of one orbital period, in
/// milliseconds since the element set's baseline.
pub open spec fn sample_time_ms_spec(e: OrbitalElements, count: int, k: int) -> int {
    k * e.period_ms_spec() / count
}

/// The successful positions of a sequence of propagation outcomes, in
/// order, failures omitted.
pub open spec fn kept_positions(s: Seq<Option<Vec3>>) -> Seq<Vec3>
    decreases s.len(),
{
    if s.len() == 0 {
        Seq::empty()
    } else {
        kept_positions(s.drop_last()) + match s.last() {
            Option::Some(p) => seq![p],
            Option::None => Seq::empty(),
        }
    }
}

/// Computes the sample times of one full orbital period divided into
/// `count` equal steps. With a count of zero the polyline is empty, as a
/// division of the period into no steps samples nothing.
#[verifier::loop_isolation(false)]
pub fn sample_times(elements: &OrbitalElements, count: usize) -> (r: Vec<u64>)
    requires
        elements.wf(),
    ensures
        r@.len() == count,
        forall|k: int| 0 <= k < count ==> r@[k] == sample_time_ms_spec(*elements, count as int, k),
{
    let period: u64 = elements.period_ms();
    let mut r: Vec<u64> = Vec::new();
    let mut i: usize = 0;
    while i < count
        invariant
            i <= count,
            r@.len() == i,
            forall|k: int| 0 <= k < i ==> r@[k] == sample_time_ms_spec(*elements, count as int, k),
        decreases count - i,
    {
        proof {
            assert((i as int) * (period as int) <= u128::MAX) by (nonlinear_arith)
                requires
                    0 <= i as int <= 0xffff_ffff_ffff_ffffu64,
                    0 <= period <= 0xffff_ffff_ffff_ffffu64,
            ;
        }
        let wide: u128 = (i as u128) * (period as u128) / (count as u128);
        proof {
            let ii = i as int;
            let p = period as int;
            let c = count as int;
            vstd::arithmetic::mul::lemma_mul_inequality(ii, c, p);
            vstd::arithmetic::div_mod::lemma_div_is_ordered(ii * p, c * p, c);
            vstd::arithmetic::div_mod::lemma_div_multiples_vanish(p, c);
            assert(c * p == p * c) by (nonlinear_arith);
            vstd::arithmetic::div_mod::lemma_div_pos_is_pos(ii * p, c);
            vstd::arithmetic::mul::lemma_mul_nonnegative(ii, p);
        }
        r.push(wide as u64);
        i = i + 1;
    }
    r
}

/// Assembles the polyline from the propagation outcomes of the sample
/// times: the successful positions in order, failures omitted.
#[verifier::loop_isolation(false)]
pub fn assemble_samples(outcomes: &Vec<Option<Vec3>>) -> (r: Vec<Vec3>)
    ensures
        r@ == kept_positions(outcomes@),
{
    let n = outcomes.len();
    let mut r: Vec<Vec3> = Vec::new();
    let mut i: usize = 0;
    while i < n
        invariant
            i <= n,
            r@ == kept_positions(outcomes@.subrange(0, i as int)),
        decreases n - i,
    {
        proof {
            lemma_kept_one_more(outcomes@, i as int);
        }
        match outcomes[i] {
            Option::Some(p) => {
                r.push(p);
            },
            Option::None => {},
        }
        i = i + 1;
    }
    proof {
        assert(outcomes@.subrange(0, n as int) =~= outcomes@);
    }
    r
}

/// Sampling is deterministic: any two sample-time sequences that satisfy
/// the sampler's contract for the same element set and count are equal,
/// so repeated calls yield identical output.
pub proof fn lemma_sampler_deterministic(
    e: OrbitalElements,
    count: usize,
    r1: Seq<u64>,
    r2: Seq<u64>,
)
    requires
        r1.len() == count,
        r2.len() == count,
        forall|k: int| 0 <= k < count ==> r1[k] == sample_time_ms_spec(e, count as int, k),
        forall|k: int| 0 <= k < count ==> r2[k] == sample_time_ms_spec(e, count as int, k),
    ensures
        r1 == r2,
{
    assert(r1 =~= r2);
}

/// Extending a prefix of outcomes by one extends its kept positions by
/// that outcome's position exactly when the outcome succeeded.
proof fn lemma_kept_one_more(s: Seq<Option<Vec3>>, i: int)
    requires
        0 <= i < s.len(),
    ensures
        kept_positions(s.subrange(0, i + 1)) == match s[i] {
            Option::Some(p) => kept_positions(s.subrange(0, i)).push(p),
            Option::None => kept_positions(s.subrange(0, i)),
        },
{
    let t = s.subrange(0, i + 1);
    assert(t.drop_last() =~= s.subrange(0, i));
    assert(t.last() == s[i]);
    match s[i] {
        Option::Some(p) => {
            assert(kept_positions(t) =~= kept_positions(s.subrange(0, i)).push(p));
        },
        Option::None => {
            assert(kept_positions(t) =~= kept_positions(s.subrange(0, i)));
        },
    }
}

} // verus!
