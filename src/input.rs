//! Pseudo-random test inputs: byte-valued image pixels and small signed
//! kernel weights, mapped into the field.

use vstd::prelude::*;
use rand::Rng;
use crate::field::{Fe, fneg};
use crate::dot::all_wf;

verus! {

/// The field element that stands for the integer `w`: `w` itself when it is
/// not negative, else the negation of `-w`.
pub open spec fn field_of_int(w: int) -> nat {
    if w >= 0 {
        w as nat
    } else {
        fneg((-w) as nat)
    }
}

/// `x` stands for an integer weight in `-5 ..= 5`.
pub open spec fn is_small_weight(x: nat) -> bool {
    exists|w: int| -5 <= w <= 5 && x == #[trigger] field_of_int(w)
}

/// An image vector and a kernel vector of field elements.
#[derive(Clone, Debug)]
pub struct RandomInputGenerator {
    pub one_dimage: Vec<Fe>,
    pub one_dkernel: Vec<Fe>,
}

/// Relies on rand's `thread_rng` and `Rng::gen_range`: a value drawn from
/// `0 .. n`, which panics on an empty range.
#[verifier::external_body]
fn draw_below(n: u64) -> (r: u64)
    requires
        n > 0,
    ensures
        r < n,
{
    rand::thread_rng().gen_range(0..n)
}

/// The kernel weight of half-unit slot `slot` of `[-5, 5]`: the slot's points
/// rounded to the nearest integer. The two end slots are half as likely to
/// round to `-5` and `5` as the others are to their integers.
pub fn weight_of_slot(slot: u64) -> (w: i64)
    requires
        slot < 20,
    ensures
        w == (slot as int + 1) / 2 - 5,
        -5 <= w <= 5,
{
    ((slot + 1) / 2) as i64 - 5
}

impl RandomInputGenerator {
    /// The inputs with image element `i` standing for `pixels[i]` and kernel
    /// element `j` standing for `weights[j]`.
    pub fn from_samples(pixels: &Vec<u64>, weights: &Vec<i64>) -> (g: RandomInputGenerator)
        ensures
            g.one_dimage.len() == pixels.len(),
            g.one_dkernel.len() == weights.len(),
            all_wf(g.one_dimage@),
            all_wf(g.one_dkernel@),
            forall|i: int| 0 <= i < pixels.len() ==> (#[trigger] g.one_dimage@[i])@ == pixels@[i] as nat,
            forall|j: int| 0 <= j < weights.len() ==> (#[trigger] g.one_dkernel@[j])@ == field_of_int(weights@[j] as int),
    {
        let mut imagevec: Vec<Fe> = Vec::new();
        let mut i: usize = 0;
        while i < pixels.len()
            invariant
                i <= pixels.len(),
                imagevec.len() == i,
                all_wf(imagevec@),
                forall|t: int| 0 <= t < i ==> (#[trigger] imagevec@[t])@ == pixels@[t] as nat,
            decreases pixels.len() - i,
        {
            imagevec.push(Fe::from_u64(pixels[i]));
            i = i + 1;
        }
        let mut kernels: Vec<Fe> = Vec::new();
        let mut j: usize = 0;
        while j < weights.len()
            invariant
                j <= weights.len(),
                kernels.len() == j,
                all_wf(kernels@),
                forall|t: int| 0 <= t < j ==> (#[trigger] kernels@[t])@ == field_of_int(weights@[t] as int),
            decreases weights.len() - j,
        {
            kernels.push(Fe::from_i64(weights[j]));
            j = j + 1;
        }
        RandomInputGenerator { one_dimage: imagevec, one_dkernel: kernels }
    }

    /// `imlen` pixels drawn uniformly from `0 ..= 255` and `kerlen` weights
    /// drawn uniformly from `[-5, 5]` and rounded to the nearest integer.
    pub fn new(imlen: usize, kerlen: usize) -> (g: RandomInputGenerator)
        ensures
            g.one_dimage.len() == imlen,
            g.one_dkernel.len() == kerlen,
            all_wf(g.one_dimage@),
            all_wf(g.one_dkernel@),
            forall|i: int| 0 <= i < imlen ==> (#[trigger] g.one_dimage@[i])@ < 256,
            forall|j: int| 0 <= j < kerlen ==> is_small_weight((#[trigger] g.one_dkernel@[j])@),
    {
        let mut pixels: Vec<u64> = Vec::new();
        let mut i: usize = 0;
        while i < imlen
            invariant
                i <= imlen,
                pixels.len() == i,
                forall|t: int| 0 <= t < i ==> #[trigger] pixels@[t] < 256,
            decreases imlen - i,
        {
            pixels.push(draw_below(256));
            i = i + 1;
        }
        let mut weights: Vec<i64> = Vec::new();
        let mut j: usize = 0;
        while j < kerlen
            invariant
                j <= kerlen,
                weights.len() == j,
                forall|t: int| 0 <= t < j ==> -5 <= #[trigger] weights@[t] <= 5,
            decreases kerlen - j,
        {
            weights.push(weight_of_slot(draw_below(20)));
            j = j + 1;
        }
        let g = RandomInputGenerator::from_samples(&pixels, &weights);
        assert forall|t: int| 0 <= t < kerlen implies is_small_weight((#[trigger] g.one_dkernel@[t])@) by {
            assert(g.one_dkernel@[t]@ == field_of_int(weights@[t] as int));
        }
        g
    }
}

} // verus!
