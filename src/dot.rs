//! Sliding dot products in the field, as spec functions and as loops.

use vstd::prelude::*;
use crate::field::{Fe, fadd, fmul};

verus! {

/// The field values of a sequence of elements.
pub open spec fn values(s: Seq<Fe>) -> Seq<nat> {
    s.map_values(|x: Fe| x@)
}

/// Every element is canonical.
pub open spec fn all_wf(s: Seq<Fe>) -> bool {
    forall|i: int| 0 <= i < s.len() ==> (#[trigger] s[i]).wf()
}

/// `img[off]·ker[0] + ... + img[off + n - 1]·ker[n - 1]`, computed in the field
/// from left to right.
pub open spec fn dot_from(img: Seq<nat>, ker: Seq<nat>, off: int, n: nat) -> nat
    decreases n,
{
    if n == 0 {
        0
    } else {
        fadd(dot_from(img, ker, off, (n - 1) as nat), fmul(img[off + n - 1], ker[n - 1]))
    }
}

/// The running sums `dot_from(image, kernel, off, t)` for `t = 0 ..= n`.
pub fn running_dot(image: &Vec<Fe>, kernel: &Vec<Fe>, off: usize, n: usize) -> (r: Vec<Fe>)
    requires
        off + n <= image.len(),
        n <= kernel.len(),
        all_wf(image@),
        all_wf(kernel@),
    ensures
        r.len() == n + 1,
        all_wf(r@),
        forall|t: int| 0 <= t <= n ==> (#[trigger] r@[t])@ == dot_from(values(image@), values(kernel@), off as int, t as nat),
{
    let mut acc = Fe::zero();
    let mut r: Vec<Fe> = Vec::new();
    r.push(acc);
    let mut t: usize = 0;
    while t < n
        invariant
            t <= n,
            off + n <= image.len(),
            n <= kernel.len(),
            all_wf(image@),
            all_wf(kernel@),
            r.len() == t + 1,
            all_wf(r@),
            acc == r@[t as int],
            forall|i: int| 0 <= i <= t ==> (#[trigger] r@[i])@ == dot_from(values(image@), values(kernel@), off as int, i as nat),
        decreases n - t,
    {
        let p = image[off + t].mul(&kernel[t]);
        acc = acc.add(&p);
        r.push(acc);
        t = t + 1;
    }
    r
}

/// `dot_from(image, kernel, off, n)`.
pub fn dot_at(image: &Vec<Fe>, kernel: &Vec<Fe>, off: usize, n: usize) -> (r: Fe)
    requires
        off + n <= image.len(),
        n <= kernel.len(),
        all_wf(image@),
        all_wf(kernel@),
    ensures
        r.wf(),
        r@ == dot_from(values(image@), values(kernel@), off as int, n as nat),
{
    let mut acc = Fe::zero();
    let mut t: usize = 0;
    while t < n
        invariant
            t <= n,
            off + n <= image.len(),
            n <= kernel.len(),
            all_wf(image@),
            all_wf(kernel@),
            acc.wf(),
            acc@ == dot_from(values(image@), values(kernel@), off as int, t as nat),
        decreases n - t,
    {
        let p = image[off + t].mul(&kernel[t]);
        acc = acc.add(&p);
        t = t + 1;
    }
    acc
}

} // verus!

verus! {

/// `img[off]·ker[0] + ... + img[off + n - 1]·ker[n - 1]` over the integers.
pub open spec fn int_dot(img: Seq<nat>, ker: Seq<nat>, off: int, n: nat) -> int
    decreases n,
{
    if n == 0 {
        0
    } else {
        int_dot(img, ker, off, (n - 1) as nat) + img[off + n - 1] * ker[n - 1]
    }
}

/// The field dot product is the integer dot product reduced modulo the
/// field's order.
pub proof fn lemma_dot_from_is_reduced_sum(img: Seq<nat>, ker: Seq<nat>, off: int, n: nat)
    ensures
        dot_from(img, ker, off, n) == int_dot(img, ker, off, n) % (crate::field::modulus() as int),
    decreases n,
{
    let p = crate::field::modulus() as int;
    if n > 0 {
        lemma_dot_from_is_reduced_sum(img, ker, off, (n - 1) as nat);
        let prev = int_dot(img, ker, off, (n - 1) as nat);
        let prod = img[off + n - 1] * ker[n - 1];
        vstd::arithmetic::div_mod::lemma_add_mod_noop(prev, prod as int, p);
        vstd::arithmetic::div_mod::lemma_mod_twice(prod as int, p);
        vstd::arithmetic::div_mod::lemma_mod_twice(prev, p);
        vstd::arithmetic::div_mod::lemma_add_mod_noop(prev % p, prod as int, p);
    }
}

} // verus!
