//! Elements of the BN254 scalar field, held as canonical little-endian bytes.
//! The arithmetic itself is done by halo2curves' `Fr`.

use vstd::prelude::*;
use halo2curves::bn256::Fr;

verus! {

/// The order of the BN254 scalar field.
pub open spec fn modulus() -> nat {
    21888242871839275222246405745257275088548364400416034343698204186575808495617nat
}

/// The integer that a little-endian byte string stands for.
pub open spec fn le_value(s: Seq<u8>) -> nat
    decreases s.len(),
{
    if s.len() == 0 {
        0
    } else {
        s[0] as nat + 256 * le_value(s.drop_first())
    }
}

/// Field addition on canonical representatives.
pub open spec fn fadd(a: nat, b: nat) -> nat {
    (a + b) % modulus()
}

/// Field multiplication on canonical representatives.
pub open spec fn fmul(a: nat, b: nat) -> nat {
    (a * b) % modulus()
}

/// Field subtraction on canonical representatives.
pub open spec fn fsub(a: nat, b: nat) -> nat {
    ((a as int - b as int) % (modulus() as int)) as nat
}

/// Field negation on canonical representatives.
pub open spec fn fneg(a: nat) -> nat {
    fsub(0, a)
}

/// A field element: the canonical integer below the modulus, as 32 bytes.
#[derive(Clone, Copy, Debug)]
pub struct Fe {
    pub bytes: [u8; 32],
}

impl View for Fe {
    type V = nat;

    open spec fn view(&self) -> nat {
        le_value(self.bytes@)
    }
}

impl Fe {
    /// The bytes hold a canonical representative.
    pub open spec fn wf(&self) -> bool {
        self@ < modulus()
    }

    /// The additive identity.
    pub fn zero() -> (r: Fe)
        ensures
            r.wf(),
            r@ == 0,
    {
        let r = Fe { bytes: [0u8; 32] };
        assert(r@ == 0) by {
            lemma_le_value_zeros(r.bytes@);
        }
        r
    }

    /// The field element congruent to `x`.
    pub fn from_u64(x: u64) -> (r: Fe)
        ensures
            r.wf(),
            r@ == x as nat,
    {
        fr_from_u64(x)
    }

    /// The field element congruent to `x`, negative values included.
    pub fn from_i64(x: i64) -> (r: Fe)
        ensures
            r.wf(),
            x >= 0 ==> r@ == x as nat,
            x < 0 ==> r@ == fneg((-x) as nat),
    {
        if x >= 0 {
            fr_from_u64(x as u64)
        } else {
            let magnitude: u64 = (0i128 - x as i128) as u64;
            let m = fr_from_u64(magnitude);
            fr_neg(&m)
        }
    }

    /// Sum in the field.
    pub fn add(&self, other: &Fe) -> (r: Fe)
        requires
            self.wf(),
            other.wf(),
        ensures
            r.wf(),
            r@ == fadd(self@, other@),
    {
        fr_add(self, other)
    }

    /// Product in the field.
    pub fn mul(&self, other: &Fe) -> (r: Fe)
        requires
            self.wf(),
            other.wf(),
        ensures
            r.wf(),
            r@ == fmul(self@, other@),
    {
        fr_mul(self, other)
    }
}

proof fn lemma_le_value_zeros(s: Seq<u8>)
    requires
        forall|i: int| 0 <= i < s.len() ==> s[i] == 0,
    ensures
        le_value(s) == 0,
    decreases s.len(),
{
    if s.len() > 0 {
        lemma_le_value_zeros(s.drop_first());
    }
}

/// Relies on `From<u64> for Fr` and `Fr::to_bytes`: the element congruent to
/// `x`, written back as its canonical little-endian bytes.
#[verifier::external_body]
fn fr_from_u64(x: u64) -> (r: Fe)
    ensures
        r.wf(),
        r@ == x as nat,
{
    Fe { bytes: Fr::from(x).to_bytes() }
}

/// Relies on `Fr::from_bytes` (canonical input), `Neg for Fr` and
/// `Fr::to_bytes`: the additive inverse modulo the field's order.
#[verifier::external_body]
fn fr_neg(a: &Fe) -> (r: Fe)
    requires
        a.wf(),
    ensures
        r.wf(),
        r@ == fneg(a@),
{
    let x = Fr::from_bytes(&a.bytes).unwrap();
    Fe { bytes: (-x).to_bytes() }
}

/// Relies on `Fr::from_bytes` (canonical input), `Add for Fr` and
/// `Fr::to_bytes`: the sum modulo the field's order.
#[verifier::external_body]
fn fr_add(a: &Fe, b: &Fe) -> (r: Fe)
    requires
        a.wf(),
        b.wf(),
    ensures
        r.wf(),
        r@ == fadd(a@, b@),
{
    let x = Fr::from_bytes(&a.bytes).unwrap();
    let y = Fr::from_bytes(&b.bytes).unwrap();
    Fe { bytes: (x + y).to_bytes() }
}

/// Relies on `Fr::from_bytes` (canonical input), `Mul for Fr` and
/// `Fr::to_bytes`: the product modulo the field's order.
#[verifier::external_body]
fn fr_mul(a: &Fe, b: &Fe) -> (r: Fe)
    requires
        a.wf(),
        b.wf(),
    ensures
        r.wf(),
        r@ == fmul(a@, b@),
{
    let x = Fr::from_bytes(&a.bytes).unwrap();
    let y = Fr::from_bytes(&b.bytes).unwrap();
    Fe { bytes: (x * y).to_bytes() }
}

} // verus!
