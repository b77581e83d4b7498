//! The constraint schema: advice columns, selectors and gates, and what it
//! means for a region to satisfy a gate.

use vstd::prelude::*;
use crate::field::{fadd, fmul, fsub};
use crate::region::Region;

verus! {

/// Why a circuit shape was refused at configuration time.
#[derive(Clone, Copy, Debug, PartialEq, Eq, Structural)]
pub enum ConfigurationError {
    /// The image has no element.
    EmptyImage,
    /// The kernel is longer than the image.
    KernelLongerThanImage,
}

/// A gate, controlled by one selector.
#[derive(Clone, Copy, Debug, PartialEq, Eq, Structural)]
pub enum Gate {
    /// One constraint, on the current and the previous row:
    /// `accumulator(-1) + image(0)·kernel(0) - accumulator(0) = 0`.
    Recurrence { selector: usize, image: usize, kernel: usize, accumulator: usize },
    /// One constraint per output position `i < image_len - kernel_len + 1`:
    /// `image(i)·kernel(0) + ... + image(i + kernel_len - 1)·kernel(kernel_len - 1) - conv(i) = 0`,
    /// with rotations taken from the enabled row.
    Window {
        selector: usize,
        image: usize,
        kernel: usize,
        conv: usize,
        image_len: usize,
        kernel_len: usize,
    },
}

/// The known value at a cell, zero where none is known.
pub open spec fn val(reg: &Region, c: int, r: int) -> nat {
    match reg.known(c, r) {
        Some(x) => x,
        None => 0,
    }
}

/// The image cells `img_row .. img_row + n` and kernel cells
/// `ker_row .. ker_row + n` all hold known values.
pub open spec fn window_known(reg: &Region, image: int, kernel: int, img_row: int, ker_row: int, n: nat) -> bool {
    forall|j: int| 0 <= j < n ==> (#[trigger] reg.known(image, img_row + j)) is Some
        && reg.known(kernel, ker_row + j) is Some
}

/// `image(img_row)·kernel(ker_row) + ... ` over `n` pairs of cells, in the field.
pub open spec fn window_dot(reg: &Region, image: int, kernel: int, img_row: int, ker_row: int, n: nat) -> nat
    decreases n,
{
    if n == 0 {
        0
    } else {
        fadd(
            window_dot(reg, image, kernel, img_row, ker_row, (n - 1) as nat),
            fmul(val(reg, image, img_row + n - 1), val(reg, kernel, ker_row + n - 1)),
        )
    }
}

impl Gate {
    pub open spec fn selector(&self) -> usize {
        match self {
            Gate::Recurrence { selector, .. } => *selector,
            Gate::Window { selector, .. } => *selector,
        }
    }

    /// How many polynomial constraints this gate holds.
    pub open spec fn num_constraints(&self) -> nat {
        match self {
            Gate::Recurrence { .. } => 1,
            Gate::Window { image_len, kernel_len, .. } => (*image_len - *kernel_len + 1) as nat,
        }
    }

    /// The degree of each constraint, selector aside: one product of two
    /// queried cells.
    pub open spec fn degree(&self) -> nat {
        2
    }

    /// Every constraint holds at row `r`, or the selector is off there.
    pub open spec fn holds_at(&self, reg: &Region, r: int) -> bool {
        match self {
            Gate::Recurrence { selector, image, kernel, accumulator } => reg.enabled_at(*selector as int, r)
                ==> {
                &&& reg.known(*accumulator as int, r - 1) is Some
                &&& reg.known(*image as int, r) is Some
                &&& reg.known(*kernel as int, r) is Some
                &&& reg.known(*accumulator as int, r) is Some
                &&& fsub(
                    fadd(
                        val(reg, *accumulator as int, r - 1),
                        fmul(val(reg, *image as int, r), val(reg, *kernel as int, r)),
                    ),
                    val(reg, *accumulator as int, r),
                ) == 0
            },
            Gate::Window { selector, image, kernel, conv, image_len, kernel_len } => reg.enabled_at(
                *selector as int,
                r,
            ) ==> forall|i: int|
                0 <= i < *image_len - *kernel_len + 1 ==> {
                    &&& (#[trigger] reg.known(*conv as int, r + i)) is Some
                    &&& window_known(reg, *image as int, *kernel as int, r + i, r, *kernel_len as nat)
                    &&& fsub(
                        window_dot(reg, *image as int, *kernel as int, r + i, r, *kernel_len as nat),
                        val(reg, *conv as int, r + i),
                    ) == 0
                },
        }
    }

    /// Holds at every row.
    pub open spec fn holds(&self, reg: &Region) -> bool {
        forall|r: int| #[trigger] self.holds_at(reg, r)
    }
}

/// The columns, selectors and gates that schema builders register.
pub struct ConstraintSystem {
    pub num_advice: usize,
    pub num_selectors: usize,
    pub gates: Vec<Gate>,
}

impl ConstraintSystem {
    /// Every gate holds in the region.
    pub open spec fn satisfied_by(&self, reg: &Region) -> bool {
        forall|g: int| 0 <= g < self.gates.len() ==> (#[trigger] self.gates@[g]).holds(reg)
    }

    /// Nothing registered yet.
    pub fn new() -> (cs: ConstraintSystem)
        ensures
            cs.num_advice == 0,
            cs.num_selectors == 0,
            cs.gates@.len() == 0,
    {
        ConstraintSystem { num_advice: 0, num_selectors: 0, gates: Vec::new() }
    }

    /// Allocates a fresh advice column and returns its index.
    pub fn advice_column(&mut self) -> (c: usize)
        requires
            old(self).num_advice < usize::MAX,
        ensures
            c == old(self).num_advice,
            final(self).num_advice == old(self).num_advice + 1,
            final(self).num_selectors == old(self).num_selectors,
            final(self).gates@ == old(self).gates@,
    {
        let c = self.num_advice;
        self.num_advice = c + 1;
        c
    }

    /// Allocates a fresh selector and returns its index.
    pub fn selector(&mut self) -> (s: usize)
        requires
            old(self).num_selectors < usize::MAX,
        ensures
            s == old(self).num_selectors,
            final(self).num_selectors == old(self).num_selectors + 1,
            final(self).num_advice == old(self).num_advice,
            final(self).gates@ == old(self).gates@,
    {
        let s = self.num_selectors;
        self.num_selectors = s + 1;
        s
    }

    /// Registers a gate.
    pub fn create_gate(&mut self, g: Gate)
        ensures
            final(self).num_advice == old(self).num_advice,
            final(self).num_selectors == old(self).num_selectors,
            final(self).gates@ == old(self).gates@.push(g),
    {
        self.gates.push(g);
    }
}

} // verus!
