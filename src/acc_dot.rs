//! The recurrence-gate dot product: a running accumulator, one row per term.

use vstd::prelude::*;
use crate::field::Fe;
use crate::dot::{values, all_wf, dot_from, running_dot};
use crate::region::{Region, AssignmentError};
use crate::schema::{ConstraintSystem, ConfigurationError, Gate};

verus! {

/// Columns and selector of the recurrence-gate dot product of two vectors of
/// length `len`.
#[derive(Clone, Copy, Debug)]
pub struct AccumDot {
    pub image: usize,
    pub kernel: usize,
    pub accumulator: usize,
    pub seldot: usize,
    pub len: usize,
}

/// The chip that builds an [`AccumDot`] configuration.
#[derive(Clone, Copy, Debug)]
pub struct AccumDotChip {
    pub config: AccumDot,
}

impl AccumDot {
    /// Three distinct columns and a length the row numbers can hold.
    pub open spec fn wf(&self) -> bool {
        &&& self.image != self.kernel
        &&& self.image != self.accumulator
        &&& self.kernel != self.accumulator
        &&& 1 <= self.len < usize::MAX
    }

    /// What this configuration registers: its one gate.
    pub open spec fn gate(&self) -> Gate {
        Gate::Recurrence {
            selector: self.seldot,
            image: self.image,
            kernel: self.kernel,
            accumulator: self.accumulator,
        }
    }

    /// The cells and selector bits that an assignment writes are all inside
    /// the region and unwritten: image, kernel and selector at rows
    /// `1 ..= len`, accumulator at rows `0 ..= len`.
    pub open spec fn targets_free(&self, reg: &Region) -> bool {
        &&& forall|r: int| 1 <= r <= self.len ==> #[trigger] reg.cell_free(self.image as int, r)
        &&& forall|r: int| 1 <= r <= self.len ==> #[trigger] reg.cell_free(self.kernel as int, r)
        &&& forall|r: int| 0 <= r <= self.len ==> #[trigger] reg.cell_free(self.accumulator as int, r)
        &&& forall|r: int| 1 <= r <= self.len ==> #[trigger] reg.selector_free(self.seldot as int, r)
    }

    /// `after` is `before` with the witness of `image · kernel` laid out:
    /// `image[r - 1]` and `kernel[r - 1]` at row `r` for `1 <= r <= len`, the
    /// sum of the first `r` products in the accumulator at row `r` for
    /// `0 <= r <= len`, and the selector on at rows `1 ..= len`.
    pub open spec fn layout(&self, before: &Region, after: &Region, image: Seq<Fe>, kernel: Seq<Fe>) -> bool {
        &&& after.num_advice() == before.num_advice()
        &&& after.num_selectors() == before.num_selectors()
        &&& after.num_rows() == before.num_rows()
        &&& forall|c: int, r: int| #[trigger] after.cell_view(c, r) == if c == self.image && 1 <= r <= self.len {
            Some(Some(values(image)[r - 1]))
        } else if c == self.kernel && 1 <= r <= self.len {
            Some(Some(values(kernel)[r - 1]))
        } else if c == self.accumulator && 0 <= r <= self.len {
            Some(Some(dot_from(values(image), values(kernel), 0, r as nat)))
        } else {
            before.cell_view(c, r)
        }
        &&& forall|s: int, r: int| #[trigger] after.enabled_at(s, r) == ((s == self.seldot && 1 <= r <= self.len)
            || before.enabled_at(s, r))
    }

    /// Lays out the witness of the dot product of `image` and `kernel` in
    /// `region`. Fails with `ShapeMismatch` where a vector's length is not
    /// `len`, and with `CellRejected` where the region refuses a write.
    pub fn assign(&self, region: &mut Region, image: &Vec<Fe>, kernel: &Vec<Fe>) -> (res: Result<(), AssignmentError>)
        requires
            self.wf(),
            old(region).wf(),
            all_wf(image@),
            all_wf(kernel@),
        ensures
            final(region).wf(),
            res == Err::<(), AssignmentError>(AssignmentError::ShapeMismatch) <==> (image.len() != self.len
                || kernel.len() != self.len),
            res == Err::<(), AssignmentError>(AssignmentError::CellRejected) <==> (image.len() == self.len
                && kernel.len() == self.len && !self.targets_free(old(region))),
            res is Err ==> *final(region) == *old(region),
            res is Ok ==> self.layout(old(region), final(region), image@, kernel@),
            res is Ok ==> final(region).known(self.accumulator as int, self.len as int) == Some(
                dot_from(values(image@), values(kernel@), 0, self.len as nat),
            ),
            res is Ok ==> forall|r: int| 1 <= r <= self.len ==> #[trigger] self.gate().holds_at(final(region), r),
            res is Ok && old(region).is_fresh() ==> self.gate().holds(final(region)),
    {
        if image.len() != self.len || kernel.len() != self.len {
            return Err(AssignmentError::ShapeMismatch);
        }
        let n = self.len;
        if !(region.column_free(self.image, 1, n) && region.column_free(self.kernel, 1, n)
            && region.column_free(self.accumulator, 0, n + 1) && region.selector_run_free(self.seldot, 1, n)) {
            return Err(AssignmentError::CellRejected);
        }
        let ghost before = *region;
        let accs = running_dot(image, kernel, 0, n);
        let r1 = region.enable_run(self.seldot, 1, n);
        assert(r1 is Ok);
        assert forall|t: int| 1 <= t < 1 + n implies #[trigger] region.cell_free(self.image as int, t) by {
            assert(before.cell_free(self.image as int, t));
        }
        let r2 = region.assign_column(self.image, 1, image);
        assert(r2 is Ok);
        assert forall|t: int| 1 <= t < 1 + n implies #[trigger] region.cell_free(self.kernel as int, t) by {
            assert(before.cell_free(self.kernel as int, t));
        }
        let r3 = region.assign_column(self.kernel, 1, kernel);
        assert(r3 is Ok);
        assert forall|t: int| 0 <= t < 1 + n implies #[trigger] region.cell_free(self.accumulator as int, t) by {
            assert(before.cell_free(self.accumulator as int, t));
        }
        let r4 = region.assign_column(self.accumulator, 0, &accs);
        assert(r4 is Ok);
        proof {
            let vi = values(image@);
            let vk = values(kernel@);
            assert(self.layout(&before, region, image@, kernel@));
            assert forall|r: int| 1 <= r <= self.len implies #[trigger] self.gate().holds_at(region, r) by {
                assert(region.cell_view(self.accumulator as int, r - 1) == Some(Some(dot_from(vi, vk, 0, (r - 1) as nat))));
                assert(region.cell_view(self.accumulator as int, r) == Some(Some(dot_from(vi, vk, 0, r as nat))));
                assert(region.cell_view(self.image as int, r) == Some(Some(vi[r - 1])));
                assert(region.cell_view(self.kernel as int, r) == Some(Some(vk[r - 1])));
            }
            if before.is_fresh() {
                assert forall|r: int| #[trigger] self.gate().holds_at(region, r) by {
                    assert(before.enabled_at(self.seldot as int, r) == false);
                    if 1 <= r <= self.len {
                    }
                }
            }
        }
        Ok(())
    }
}

impl AccumDotChip {
    /// Registers the recurrence-gate dot product of two vectors of length
    /// `len`: three fresh advice columns, one fresh selector and one gate.
    /// Fails, registering nothing, when `len` is zero.
    pub fn configure(meta: &mut ConstraintSystem, len: usize) -> (res: Result<AccumDot, ConfigurationError>)
        requires
            old(meta).num_advice + 3 <= usize::MAX,
            old(meta).num_selectors < usize::MAX,
            len < usize::MAX,
        ensures
            res is Err <==> len == 0,
            res is Err ==> res == Err::<AccumDot, ConfigurationError>(ConfigurationError::EmptyImage)
                && *final(meta) == *old(meta),
            res matches Ok(cfg) ==> {
                &&& cfg.wf()
                &&& cfg.len == len
                &&& cfg.image == old(meta).num_advice
                &&& cfg.kernel == old(meta).num_advice + 1
                &&& cfg.accumulator == old(meta).num_advice + 2
                &&& cfg.seldot == old(meta).num_selectors
                &&& final(meta).num_advice == old(meta).num_advice + 3
                &&& final(meta).num_selectors == old(meta).num_selectors + 1
                &&& final(meta).gates@ == old(meta).gates@.push(cfg.gate())
                &&& cfg.gate().num_constraints() == 1
                &&& cfg.gate().degree() == 2
            },
    {
        if len == 0 {
            return Err(ConfigurationError::EmptyImage);
        }
        let image = meta.advice_column();
        let kernel = meta.advice_column();
        let accumulator = meta.advice_column();
        let seldot = meta.selector();
        let cfg = AccumDot { image, kernel, accumulator, seldot, len };
        meta.create_gate(Gate::Recurrence { selector: seldot, image, kernel, accumulator });
        Ok(cfg)
    }
}

} // verus!
