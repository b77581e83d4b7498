//! The window-gate convolution: one selector, enabled at row zero, controls a
//! single gate that holds one constraint per output position.

use vstd::prelude::*;
use crate::field::Fe;
use crate::dot::{values, all_wf, dot_from, dot_at};
use crate::region::{Region, AssignmentError};
use crate::schema::{ConstraintSystem, ConfigurationError, Gate, window_dot, window_known};

verus! {

/// Columns and selector of the window-gate convolution of an image of
/// length `image_len` with a kernel of length `kernel_len`.
#[derive(Clone, Copy, Debug)]
pub struct NormalConv {
    pub image: usize,
    pub kernel: usize,
    pub conv: usize,
    pub seldot: usize,
    pub image_len: usize,
    pub kernel_len: usize,
}

/// The chip that builds a [`NormalConv`] configuration.
#[derive(Clone, Copy, Debug)]
pub struct NormalConvChip {
    pub config: NormalConv,
}

impl NormalConv {
    /// The number of output positions, `image_len - kernel_len + 1`.
    pub open spec fn windows(&self) -> int {
        self.image_len - self.kernel_len + 1
    }

    /// Three distinct columns and a valid shape.
    pub open spec fn wf(&self) -> bool {
        &&& self.image != self.kernel
        &&& self.image != self.conv
        &&& self.kernel != self.conv
        &&& 1 <= self.image_len < usize::MAX
        &&& self.kernel_len <= self.image_len
    }

    /// What this configuration registers: its one gate.
    pub open spec fn gate(&self) -> Gate {
        Gate::Window {
            selector: self.seldot,
            image: self.image,
            kernel: self.kernel,
            conv: self.conv,
            image_len: self.image_len,
            kernel_len: self.kernel_len,
        }
    }

    /// Every cell and selector bit that an assignment writes is inside the
    /// region and unwritten: image at rows `0 .. image_len`, kernel at rows
    /// `0 .. kernel_len`, output at rows `0 .. windows`, the selector at row 0.
    pub open spec fn targets_free(&self, reg: &Region) -> bool {
        &&& forall|r: int| 0 <= r < self.image_len ==> #[trigger] reg.cell_free(self.image as int, r)
        &&& forall|r: int| 0 <= r < self.kernel_len ==> #[trigger] reg.cell_free(self.kernel as int, r)
        &&& forall|r: int| 0 <= r < self.windows() ==> #[trigger] reg.cell_free(self.conv as int, r)
        &&& reg.selector_free(self.seldot as int, 0)
    }

    /// `after` is `before` with `image[r]` at image row `r`, `kernel[r]` at
    /// kernel row `r`, the convolution output `i` at output row `i`, and the
    /// selector on at row 0.
    pub open spec fn layout(&self, before: &Region, after: &Region, image: Seq<Fe>, kernel: Seq<Fe>) -> bool {
        &&& after.num_advice() == before.num_advice()
        &&& after.num_selectors() == before.num_selectors()
        &&& after.num_rows() == before.num_rows()
        &&& forall|c: int, r: int| #[trigger] after.cell_view(c, r) == if c == self.image && 0 <= r < self.image_len {
            Some(Some(values(image)[r]))
        } else if c == self.kernel && 0 <= r < self.kernel_len {
            Some(Some(values(kernel)[r]))
        } else if c == self.conv && 0 <= r < self.windows() {
            Some(Some(dot_from(values(image), values(kernel), r, self.kernel_len as nat)))
        } else {
            before.cell_view(c, r)
        }
        &&& forall|s: int, r: int| #[trigger] after.enabled_at(s, r) == ((s == self.seldot && r == 0)
            || before.enabled_at(s, r))
    }

    /// Where the convolution is laid out, the window sum over the region's
    /// cells is the dot product of the inputs.
    proof fn lemma_window_dot(&self, before: &Region, after: &Region, image: Seq<Fe>, kernel: Seq<Fe>, i: int, n: nat)
        requires
            self.wf(),
            image.len() == self.image_len,
            kernel.len() == self.kernel_len,
            self.layout(before, after, image, kernel),
            0 <= i < self.windows(),
            n <= self.kernel_len,
        ensures
            window_known(after, self.image as int, self.kernel as int, i, 0, n),
            window_dot(after, self.image as int, self.kernel as int, i, 0, n) == dot_from(values(image), values(kernel), i, n),
        decreases n,
    {
        if n > 0 {
            self.lemma_window_dot(before, after, image, kernel, i, (n - 1) as nat);
            assert(after.cell_view(self.image as int, i + n - 1) == Some(Some(values(image)[i + n - 1])));
            assert(after.cell_view(self.kernel as int, 0 + n - 1) == Some(Some(values(kernel)[n - 1])));
            assert forall|j: int| 0 <= j < n implies (#[trigger] after.known(self.image as int, i + j)) is Some
                && after.known(self.kernel as int, 0 + j) is Some by {
                assert(after.cell_view(self.image as int, i + j) == Some(Some(values(image)[i + j])));
                assert(after.cell_view(self.kernel as int, 0 + j) == Some(Some(values(kernel)[j])));
            }
        }
    }

    /// Lays out the witness of the convolution of `image` with `kernel` in
    /// `region`, each output computed on its own. Fails with `ShapeMismatch`
    /// where a vector's length differs from the configured shape, and with
    /// `CellRejected` where the region refuses a write.
    pub fn assign(&self, region: &mut Region, image: &Vec<Fe>, kernel: &Vec<Fe>) -> (res: Result<(), AssignmentError>)
        requires
            self.wf(),
            old(region).wf(),
            all_wf(image@),
            all_wf(kernel@),
        ensures
            final(region).wf(),
            res == Err::<(), AssignmentError>(AssignmentError::ShapeMismatch) <==> (image.len() != self.image_len
                || kernel.len() != self.kernel_len),
            res == Err::<(), AssignmentError>(AssignmentError::CellRejected) <==> (image.len() == self.image_len
                && kernel.len() == self.kernel_len && !self.targets_free(old(region))),
            res is Err ==> *final(region) == *old(region),
            res is Ok ==> self.layout(old(region), final(region), image@, kernel@),
            res is Ok ==> forall|i: int| 0 <= i < self.windows() ==> #[trigger] final(region).known(self.conv as int, i)
                == Some(dot_from(values(image@), values(kernel@), i, self.kernel_len as nat)),
            res is Ok ==> self.gate().holds_at(final(region), 0),
            res is Ok && old(region).is_fresh() ==> self.gate().holds(final(region)),
    {
        if image.len() != self.image_len || kernel.len() != self.kernel_len {
            return Err(AssignmentError::ShapeMismatch);
        }
        let n = self.image_len;
        let kl = self.kernel_len;
        let w: usize = n - kl + 1;
        if !(region.column_free(self.image, 0, n) && region.column_free(self.kernel, 0, kl)
            && region.column_free(self.conv, 0, w) && region.selector_run_free(self.seldot, 0, 1)) {
            assert(!self.targets_free(region)) by {
                if self.targets_free(region) {
                    assert(region.selector_free(self.seldot as int, 0));
                }
            }
            return Err(AssignmentError::CellRejected);
        }
        let ghost before = *region;
        let mut convs: Vec<Fe> = Vec::new();
        let mut i: usize = 0;
        while i < w
            invariant
                w == self.windows(),
                n == self.image_len,
                kl == self.kernel_len,
                image.len() == n,
                kernel.len() == kl,
                all_wf(image@),
                all_wf(kernel@),
                i <= w,
                convs.len() == i,
                all_wf(convs@),
                forall|t: int| 0 <= t < i ==> (#[trigger] convs@[t])@ == dot_from(values(image@), values(kernel@), t, kl as nat),
            decreases w - i,
        {
            convs.push(dot_at(image, kernel, i, kl));
            i = i + 1;
        }
        assert forall|t: int| 0 <= t < 0 + n implies #[trigger] region.cell_free(self.image as int, t) by {
            assert(before.cell_free(self.image as int, t));
        }
        let r1 = region.assign_column(self.image, 0, image);
        assert(r1 is Ok);
        assert forall|t: int| 0 <= t < 0 + kl implies #[trigger] region.cell_free(self.kernel as int, t) by {
            assert(before.cell_free(self.kernel as int, t));
        }
        let r2 = region.assign_column(self.kernel, 0, kernel);
        assert(r2 is Ok);
        assert(before.selector_free(self.seldot as int, 0));
        let r3 = region.enable_run(self.seldot, 0, 1);
        assert(r3 is Ok);
        assert forall|t: int| 0 <= t < 0 + w implies #[trigger] region.cell_free(self.conv as int, t) by {
            assert(before.cell_free(self.conv as int, t));
        }
        let r4 = region.assign_column(self.conv, 0, &convs);
        assert(r4 is Ok);
        proof {
            let vi = values(image@);
            let vk = values(kernel@);
            assert(self.layout(&before, region, image@, kernel@));
            assert forall|j: int| 0 <= j < self.windows() implies #[trigger] region.known(self.conv as int, j)
                == Some(dot_from(vi, vk, j, kl as nat)) by {
                assert(region.cell_view(self.conv as int, j) == Some(Some(dot_from(vi, vk, j, kl as nat))));
            }
            assert forall|j: int| 0 <= j < self.windows() implies {
                &&& (#[trigger] region.known(self.conv as int, 0 + j)) is Some
                &&& window_known(region, self.image as int, self.kernel as int, 0 + j, 0, kl as nat)
                &&& crate::field::fsub(
                    window_dot(region, self.image as int, self.kernel as int, 0 + j, 0, kl as nat),
                    crate::schema::val(region, self.conv as int, 0 + j),
                ) == 0
            } by {
                self.lemma_window_dot(&before, region, image@, kernel@, j, kl as nat);
                assert(region.cell_view(self.conv as int, j) == Some(Some(dot_from(vi, vk, j, kl as nat))));
            }
            assert(self.gate().holds_at(region, 0));
            if before.is_fresh() {
                assert forall|r: int| #[trigger] self.gate().holds_at(region, r) by {
                    assert(!before.enabled_at(self.seldot as int, r));
                }
            }
        }
        Ok(())
    }
}

impl NormalConvChip {
    /// Registers the window-gate convolution of an image of length
    /// `image_len` with a kernel of length `kernel_len`: three fresh advice
    /// columns, one fresh selector and one gate holding
    /// `image_len - kernel_len + 1` constraints. Fails, registering nothing,
    /// when the image is empty or shorter than the kernel.
    pub fn configure(meta: &mut ConstraintSystem, image_len: usize, kernel_len: usize) -> (res: Result<
        NormalConv,
        ConfigurationError,
    >)
        requires
            old(meta).num_advice + 3 <= usize::MAX,
            old(meta).num_selectors < usize::MAX,
            image_len < usize::MAX,
        ensures
            res == Err::<NormalConv, ConfigurationError>(ConfigurationError::EmptyImage) <==> image_len == 0,
            res == Err::<NormalConv, ConfigurationError>(ConfigurationError::KernelLongerThanImage) <==> (image_len
                > 0 && kernel_len > image_len),
            res is Err ==> *final(meta) == *old(meta),
            res matches Ok(cfg) ==> {
                &&& cfg.wf()
                &&& cfg.image_len == image_len
                &&& cfg.kernel_len == kernel_len
                &&& cfg.image == old(meta).num_advice
                &&& cfg.kernel == old(meta).num_advice + 1
                &&& cfg.conv == old(meta).num_advice + 2
                &&& cfg.seldot == old(meta).num_selectors
                &&& final(meta).num_advice == old(meta).num_advice + 3
                &&& final(meta).num_selectors == old(meta).num_selectors + 1
                &&& final(meta).gates@ == old(meta).gates@.push(cfg.gate())
                &&& cfg.gate().num_constraints() == cfg.windows()
                &&& cfg.gate().degree() == 2
            },
    {
        if image_len == 0 {
            return Err(ConfigurationError::EmptyImage);
        }
        if kernel_len > image_len {
            return Err(ConfigurationError::KernelLongerThanImage);
        }
        let image = meta.advice_column();
        let kernel = meta.advice_column();
        let conv = meta.advice_column();
        let seldot = meta.selector();
        let cfg = NormalConv { image, kernel, conv, seldot, image_len, kernel_len };
        meta.create_gate(Gate::Window { selector: seldot, image, kernel, conv, image_len, kernel_len });
        Ok(cfg)
    }
}

} // verus!
