//! The recurrence-gate convolution: one dot product per window, each with its
//! own kernel column, accumulator column, selector and gate, all reading one
//! shared image column.

use vstd::prelude::*;
use crate::field::Fe;
use crate::dot::{values, all_wf, dot_from, running_dot};
use crate::region::{Region, AssignmentError};
use crate::schema::{ConstraintSystem, ConfigurationError, Gate};

verus! {

/// Columns and selectors of the recurrence-gate convolution of an image of
/// length `image_len` with a kernel of length `kernel_len`. Window `k` owns
/// `kernel[k]`, `accumconv[k]` and `seldot[k]`.
#[derive(Clone, Debug)]
pub struct AccumConv {
    pub image: usize,
    pub kernel: Vec<usize>,
    pub accumconv: Vec<usize>,
    pub seldot: Vec<usize>,
    pub image_len: usize,
    pub kernel_len: usize,
}

/// The chip that builds an [`AccumConv`] configuration.
#[derive(Clone, Debug)]
pub struct AccumConvChip {
    pub config: AccumConv,
}

impl AccumConv {
    /// The number of windows, `image_len - kernel_len + 1`.
    pub open spec fn windows(&self) -> int {
        self.image_len - self.kernel_len + 1
    }

    /// The shape is valid and the columns are laid out as the builder
    /// allocates them: the image column, then a kernel and an accumulator
    /// column for each window in turn; the selectors are consecutive.
    pub open spec fn wf(&self) -> bool {
        &&& 1 <= self.image_len < usize::MAX
        &&& self.kernel_len <= self.image_len
        &&& self.kernel.len() == self.windows()
        &&& self.accumconv.len() == self.windows()
        &&& self.seldot.len() == self.windows()
        &&& self.image + 2 * self.windows() <= usize::MAX
        &&& forall|k: int| 0 <= k < self.windows() ==> #[trigger] self.kernel@[k] == self.image + 1 + 2 * k
        &&& forall|k: int| 0 <= k < self.windows() ==> #[trigger] self.accumconv@[k] == self.image + 2 + 2 * k
        &&& forall|k: int| 0 <= k < self.windows() ==> #[trigger] self.seldot@[k] == self.seldot@[0] + k
    }

    /// Column `c` belongs to this configuration.
    pub open spec fn owns_column(&self, c: int) -> bool {
        self.image <= c <= self.image + 2 * self.windows()
    }

    /// Selector `s` belongs to this configuration.
    pub open spec fn owns_selector(&self, s: int) -> bool {
        self.seldot@[0] <= s < self.seldot@[0] + self.windows()
    }

    /// Window `k`'s own gate.
    pub open spec fn gate(&self, k: int) -> Gate {
        Gate::Recurrence {
            selector: self.seldot@[k],
            image: self.image,
            kernel: self.kernel@[k],
            accumulator: self.accumconv@[k],
        }
    }

    /// The cells and selector bits that window `k` writes are inside the
    /// region and unwritten: kernel and selector at rows `k + 1 ..= k + kernel_len`,
    /// accumulator at rows `k ..= k + kernel_len`.
    pub open spec fn window_free(&self, reg: &Region, k: int) -> bool {
        &&& forall|r: int| k + 1 <= r <= k + self.kernel_len ==> #[trigger] reg.cell_free(self.kernel@[k] as int, r)
        &&& forall|r: int| k <= r <= k + self.kernel_len ==> #[trigger] reg.cell_free(self.accumconv@[k] as int, r)
        &&& forall|r: int| k + 1 <= r <= k + self.kernel_len ==> #[trigger] reg.selector_free(self.seldot@[k] as int, r)
    }

    /// Every cell and selector bit that an assignment writes is inside the
    /// region and unwritten: the image at rows `1 ..= image_len`, and each
    /// window's own.
    pub open spec fn targets_free(&self, reg: &Region) -> bool {
        &&& forall|r: int| 1 <= r <= self.image_len ==> #[trigger] reg.cell_free(self.image as int, r)
        &&& forall|k: int| 0 <= k < self.windows() ==> #[trigger] self.window_free(reg, k)
    }

    /// `after` is `before` with the image laid out at rows `1 ..= image_len`
    /// and the windows `k < m` laid out: `kernel[r - k - 1]` in the window's
    /// kernel column at rows `k + 1 ..= k + kernel_len`, the sum of the first
    /// `r - k` products of the window in its accumulator column at rows
    /// `k ..= k + kernel_len`, its selector on at rows `k + 1 ..= k + kernel_len`.
    /// Everything else is as in `before`.
    pub open spec fn layout_upto(&self, before: &Region, after: &Region, image: Seq<Fe>, kernel: Seq<Fe>, m: int) -> bool {
        let vi = values(image);
        let vk = values(kernel);
        let kl = self.kernel_len as int;
        &&& after.num_advice() == before.num_advice()
        &&& after.num_selectors() == before.num_selectors()
        &&& after.num_rows() == before.num_rows()
        &&& forall|r: int| #[trigger] after.cell_view(self.image as int, r) == if 1 <= r <= self.image_len {
            Some(Some(vi[r - 1]))
        } else {
            before.cell_view(self.image as int, r)
        }
        &&& forall|k: int, r: int| 0 <= k < self.windows() ==> #[trigger] after.cell_view(self.kernel@[k] as int, r) == if k < m && k + 1 <= r <= k + kl {
            Some(Some(vk[r - k - 1]))
        } else {
            before.cell_view(self.kernel@[k] as int, r)
        }
        &&& forall|k: int, r: int| 0 <= k < self.windows() ==> #[trigger] after.cell_view(self.accumconv@[k] as int, r) == if k < m && k <= r <= k + kl {
            Some(Some(dot_from(vi, vk, k, (r - k) as nat)))
        } else {
            before.cell_view(self.accumconv@[k] as int, r)
        }
        &&& forall|c: int, r: int| !self.owns_column(c) ==> #[trigger] after.cell_view(c, r) == before.cell_view(c, r)
        &&& forall|k: int, r: int| 0 <= k < self.windows() ==> #[trigger] after.enabled_at(self.seldot@[k] as int, r) == ((k < m
            && k + 1 <= r <= k + kl) || before.enabled_at(self.seldot@[k] as int, r))
        &&& forall|s: int, r: int| !self.owns_selector(s) ==> #[trigger] after.enabled_at(s, r) == before.enabled_at(s, r)
    }

    /// The whole convolution is laid out.
    pub open spec fn layout(&self, before: &Region, after: &Region, image: Seq<Fe>, kernel: Seq<Fe>) -> bool {
        self.layout_upto(before, after, image, kernel, self.windows())
    }
}

} // verus!

verus! {

impl AccumConv {
    /// Whether window `k`'s cells and selector bits are all free.
    fn window_free_exec(&self, region: &Region, k: usize) -> (b: bool)
        requires
            self.wf(),
            region.wf(),
            k < self.windows(),
        ensures
            b == self.window_free(region, k as int),
    {
        let kl = self.kernel_len;
        region.column_free(self.kernel[k], k + 1, kl) && region.column_free(self.accumconv[k], k, kl + 1)
            && region.selector_run_free(self.seldot[k], k + 1, kl)
    }

    /// Where the convolution is laid out, window `k`'s gate holds at each
    /// row of the window.
    proof fn lemma_gate_holds_at(&self, before: &Region, after: &Region, image: Seq<Fe>, kernel: Seq<Fe>, k: int, r: int)
        requires
            self.wf(),
            image.len() == self.image_len,
            kernel.len() == self.kernel_len,
            self.layout(before, after, image, kernel),
            0 <= k < self.windows(),
            k + 1 <= r <= k + self.kernel_len,
        ensures
            self.gate(k).holds_at(after, r),
    {
        let vi = values(image);
        let vk = values(kernel);
        let kl = self.kernel_len as int;
        assert(after.cell_view(self.accumconv@[k] as int, r - 1) == Some(Some(dot_from(vi, vk, k, (r - 1 - k) as nat))));
        assert(after.cell_view(self.accumconv@[k] as int, r) == Some(Some(dot_from(vi, vk, k, (r - k) as nat))));
        assert(after.cell_view(self.image as int, r) == Some(Some(vi[r - 1])));
        assert(after.cell_view(self.kernel@[k] as int, r) == Some(Some(vk[r - k - 1])));
        assert(k + (r - k) - 1 == r - 1);
    }

    /// Lays out the witness of the convolution of `image` with `kernel` in
    /// `region`, window by window. Fails with `ShapeMismatch` where a
    /// vector's length differs from the configured shape, and with
    /// `CellRejected` where the region refuses a write.
    pub fn assign(&self, region: &mut Region, image: &Vec<Fe>, kernel: &Vec<Fe>) -> (res: Result<(), AssignmentError>)
        requires
            self.wf(),
            old(region).wf(),
            all_wf(image@),
            all_wf(kernel@),
        ensures
            final(region).wf(),
            res == Err::<(), AssignmentError>(AssignmentError::ShapeMismatch) <==> (image.len() != self.image_len
                || kernel.len() != self.kernel_len),
            res == Err::<(), AssignmentError>(AssignmentError::CellRejected) <==> (image.len() == self.image_len
                && kernel.len() == self.kernel_len && !self.targets_free(old(region))),
            res is Err ==> *final(region) == *old(region),
            res is Ok ==> self.layout(old(region), final(region), image@, kernel@),
            res is Ok ==> forall|k: int| 0 <= k < self.windows() ==> #[trigger] final(region).known(
                self.accumconv@[k] as int,
                k + self.kernel_len,
            ) == Some(dot_from(values(image@), values(kernel@), k, self.kernel_len as nat)),
            res is Ok ==> forall|k: int, r: int| 0 <= k < self.windows() && k + 1 <= r <= k + self.kernel_len
                ==> #[trigger] self.gate(k).holds_at(final(region), r),
            res is Ok && old(region).is_fresh() ==> forall|k: int| 0 <= k < self.windows()
                ==> #[trigger] self.gate(k).holds(final(region)),
    {
        if image.len() != self.image_len || kernel.len() != self.kernel_len {
            return Err(AssignmentError::ShapeMismatch);
        }
        let n = self.image_len;
        let kl = self.kernel_len;
        let w: usize = n - kl + 1;
        if !region.column_free(self.image, 1, n) {
            return Err(AssignmentError::CellRejected);
        }
        let mut k: usize = 0;
        while k < w
            invariant
                self.wf(),
                region.wf(),
                w == self.windows(),
                n == self.image_len,
                image.len() == n,
                kernel.len() == self.kernel_len,
                *region == *old(region),
                forall|r: int| 1 <= r <= n ==> #[trigger] region.cell_free(self.image as int, r),
                k <= w,
                forall|j: int| 0 <= j < k ==> #[trigger] self.window_free(region, j),
            decreases w - k,
        {
            if !self.window_free_exec(region, k) {
                assert(!self.targets_free(region));
                return Err(AssignmentError::CellRejected);
            }
            k = k + 1;
        }
        let ghost before = *region;
        let r0 = region.assign_column(self.image, 1, image);
        assert(r0 is Ok);
        assert(self.layout_upto(&before, region, image@, kernel@, 0));
        let mut k: usize = 0;
        while k < w
            invariant
                self.wf(),
                region.wf(),
                w == self.windows(),
                n == self.image_len,
                kl == self.kernel_len,
                image.len() == n,
                kernel.len() == kl,
                all_wf(image@),
                all_wf(kernel@),
                k <= w,
                self.targets_free(&before),
                self.layout_upto(&before, region, image@, kernel@, k as int),
            decreases w - k,
        {
            let ghost mid = *region;
            assert(self.window_free(&before, k as int));
            let accs = running_dot(image, kernel, k, kl);
            assert forall|t: int| k + 1 <= t < k + 1 + kl implies #[trigger] region.selector_free(self.seldot@[k as int] as int, t) by {
                assert(before.selector_free(self.seldot@[k as int] as int, t));
            }
            let r1 = region.enable_run(self.seldot[k], k + 1, kl);
            assert(r1 is Ok);
            assert forall|t: int| k + 1 <= t < k + 1 + kl implies #[trigger] region.cell_free(self.kernel@[k as int] as int, t) by {
                assert(before.cell_free(self.kernel@[k as int] as int, t));
                assert(mid.cell_view(self.kernel@[k as int] as int, t) == before.cell_view(self.kernel@[k as int] as int, t));
            }
            let r2 = region.assign_column(self.kernel[k], k + 1, kernel);
            assert(r2 is Ok);
            assert forall|t: int| k <= t < k + 1 + kl implies #[trigger] region.cell_free(self.accumconv@[k as int] as int, t) by {
                assert(before.cell_free(self.accumconv@[k as int] as int, t));
                assert(mid.cell_view(self.accumconv@[k as int] as int, t) == before.cell_view(self.accumconv@[k as int] as int, t));
            }
            let r3 = region.assign_column(self.accumconv[k], k, &accs);
            assert(r3 is Ok);
            proof {
                let vi = values(image@);
                let vk = values(kernel@);
                let ki = k as int;
                assert forall|j: int, r: int| 0 <= j < self.windows() implies #[trigger] region.cell_view(self.kernel@[j] as int, r) == if j < ki + 1 && j + 1 <= r <= j + kl {
                    Some(Some(vk[r - j - 1]))
                } else {
                    before.cell_view(self.kernel@[j] as int, r)
                } by {
                    assert(mid.cell_view(self.kernel@[j] as int, r) == if j < ki && j + 1 <= r <= j + kl {
                        Some(Some(vk[r - j - 1]))
                    } else {
                        before.cell_view(self.kernel@[j] as int, r)
                    });
                }
                assert forall|j: int, r: int| 0 <= j < self.windows() implies #[trigger] region.cell_view(self.accumconv@[j] as int, r) == if j < ki + 1 && j <= r <= j + kl {
                    Some(Some(dot_from(vi, vk, j, (r - j) as nat)))
                } else {
                    before.cell_view(self.accumconv@[j] as int, r)
                } by {
                    assert(mid.cell_view(self.accumconv@[j] as int, r) == if j < ki && j <= r <= j + kl {
                        Some(Some(dot_from(vi, vk, j, (r - j) as nat)))
                    } else {
                        before.cell_view(self.accumconv@[j] as int, r)
                    });
                }
                assert forall|r: int| #[trigger] region.cell_view(self.image as int, r) == if 1 <= r <= self.image_len {
                    Some(Some(vi[r - 1]))
                } else {
                    before.cell_view(self.image as int, r)
                } by {
                    assert(mid.cell_view(self.image as int, r) == region.cell_view(self.image as int, r));
                }
                assert forall|c: int, r: int| !self.owns_column(c) implies #[trigger] region.cell_view(c, r) == before.cell_view(c, r) by {
                    assert(mid.cell_view(c, r) == region.cell_view(c, r));
                }
                assert forall|j: int, r: int| 0 <= j < self.windows() implies #[trigger] region.enabled_at(self.seldot@[j] as int, r) == ((j < ki + 1
                    && j + 1 <= r <= j + kl) || before.enabled_at(self.seldot@[j] as int, r)) by {
                    assert(mid.enabled_at(self.seldot@[j] as int, r) == ((j < ki
                    && j + 1 <= r <= j + kl) || before.enabled_at(self.seldot@[j] as int, r)));
                }
                assert forall|s: int, r: int| !self.owns_selector(s) implies #[trigger] region.enabled_at(s, r) == before.enabled_at(s, r) by {
                    assert(mid.enabled_at(s, r) == before.enabled_at(s, r));
                }
                assert(self.layout_upto(&before, region, image@, kernel@, k + 1));
            }
            k = k + 1;
        }
        proof {
            assert forall|j: int| 0 <= j < self.windows() implies #[trigger] region.known(self.accumconv@[j] as int, j + kl)
                == Some(dot_from(values(image@), values(kernel@), j, kl as nat)) by {
                assert(region.cell_view(self.accumconv@[j] as int, j + kl) == Some(Some(dot_from(values(image@), values(kernel@), j, kl as nat))));
            }
            assert forall|j: int, r: int| 0 <= j < self.windows() && j + 1 <= r <= j + kl
                implies #[trigger] self.gate(j).holds_at(region, r) by {
                self.lemma_gate_holds_at(&before, region, image@, kernel@, j, r);
            }
            if before.is_fresh() {
                assert forall|j: int| 0 <= j < self.windows() implies #[trigger] self.gate(j).holds(region) by {
                    assert forall|r: int| #[trigger] self.gate(j).holds_at(region, r) by {
                        assert(!before.enabled_at(self.seldot@[j] as int, r));
                        if j + 1 <= r <= j + kl {
                            self.lemma_gate_holds_at(&before, region, image@, kernel@, j, r);
                        }
                    }
                }
            }
        }
        Ok(())
    }
}

} // verus!

verus! {

impl AccumConvChip {
    /// Registers the recurrence-gate convolution of an image of length
    /// `image_len` with a kernel of length `kernel_len`: one shared image
    /// column, then for each of the `image_len - kernel_len + 1` windows a
    /// kernel column, an accumulator column, a selector and a gate. Fails,
    /// registering nothing, when the image is empty or shorter than the kernel.
    pub fn configure(meta: &mut ConstraintSystem, image_len: usize, kernel_len: usize) -> (res: Result<
        AccumConv,
        ConfigurationError,
    >)
        requires
            old(meta).num_advice + 2 * image_len + 3 <= usize::MAX,
            old(meta).num_selectors + image_len + 1 <= usize::MAX,
            image_len < usize::MAX,
        ensures
            res == Err::<AccumConv, ConfigurationError>(ConfigurationError::EmptyImage) <==> image_len == 0,
            res == Err::<AccumConv, ConfigurationError>(ConfigurationError::KernelLongerThanImage) <==> (image_len
                > 0 && kernel_len > image_len),
            res is Err ==> *final(meta) == *old(meta),
            res matches Ok(cfg) ==> {
                &&& cfg.wf()
                &&& cfg.image_len == image_len
                &&& cfg.kernel_len == kernel_len
                &&& cfg.image == old(meta).num_advice
                &&& cfg.seldot@[0] == old(meta).num_selectors
                &&& final(meta).num_advice == old(meta).num_advice + 1 + 2 * cfg.windows()
                &&& final(meta).num_selectors == old(meta).num_selectors + cfg.windows()
                &&& final(meta).gates@ == old(meta).gates@ + Seq::new(cfg.windows() as nat, |k: int| cfg.gate(k))
            },
    {
        if image_len == 0 {
            return Err(ConfigurationError::EmptyImage);
        }
        if kernel_len > image_len {
            return Err(ConfigurationError::KernelLongerThanImage);
        }
        let ghost start = *meta;
        let w: usize = image_len - kernel_len + 1;
        let image = meta.advice_column();
        let mut kernel: Vec<usize> = Vec::new();
        let mut accumconv: Vec<usize> = Vec::new();
        let mut seldot: Vec<usize> = Vec::new();
        let mut i: usize = 0;
        while i < w
            invariant
                w == image_len - kernel_len + 1,
                w <= image_len + 1,
                i <= w,
                image == start.num_advice,
                start.num_advice + 2 * image_len + 3 <= usize::MAX,
                start.num_selectors + image_len + 1 <= usize::MAX,
                meta.num_advice == start.num_advice + 1 + 2 * i,
                meta.num_selectors == start.num_selectors + i,
                kernel.len() == i,
                accumconv.len() == i,
                seldot.len() == i,
                forall|k: int| 0 <= k < i ==> #[trigger] kernel@[k] == image + 1 + 2 * k,
                forall|k: int| 0 <= k < i ==> #[trigger] accumconv@[k] == image + 2 + 2 * k,
                forall|k: int| 0 <= k < i ==> #[trigger] seldot@[k] == start.num_selectors + k,
                meta.gates@ == start.gates@ + Seq::new(i as nat, |k: int| Gate::Recurrence {
                    selector: seldot@[k],
                    image: image,
                    kernel: kernel@[k],
                    accumulator: accumconv@[k],
                }),
            decreases w - i,
        {
            let kc = meta.advice_column();
            let ac = meta.advice_column();
            let sc = meta.selector();
            kernel.push(kc);
            accumconv.push(ac);
            seldot.push(sc);
            let ghost gates_before = meta.gates@;
            meta.create_gate(Gate::Recurrence { selector: sc, image, kernel: kc, accumulator: ac });
            proof {
                let ii = (i + 1) as nat;
                assert(meta.gates@ =~= start.gates@ + Seq::new(ii, |k: int| Gate::Recurrence {
                    selector: seldot@[k],
                    image: image,
                    kernel: kernel@[k],
                    accumulator: accumconv@[k],
                }));
            }
            i = i + 1;
        }
        let cfg = AccumConv { image, kernel, accumconv, seldot, image_len, kernel_len };
        assert(meta.gates@ =~= start.gates@ + Seq::new(cfg.windows() as nat, |k: int| cfg.gate(k)));
        Ok(cfg)
    }
}

} // verus!
