//! Facts that relate the designs to one another and to themselves.

use vstd::prelude::*;
use crate::field::{Fe, fmul};
use crate::dot::{values, dot_from};
use crate::region::Region;
use crate::acc_dot::AccumDot;
use crate::acc_conv::AccumConv;
use crate::one_gate_cnn::NormalConv;

verus! {

/// For the same image and kernel, the final accumulator of each window of
/// the recurrence-gate convolution equals the window-gate output at that
/// window.
pub proof fn lemma_designs_agree(
    ac: &AccumConv,
    nc: &NormalConv,
    before1: &Region,
    after1: &Region,
    before2: &Region,
    after2: &Region,
    image: Seq<Fe>,
    kernel: Seq<Fe>,
    k: int,
)
    requires
        ac.wf(),
        nc.wf(),
        ac.image_len == nc.image_len,
        ac.kernel_len == nc.kernel_len,
        image.len() == ac.image_len,
        kernel.len() == ac.kernel_len,
        ac.layout(before1, after1, image, kernel),
        nc.layout(before2, after2, image, kernel),
        0 <= k < ac.windows(),
    ensures
        after1.known(ac.accumconv@[k] as int, k + ac.kernel_len) == after2.known(nc.conv as int, k),
        after2.known(nc.conv as int, k) == Some(dot_from(values(image), values(kernel), k, nc.kernel_len as nat)),
{
    let kl = ac.kernel_len as int;
    assert(after1.cell_view(ac.accumconv@[k] as int, k + kl) == Some(Some(dot_from(values(image), values(kernel), k, kl as nat))));
    assert(after2.cell_view(nc.conv as int, k) == Some(Some(dot_from(values(image), values(kernel), k, kl as nat))));
}

/// Assigning the same inputs with the same recurrence-gate dot-product
/// configuration into two fresh regions of the same dimensions gives the
/// same contents.
pub proof fn lemma_dot_assign_deterministic(
    cfg: &AccumDot,
    before1: &Region,
    after1: &Region,
    before2: &Region,
    after2: &Region,
    image: Seq<Fe>,
    kernel: Seq<Fe>,
)
    requires
        before1.is_fresh(),
        before2.is_fresh(),
        before1.num_advice() == before2.num_advice(),
        before1.num_selectors() == before2.num_selectors(),
        before1.num_rows() == before2.num_rows(),
        cfg.layout(before1, after1, image, kernel),
        cfg.layout(before2, after2, image, kernel),
    ensures
        after1.same_contents(after2),
{
    assert forall|c: int, r: int| #[trigger] after1.cell_view(c, r) == after2.cell_view(c, r) by {
        assert(before1.cell(c, r) is None && before2.cell(c, r) is None);
    }
    assert forall|s: int, r: int| #[trigger] after1.enabled_at(s, r) == after2.enabled_at(s, r) by {
        assert(!before1.enabled_at(s, r) && !before2.enabled_at(s, r));
    }
}

/// Assigning the same inputs with the same recurrence-gate convolution
/// configuration into two fresh regions of the same dimensions gives the
/// same contents.
pub proof fn lemma_conv_assign_deterministic(
    cfg: &AccumConv,
    before1: &Region,
    after1: &Region,
    before2: &Region,
    after2: &Region,
    image: Seq<Fe>,
    kernel: Seq<Fe>,
)
    requires
        cfg.wf(),
        before1.is_fresh(),
        before2.is_fresh(),
        before1.num_advice() == before2.num_advice(),
        before1.num_selectors() == before2.num_selectors(),
        before1.num_rows() == before2.num_rows(),
        cfg.layout(before1, after1, image, kernel),
        cfg.layout(before2, after2, image, kernel),
    ensures
        after1.same_contents(after2),
{
    assert forall|c: int, r: int| #[trigger] after1.cell_view(c, r) == after2.cell_view(c, r) by {
        assert(before1.cell(c, r) is None && before2.cell(c, r) is None);
        if c == cfg.image {
            assert(after1.cell_view(cfg.image as int, r) == after2.cell_view(cfg.image as int, r));
        } else if cfg.owns_column(c) {
            let k = (c - cfg.image - 1) / 2;
            if (c - cfg.image - 1) % 2 == 0 {
                assert(c == cfg.kernel@[k]);
                assert(after1.cell_view(cfg.kernel@[k] as int, r) == after2.cell_view(cfg.kernel@[k] as int, r));
            } else {
                assert(c == cfg.accumconv@[k]);
                assert(after1.cell_view(cfg.accumconv@[k] as int, r) == after2.cell_view(cfg.accumconv@[k] as int, r));
            }
        }
    }
    assert forall|s: int, r: int| #[trigger] after1.enabled_at(s, r) == after2.enabled_at(s, r) by {
        assert(!before1.enabled_at(s, r) && !before2.enabled_at(s, r));
        if cfg.owns_selector(s) {
            let k = s - cfg.seldot@[0];
            assert(s == cfg.seldot@[k]);
            assert(after1.enabled_at(cfg.seldot@[k] as int, r) == after2.enabled_at(cfg.seldot@[k] as int, r));
        }
    }
}

/// Assigning the same inputs with the same window-gate configuration into
/// two fresh regions of the same dimensions gives the same contents.
pub proof fn lemma_window_assign_deterministic(
    cfg: &NormalConv,
    before1: &Region,
    after1: &Region,
    before2: &Region,
    after2: &Region,
    image: Seq<Fe>,
    kernel: Seq<Fe>,
)
    requires
        before1.is_fresh(),
        before2.is_fresh(),
        before1.num_advice() == before2.num_advice(),
        before1.num_selectors() == before2.num_selectors(),
        before1.num_rows() == before2.num_rows(),
        cfg.layout(before1, after1, image, kernel),
        cfg.layout(before2, after2, image, kernel),
    ensures
        after1.same_contents(after2),
{
    assert forall|c: int, r: int| #[trigger] after1.cell_view(c, r) == after2.cell_view(c, r) by {
        assert(before1.cell(c, r) is None && before2.cell(c, r) is None);
    }
    assert forall|s: int, r: int| #[trigger] after1.enabled_at(s, r) == after2.enabled_at(s, r) by {
        assert(!before1.enabled_at(s, r) && !before2.enabled_at(s, r));
    }
}

/// With a kernel as long as the image, the recurrence-gate convolution has a
/// single window, whose final accumulator is the dot product that the
/// recurrence-gate dot-product design computes for the same inputs.
pub proof fn lemma_full_kernel_is_dot(
    ac: &AccumConv,
    dc: &AccumDot,
    before1: &Region,
    after1: &Region,
    before2: &Region,
    after2: &Region,
    image: Seq<Fe>,
    kernel: Seq<Fe>,
)
    requires
        ac.wf(),
        dc.wf(),
        ac.kernel_len == ac.image_len,
        dc.len == ac.image_len,
        image.len() == ac.image_len,
        kernel.len() == ac.kernel_len,
        ac.layout(before1, after1, image, kernel),
        dc.layout(before2, after2, image, kernel),
    ensures
        ac.windows() == 1,
        after1.known(ac.accumconv@[0] as int, ac.image_len as int) == after2.known(dc.accumulator as int, dc.len as int),
{
    let n = ac.image_len as int;
    assert(after1.cell_view(ac.accumconv@[0] as int, n) == Some(Some(dot_from(values(image), values(kernel), 0, n as nat))));
    assert(after2.cell_view(dc.accumulator as int, n) == Some(Some(dot_from(values(image), values(kernel), 0, n as nat))));
}

/// With a kernel of one element, each window-gate output is the image
/// element at that position times the kernel element.
pub proof fn lemma_unit_kernel(
    nc: &NormalConv,
    before: &Region,
    after: &Region,
    image: Seq<Fe>,
    kernel: Seq<Fe>,
    i: int,
)
    requires
        nc.wf(),
        nc.kernel_len == 1,
        image.len() == nc.image_len,
        kernel.len() == 1,
        nc.layout(before, after, image, kernel),
        0 <= i < nc.windows(),
    ensures
        after.known(nc.conv as int, i) == Some(fmul(image[i]@, kernel[0]@)),
{
    let p = crate::field::modulus() as int;
    assert(after.cell_view(nc.conv as int, i) == Some(Some(dot_from(values(image), values(kernel), i, 1))));
    let x = (image[i]@ * kernel[0]@) as int;
    vstd::arithmetic::div_mod::lemma_mod_twice(x, p);
    assert(dot_from(values(image), values(kernel), i, 0) == 0);
    assert(values(image)[i + 1 - 1] == image[i]@);
    assert(values(kernel)[1 - 1] == kernel[0]@);
    assert(dot_from(values(image), values(kernel), i, 1) == fmul(image[i]@, kernel[0]@));
}

} // verus!
