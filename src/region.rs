//! A region: a table of advice cells and selector bits, each written at most
//! once.

use vstd::prelude::*;
use crate::value::Value;
use crate::field::Fe;

verus! {

/// Why a witness assignment failed.
#[derive(Clone, Copy, Debug, PartialEq, Eq, Structural)]
pub enum AssignmentError {
    /// An input vector's length differs from the configured shape.
    ShapeMismatch,
    /// The region refused a write: the cell or selector bit is outside the
    /// region or was written before.
    CellRejected,
}

/// Advice cells and selector bits of one circuit instance. Rows are numbered
/// from zero; every column holds `n_rows` rows.
pub struct Region {
    n_advice: usize,
    n_selectors: usize,
    n_rows: usize,
    cells: Vec<Option<Value>>,
    enabled: Vec<bool>,
}

proof fn lemma_flat_index(n: int, c1: int, r1: int, c2: int, r2: int)
    requires
        0 <= c1,
        0 <= c2,
        0 <= r1 < n,
        0 <= r2 < n,
        c1 != c2 || r1 != r2,
    ensures
        c1 * n + r1 != c2 * n + r2,
{
    if c1 < c2 {
        assert(c1 * n + n <= c2 * n) by (nonlinear_arith)
            requires c1 < c2, 0 < n;
    } else if c2 < c1 {
        assert(c2 * n + n <= c1 * n) by (nonlinear_arith)
            requires c2 < c1, 0 < n;
    }
}

proof fn lemma_flat_bound(n: int, m: int, c: int, r: int)
    requires
        0 <= c < m,
        0 <= r < n,
    ensures
        0 <= c * n + r < m * n,
{
    assert(c * n + n <= m * n) by (nonlinear_arith)
        requires c < m, 0 <= r < n;
    assert(0 <= c * n) by (nonlinear_arith)
        requires 0 <= c, 0 <= r < n;
}

impl Region {
    pub closed spec fn num_advice(&self) -> nat {
        self.n_advice as nat
    }

    pub closed spec fn num_selectors(&self) -> nat {
        self.n_selectors as nat
    }

    pub closed spec fn num_rows(&self) -> nat {
        self.n_rows as nat
    }

    /// The table's storage matches its dimensions.
    pub closed spec fn wf(&self) -> bool {
        &&& self.cells.len() == self.n_advice * self.n_rows
        &&& self.enabled.len() == self.n_selectors * self.n_rows
        &&& forall|i: int| 0 <= i < self.cells.len() ==>
            match #[trigger] self.cells@[i] {
                Some(v) => v.wf(),
                None => true,
            }
    }

    /// The advice cell at column `c`, row `r`: `None` where nothing was
    /// written (and outside the table).
    pub closed spec fn cell(&self, c: int, r: int) -> Option<Value> {
        if 0 <= c < self.n_advice && 0 <= r < self.n_rows {
            self.cells@[c * self.n_rows + r]
        } else {
            None
        }
    }

    /// Whether selector `s` is enabled at row `r`.
    pub closed spec fn enabled_at(&self, s: int, r: int) -> bool {
        if 0 <= s < self.n_selectors && 0 <= r < self.n_rows {
            self.enabled@[s * self.n_rows + r]
        } else {
            false
        }
    }

    /// What the cell holds, seen as a field value: `None` when unwritten,
    /// `Some(None)` when written with an unknown value.
    pub open spec fn cell_view(&self, c: int, r: int) -> Option<Option<nat>> {
        match self.cell(c, r) {
            Some(v) => Some(v@),
            None => None,
        }
    }

    /// The known field value at column `c`, row `r`, if any.
    pub open spec fn known(&self, c: int, r: int) -> Option<nat> {
        match self.cell(c, r) {
            Some(v) => v@,
            None => None,
        }
    }

    /// The cell lies inside the table and was not written yet.
    pub open spec fn cell_free(&self, c: int, r: int) -> bool {
        &&& 0 <= c < self.num_advice()
        &&& 0 <= r < self.num_rows()
        &&& self.cell(c, r) is None
    }

    /// The selector bit lies inside the table and was not set yet.
    pub open spec fn selector_free(&self, s: int, r: int) -> bool {
        &&& 0 <= s < self.num_selectors()
        &&& 0 <= r < self.num_rows()
        &&& !self.enabled_at(s, r)
    }

    /// Nothing has been written.
    pub open spec fn is_fresh(&self) -> bool {
        &&& forall|c: int, r: int| #[trigger] self.cell(c, r) is None
        &&& forall|s: int, r: int| !#[trigger] self.enabled_at(s, r)
    }

    /// Two regions of the same dimensions hold the same contents.
    pub open spec fn same_contents(&self, other: &Region) -> bool {
        &&& self.num_advice() == other.num_advice()
        &&& self.num_selectors() == other.num_selectors()
        &&& self.num_rows() == other.num_rows()
        &&& forall|c: int, r: int| #[trigger] self.cell_view(c, r) == other.cell_view(c, r)
        &&& forall|s: int, r: int| #[trigger] self.enabled_at(s, r) == other.enabled_at(s, r)
    }

    /// An empty region with the given number of advice columns, selectors
    /// and rows.
    pub fn new(n_advice: usize, n_selectors: usize, n_rows: usize) -> (r: Region)
        requires
            n_advice * n_rows <= usize::MAX,
            n_selectors * n_rows <= usize::MAX,
        ensures
            r.wf(),
            r.is_fresh(),
            r.num_advice() == n_advice,
            r.num_selectors() == n_selectors,
            r.num_rows() == n_rows,
    {
        let total_cells: usize = n_advice * n_rows;
        let total_bits: usize = n_selectors * n_rows;
        let mut cells: Vec<Option<Value>> = Vec::new();
        let mut i: usize = 0;
        while i < total_cells
            invariant
                i <= total_cells,
                cells.len() == i,
                forall|j: int| 0 <= j < i ==> #[trigger] cells@[j] is None,
            decreases total_cells - i,
        {
            cells.push(None);
            i = i + 1;
        }
        let mut enabled: Vec<bool> = Vec::new();
        let mut i: usize = 0;
        while i < total_bits
            invariant
                i <= total_bits,
                enabled.len() == i,
                forall|j: int| 0 <= j < i ==> !#[trigger] enabled@[j],
            decreases total_bits - i,
        {
            enabled.push(false);
            i = i + 1;
        }
        let r = Region { n_advice, n_selectors, n_rows, cells, enabled };
        assert forall|c: int, row: int| #[trigger] r.cell(c, row) is None by {
            if 0 <= c < n_advice && 0 <= row < n_rows {
                lemma_flat_bound(n_rows as int, n_advice as int, c, row);
            }
        }
        assert forall|s: int, row: int| !#[trigger] r.enabled_at(s, row) by {
            if 0 <= s < n_selectors && 0 <= row < n_rows {
                lemma_flat_bound(n_rows as int, n_selectors as int, s, row);
            }
        }
        r
    }

    /// The advice cell at column `c`, row `r`.
    pub fn get_cell(&self, c: usize, r: usize) -> (v: Option<Value>)
        requires
            self.wf(),
        ensures
            v == self.cell(c as int, r as int),
    {
        if c < self.n_advice && r < self.n_rows {
            proof {
                lemma_flat_bound(self.n_rows as int, self.n_advice as int, c as int, r as int);
            }
            self.cells[c * self.n_rows + r]
        } else {
            None
        }
    }

    /// Whether selector `s` is enabled at row `r`.
    pub fn is_enabled(&self, s: usize, r: usize) -> (b: bool)
        requires
            self.wf(),
        ensures
            b == self.enabled_at(s as int, r as int),
    {
        if s < self.n_selectors && r < self.n_rows {
            proof {
                lemma_flat_bound(self.n_rows as int, self.n_selectors as int, s as int, r as int);
            }
            self.enabled[s * self.n_rows + r]
        } else {
            false
        }
    }

    /// Writes `v` into the advice cell at column `c`, row `r`. The write is
    /// refused, and nothing changes, where the cell lies outside the table or
    /// was written before.
    pub fn assign_advice(&mut self, c: usize, r: usize, v: Value) -> (res: Result<(), AssignmentError>)
        requires
            old(self).wf(),
            v.wf(),
        ensures
            final(self).wf(),
            final(self).num_advice() == old(self).num_advice(),
            final(self).num_selectors() == old(self).num_selectors(),
            final(self).num_rows() == old(self).num_rows(),
            res is Ok <==> old(self).cell_free(c as int, r as int),
            res is Err ==> res == Err::<(), AssignmentError>(AssignmentError::CellRejected),
            res is Err ==> *final(self) == *old(self),
            forall|c2: int, r2: int| #[trigger] final(self).cell(c2, r2) == if res is Ok && c2 == c && r2 == r {
                Some(v)
            } else {
                old(self).cell(c2, r2)
            },
            forall|s: int, r2: int| #[trigger] final(self).enabled_at(s, r2) == old(self).enabled_at(s, r2),
    {
        if c < self.n_advice && r < self.n_rows {
            proof {
                lemma_flat_bound(self.n_rows as int, self.n_advice as int, c as int, r as int);
            }
            let idx: usize = c * self.n_rows + r;
            if self.cells[idx].is_some() {
                return Err(AssignmentError::CellRejected);
            }
            let ghost before = *self;
            self.cells.set(idx, Some(v));
            proof {
                assert forall|c2: int, r2: int| #[trigger] self.cell(c2, r2) == if c2 == c && r2 == r {
                    Some(v)
                } else {
                    before.cell(c2, r2)
                } by {
                    if 0 <= c2 < self.n_advice && 0 <= r2 < self.n_rows {
                        lemma_flat_bound(self.n_rows as int, self.n_advice as int, c2, r2);
                        if c2 != c || r2 != r {
                            lemma_flat_index(self.n_rows as int, c as int, r as int, c2, r2);
                        }
                    }
                }
            }
            Ok(())
        } else {
            Err(AssignmentError::CellRejected)
        }
    }

    /// Enables selector `s` at row `r`. The write is refused, and nothing
    /// changes, where the bit lies outside the table or was set before.
    pub fn enable_selector(&mut self, s: usize, r: usize) -> (res: Result<(), AssignmentError>)
        requires
            old(self).wf(),
        ensures
            final(self).wf(),
            final(self).num_advice() == old(self).num_advice(),
            final(self).num_selectors() == old(self).num_selectors(),
            final(self).num_rows() == old(self).num_rows(),
            res is Ok <==> old(self).selector_free(s as int, r as int),
            res is Err ==> res == Err::<(), AssignmentError>(AssignmentError::CellRejected),
            res is Err ==> *final(self) == *old(self),
            forall|c2: int, r2: int| #[trigger] final(self).cell(c2, r2) == old(self).cell(c2, r2),
            forall|s2: int, r2: int| #[trigger] final(self).enabled_at(s2, r2) == ((res is Ok && s2 == s
                && r2 == r) || old(self).enabled_at(s2, r2)),
    {
        if s < self.n_selectors && r < self.n_rows {
            proof {
                lemma_flat_bound(self.n_rows as int, self.n_selectors as int, s as int, r as int);
            }
            let idx: usize = s * self.n_rows + r;
            if self.enabled[idx] {
                return Err(AssignmentError::CellRejected);
            }
            let ghost before = *self;
            self.enabled.set(idx, true);
            proof {
                assert forall|s2: int, r2: int| #[trigger] self.enabled_at(s2, r2) == ((s2 == s
                    && r2 == r) || before.enabled_at(s2, r2)) by {
                    if 0 <= s2 < self.n_selectors && 0 <= r2 < self.n_rows {
                        lemma_flat_bound(self.n_rows as int, self.n_selectors as int, s2, r2);
                        if s2 != s || r2 != r {
                            lemma_flat_index(self.n_rows as int, s as int, r as int, s2, r2);
                        }
                    }
                }
            }
            Ok(())
        } else {
            Err(AssignmentError::CellRejected)
        }
    }
}

} // verus!

verus! {

impl Region {
    /// Whether rows `start .. start + count` of advice column `c` are all
    /// inside the table and unwritten.
    pub fn column_free(&self, c: usize, start: usize, count: usize) -> (b: bool)
        requires
            self.wf(),
            start + count <= usize::MAX,
        ensures
            b <==> forall|t: int| start <= t < start + count ==> #[trigger] self.cell_free(c as int, t),
    {
        let mut i: usize = start;
        while i < start + count
            invariant
                start <= i <= start + count,
                self.wf(),
                start + count <= usize::MAX,
                forall|t: int| start <= t < i ==> #[trigger] self.cell_free(c as int, t),
            decreases start + count - i,
        {
            if c >= self.n_advice || i >= self.n_rows || self.get_cell(c, i).is_some() {
                assert(!self.cell_free(c as int, i as int));
                return false;
            }
            i = i + 1;
        }
        true
    }

    /// Whether selector `s` is unset, inside the table, at rows
    /// `start .. start + count`.
    pub fn selector_run_free(&self, s: usize, start: usize, count: usize) -> (b: bool)
        requires
            self.wf(),
            start + count <= usize::MAX,
        ensures
            b <==> forall|t: int| start <= t < start + count ==> #[trigger] self.selector_free(s as int, t),
    {
        let mut i: usize = start;
        while i < start + count
            invariant
                start <= i <= start + count,
                self.wf(),
                start + count <= usize::MAX,
                forall|t: int| start <= t < i ==> #[trigger] self.selector_free(s as int, t),
            decreases start + count - i,
        {
            if s >= self.n_selectors || i >= self.n_rows || self.is_enabled(s, i) {
                assert(!self.selector_free(s as int, i as int));
                return false;
            }
            i = i + 1;
        }
        true
    }

    /// Writes `vals[t]`, as a known value, at row `start + t` of advice column
    /// `c`. Where one of those cells is outside the table or was written
    /// before, nothing is written and the call fails.
    pub fn assign_column(&mut self, c: usize, start: usize, vals: &Vec<Fe>) -> (res: Result<(), AssignmentError>)
        requires
            old(self).wf(),
            start + vals.len() <= usize::MAX,
            forall|t: int| 0 <= t < vals.len() ==> (#[trigger] vals@[t]).wf(),
        ensures
            final(self).wf(),
            final(self).num_advice() == old(self).num_advice(),
            final(self).num_selectors() == old(self).num_selectors(),
            final(self).num_rows() == old(self).num_rows(),
            res is Ok <==> forall|t: int| start <= t < start + vals.len() ==> #[trigger] old(self).cell_free(c as int, t),
            res is Err ==> res == Err::<(), AssignmentError>(AssignmentError::CellRejected),
            res is Err ==> *final(self) == *old(self),
            res is Ok ==> forall|c2: int, r2: int| #[trigger] final(self).cell(c2, r2) == if c2 == c && start <= r2 < start + vals.len() {
                Some(Value::Known(vals@[r2 - start]))
            } else {
                old(self).cell(c2, r2)
            },
            forall|s: int, r2: int| #[trigger] final(self).enabled_at(s, r2) == old(self).enabled_at(s, r2),
    {
        if !self.column_free(c, start, vals.len()) {
            return Err(AssignmentError::CellRejected);
        }
        let ghost before = *self;
        let mut t: usize = 0;
        while t < vals.len()
            invariant
                t <= vals.len(),
                start + vals.len() <= usize::MAX,
                forall|i: int| 0 <= i < vals.len() ==> (#[trigger] vals@[i]).wf(),
                forall|i: int| start <= i < start + vals.len() ==> #[trigger] before.cell_free(c as int, i),
                self.wf(),
                self.num_advice() == before.num_advice(),
                self.num_selectors() == before.num_selectors(),
                self.num_rows() == before.num_rows(),
                forall|c2: int, r2: int| #[trigger] self.cell(c2, r2) == if c2 == c && start <= r2 < start + t {
                    Some(Value::Known(vals@[r2 - start]))
                } else {
                    before.cell(c2, r2)
                },
                forall|s: int, r2: int| #[trigger] self.enabled_at(s, r2) == before.enabled_at(s, r2),
            decreases vals.len() - t,
        {
            assert(before.cell_free(c as int, start + t));
            let r = self.assign_advice(c, start + t, Value::Known(vals[t]));
            assert(r is Ok);
            t = t + 1;
        }
        Ok(())
    }

    /// Enables selector `s` at rows `start .. start + count`. Where one of
    /// those bits is outside the table or was set before, nothing is written
    /// and the call fails.
    pub fn enable_run(&mut self, s: usize, start: usize, count: usize) -> (res: Result<(), AssignmentError>)
        requires
            old(self).wf(),
            start + count <= usize::MAX,
        ensures
            final(self).wf(),
            final(self).num_advice() == old(self).num_advice(),
            final(self).num_selectors() == old(self).num_selectors(),
            final(self).num_rows() == old(self).num_rows(),
            res is Ok <==> forall|t: int| start <= t < start + count ==> #[trigger] old(self).selector_free(s as int, t),
            res is Err ==> res == Err::<(), AssignmentError>(AssignmentError::CellRejected),
            res is Err ==> *final(self) == *old(self),
            forall|c2: int, r2: int| #[trigger] final(self).cell(c2, r2) == old(self).cell(c2, r2),
            res is Ok ==> forall|s2: int, r2: int| #[trigger] final(self).enabled_at(s2, r2) == ((s2 == s
                && start <= r2 < start + count) || old(self).enabled_at(s2, r2)),
    {
        if !self.selector_run_free(s, start, count) {
            return Err(AssignmentError::CellRejected);
        }
        let ghost before = *self;
        let mut t: usize = start;
        while t < start + count
            invariant
                start <= t <= start + count,
                start + count <= usize::MAX,
                forall|i: int| start <= i < start + count ==> #[trigger] before.selector_free(s as int, i),
                self.wf(),
                self.num_advice() == before.num_advice(),
                self.num_selectors() == before.num_selectors(),
                self.num_rows() == before.num_rows(),
                forall|c2: int, r2: int| #[trigger] self.cell(c2, r2) == before.cell(c2, r2),
                forall|s2: int, r2: int| #[trigger] self.enabled_at(s2, r2) == ((s2 == s && start <= r2 < t)
                    || before.enabled_at(s2, r2)),
            decreases start + count - t,
        {
            assert(before.selector_free(s as int, t as int));
            let r = self.enable_selector(s, t);
            assert(r is Ok);
            t = t + 1;
        }
        Ok(())
    }
}

} // verus!
