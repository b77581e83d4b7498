//! A cell value that may not be known yet, with arithmetic lifted over it.

use vstd::prelude::*;
use crate::field::{Fe, fadd, fmul};

verus! {

/// A field value that is either known or not known yet. Any operation that
/// touches an unknown value yields an unknown value.
#[derive(Clone, Copy, Debug)]
pub enum Value {
    Unknown,
    Known(Fe),
}

impl View for Value {
    type V = Option<nat>;

    open spec fn view(&self) -> Option<nat> {
        match self {
            Value::Unknown => None,
            Value::Known(x) => Some(x@),
        }
    }
}

impl Value {
    /// Every known value is a canonical field element.
    pub open spec fn wf(&self) -> bool {
        match self {
            Value::Unknown => true,
            Value::Known(x) => x.wf(),
        }
    }

    /// Lifted field addition.
    pub fn add(&self, other: &Value) -> (r: Value)
        requires
            self.wf(),
            other.wf(),
        ensures
            r.wf(),
            r@ == match (self@, other@) {
                (Some(a), Some(b)) => Some(fadd(a, b)),
                _ => None::<nat>,
            },
    {
        match (self, other) {
            (Value::Known(a), Value::Known(b)) => Value::Known(a.add(b)),
            _ => Value::Unknown,
        }
    }

    /// Lifted field multiplication.
    pub fn mul(&self, other: &Value) -> (r: Value)
        requires
            self.wf(),
            other.wf(),
        ensures
            r.wf(),
            r@ == match (self@, other@) {
                (Some(a), Some(b)) => Some(fmul(a, b)),
                _ => None::<nat>,
            },
    {
        match (self, other) {
            (Value::Known(a), Value::Known(b)) => Value::Known(a.mul(b)),
            _ => Value::Unknown,
        }
    }
}

} // verus!
