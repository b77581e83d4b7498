//! Two arithmetizations of a one-dimensional dot product and convolution:
//! a per-row recurrence gate and a single wide window gate. Each design has a
//! schema builder that registers columns, selectors and gates, and a witness
//! assigner that fills a region so that every enabled gate holds.

pub mod field;
pub mod value;
pub mod region;
pub mod dot;
pub mod schema;
pub mod acc_dot;
pub mod acc_conv;
pub mod one_gate_cnn;
pub mod theorems;
pub mod input;
