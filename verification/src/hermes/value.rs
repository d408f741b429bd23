//! The kinds of Hermes values.

use vstd::prelude::*;

use crate::float::Float64;
use crate::hermes::{ArrayValue, BytesValue, EnumValue, ObjectValue};

verus! {

/// A value of one of the Hermes kinds.
#[derive(Debug)]
pub enum Value {
    I(i64),
    U(u64),
    F(Float64),
    B(bool),
    S(String),
    E(EnumValue),
    O(ObjectValue),
    A(ArrayValue),
    R(BytesValue),
}

} // verus!
