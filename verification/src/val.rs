use vstd::prelude::*;

verus! {

/// A value produced by evaluation: either an integer or the unit value.
#[derive(Debug, PartialEq, Eq, Structural, Clone, Copy)]
pub enum Val {
    Number(i32),
    Unit,
}

} // verus!
