//! Small shared types.
use vstd::prelude::*;

verus! {

/// How children are placed along an axis.
#[derive(Debug, Clone, Copy, PartialEq, Eq, Structural)]
pub enum Alignment {
    Start,
    Center,
    End,
    Stretch,
}

} // verus!
