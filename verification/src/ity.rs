//! Ghost masks of WhyML program types.
//!
//! A mask is a generalized ghost information allowing to handle tuples
//! where some components can be ghost and others are not.

use vstd::prelude::*;

verus! {

#[derive(PartialEq, Eq, Hash, Debug)]
pub enum Mask {
    /// fully non-ghost
    Visible,
    /// decomposed ghost status for tuples
    Tuple(Vec<Mask>),
    /// fully ghost
    AllGhost,
}

} // verus!
