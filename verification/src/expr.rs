//! Kinds of routine symbols, assertions and `for` loops of WhyML programs.

use vstd::prelude::*;

verus! {

#[derive(Clone, Copy, PartialEq, Eq, Hash, Debug, Structural)]
pub enum RsKind {
    /// non-pure symbol
    NonPure,
    /// local let-function
    Local,
    /// top-level let-function
    Func,
    /// top-level let-predicate
    Pred,
    /// top-level or local let-lemma
    Lemma,
}

#[derive(Clone, Copy, PartialEq, Eq, Hash, Debug, Structural)]
pub enum AssertionKind {
    Assert,
    Assume,
    Check,
}

#[derive(Clone, Copy, PartialEq, Eq, Hash, Debug, Structural)]
pub enum ForDirection {
    To,
    DownTo,
}

} // verus!
