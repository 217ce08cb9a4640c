//! Logic declarations: inductive predicate signs and proposition kinds.

use vstd::prelude::*;

verus! {

#[derive(Clone, Copy, PartialEq, Eq, Hash, Debug, Structural)]
pub enum IndSign {
    Ind,
    Coind,
}

#[derive(Clone, Copy, PartialEq, Eq, Hash, Debug, Structural)]
pub enum PropKind {
    /// prove, use as a premise
    Lemma,
    /// do not prove, use as a premise
    Axiom,
    /// prove, do not use as a premise
    Goal,
}

} // verus!
