//! Binary connectives and quantifiers of terms and formulas.

use vstd::prelude::*;

verus! {

#[derive(Clone, Copy, PartialEq, Eq, Hash, Debug, Structural)]
pub enum Dbinop {
    And,
    AndAsym,
    Or,
    OrAsym,
    Implies,
    Iff,
    By,
    So,
}

#[derive(Clone, Copy, PartialEq, Eq, Hash, Debug, Structural)]
pub enum Dquant {
    Forall,
    Exists,
    Lambda,
}

} // verus!
