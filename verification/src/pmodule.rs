//! WhyML program modules: the attribute that marks reference variables.

use vstd::prelude::*;

use crate::ident::{attribute_of, Attribute};

verus! {

/// The attribute `mlw:reference_var`, which marks a variable declared as a
/// reference, as in `let ref x = ..`.
pub fn ref_attr() -> (a: Attribute)
    ensures
        a.text() == "mlw:reference_var"@,
{
    attribute_of("mlw:reference_var")
}

} // verus!
