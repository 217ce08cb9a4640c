//! Helpers for laying documents out.

use vstd::prelude::*;

use crate::doc::{at, sp, Doc};

verus! {

/// Lays `x` out with `f`, if there is one; lays nothing out otherwise.
pub fn print_option<T, F: Fn(T) -> Doc>(f: F, doc: &mut Doc, x: Option<T>)
    requires
        x matches Some(v) ==> call_requires(f, (v,)),
    ensures
        x is None ==> final(doc)@ == old(doc)@,
        x matches Some(v) ==> exists|d: Doc|
            call_ensures(f, (v,), d) && #[trigger] final(doc)@ == old(doc)@ + d@,
{
    match x {
        Some(v) => {
            let d = f(v);
            let ghost dd = d;
            doc.extend(d);
            assert(doc@ == old(doc)@ + dd@);
        },
        None => {},
    }
}

/// A comma, then a breaking space.
pub fn comma(doc: &mut Doc)
    ensures
        final(doc)@ == old(doc)@ + at(","@) + sp(),
{
    doc.atom(",");
    doc.space();
}

} // verus!
