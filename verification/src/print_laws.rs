//! What the printers promise of markers and of unique dummy locations.

use vstd::prelude::*;

use crate::doc::{at, sp, Layout};
use crate::expr_spec::{expr_marked, expr_raw};
use crate::loc::{FileTags, Position};
use crate::mlw_printer::PrintCtx;
use crate::mlw_spec::{marker_of, pat_marked, pat_raw};
use crate::ptree::{Expr, Pattern, Term};
use crate::term_spec::{term_marked, term_raw};

verus! {

/// What the printers lay out before a node at `loc` whose text is `raw`,
/// when no location identifier is asked for: the marker's message in a
/// comment and the node in parentheses if the marker is at `loc`, the node
/// alone otherwise.
pub open spec fn marked_text(c: PrintCtx, loc: Position, raw: Seq<Layout>) -> Seq<Layout> {
    match c.marker {
        Some((m, l)) => if l == loc {
            at("(*"@ + m@ + "*)"@) + sp() + at("("@) + raw + at(")"@)
        } else {
            raw
        },
        None => raw,
    }
}

/// A term at the marker's location is printed after the marker's message,
/// in parentheses; any other term is printed as it is.
pub proof fn law_marker_term(c: PrintCtx, attr: bool, t: Term)
    requires
        !c.print_ids,
        c.only_ids is None,
    ensures
        term_marked(c, attr, t) == marked_text(c, t.loc, term_raw(c, attr, t)),
{
    assert(term_marked(c, attr, t) =~= marked_text(c, t.loc, term_raw(c, attr, t)));
}

/// An expression at the marker's location is printed after the marker's
/// message, in parentheses; any other expression is printed as it is.
pub proof fn law_marker_expr(c: PrintCtx, attr: bool, e: Expr)
    requires
        !c.print_ids,
        c.only_ids is None,
    ensures
        expr_marked(c, attr, e) == marked_text(c, e.loc, expr_raw(c, attr, e)),
{
    assert(expr_marked(c, attr, e) =~= marked_text(c, e.loc, expr_raw(c, attr, e)));
}

/// A pattern at the marker's location is printed after the marker's message,
/// in parentheses; any other pattern is printed as it is.
pub proof fn law_marker_pattern(c: PrintCtx, attr: bool, p: Pattern)
    requires
        !c.print_ids,
        c.only_ids is None,
    ensures
        pat_marked(c, attr, p) == marked_text(c, p.loc, pat_raw(c, attr, p)),
{
    assert(pat_marked(c, attr, p) =~= marked_text(c, p.loc, pat_raw(c, attr, p)));
}

/// Registering a file name that is registered already gives back its tag:
/// a name has one tag.
pub proof fn law_file_tag_unique(t: FileTags, f: Seq<char>, tag1: int, tag2: int)
    requires
        0 <= tag1 < t.names().len(),
        0 <= tag2 < t.names().len(),
        t.names()[tag1] == f,
        t.names()[tag2] == f,
        forall|j: int| 0 <= j < tag1 ==> t.names()[j] != f,
        forall|j: int| 0 <= j < tag2 ==> t.names()[j] != f,
    ensures
        tag1 == tag2,
{
}

/// The unique dummy locations are recognized as such: they are in the file
/// with the empty name.
pub proof fn law_id_loc_recognized(t: FileTags, p: Position)
    requires
        t.wf(),
        p.tag() == 0,
    ensures
        0 <= p.tag() < t.names().len(),
        t.names()[p.tag() as int].len() == 0,
{
}

/// Unique dummy locations made at different counts differ: two successive
/// calls of [`crate::mlw_printer::id_loc`] give different locations.
pub proof fn law_id_locs_differ(p1: Position, p2: Position)
    requires
        p1.start_line() != p2.start_line(),
    ensures
        p1 != p2,
{
}

/// A registered name gives back its file: the tag that registration gives
/// names that file, and two different names never share a tag.
pub proof fn law_file_tag_names_file(t: FileTags, f1: Seq<char>, f2: Seq<char>, tag1: int, tag2: int)
    requires
        0 <= tag1 < t.names().len(),
        0 <= tag2 < t.names().len(),
        t.names()[tag1] == f1,
        t.names()[tag2] == f2,
        f1 != f2,
    ensures
        tag1 != tag2,
{
}

} // verus!
