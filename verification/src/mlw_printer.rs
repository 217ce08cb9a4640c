//! # Pretty printing of parse trees as WhyML source code
//!
//! The printers lay a tree out in a [`Doc`]; its layout is the one that
//! the spec functions of [`crate::mlw_spec`] give.
//!
//! ## Markers
//!
//! When parse trees are generated (instead of being parsed from a WhyML
//! file), locations of typing errors are useless, because they do not
//! correspond to any concrete syntax. Every element can instead be given a
//! unique location, for example with [`id_loc`]; a located error
//! can then be shown by printing the tree with a marker at that location
//! ([`PrintCtx::with_marker`]): the message is printed as a comment just
//! before the expression, term, or pattern with the given location.

use vstd::prelude::*;

use crate::doc::{at, views, BoxKind, Doc, Layout};
use crate::ident::{find_char, sn_decode, Notation};
use crate::loc::{get, max_line, user_position, FileTags, Position};
use crate::mlw_spec::{
    app_layout, app_shape, arg_marked, attr_kept, attr_layout, attrs_parts, decode_text, ident,
    ident_rm, loc_id, lowercase_start, marker_of, maybe_marked, maybe_marker, opt_marker,
    parens_unless, pty_closed, pty_is_closed, pty_raw, ptys_closed, qualid, qualid_ids,
    scope_layout, tuple_layout, wf_pty, wf_ptys, AppShape, pat_is_closed, pat_raw, pat_marked,
    pat_closed, pats_closed, pats_args, pat_fields, wf_pat, wf_pats, wf_pat_fields, ghost_layout,
};
use crate::ptree::{Attr, Ident, PatDesc, Pattern, Pty, Qualid};
use crate::text;

pub use crate::print_decl::{attrs_shown, pp_decl, pp_decls, pp_mlw_file};
pub use crate::print_expr::{pp_expr, pp_expr_closed};
pub use crate::print_term::{pp_binders, pp_comma_binders, pp_term, pp_term_closed};

verus! {

/// What the printers read besides the tree: the marker, whether to print the
/// identifiers of unique dummy locations, and the file names of locations.
pub struct PrintCtx {
    /// message and location of the marker
    pub marker: Option<(String, Position)>,
    /// print the identifiers of all unique dummy locations
    pub print_ids: bool,
    /// print the identifiers of these unique dummy locations
    pub only_ids: Option<Vec<isize>>,
    /// the file names of locations
    pub files: FileTags,
}

impl PrintCtx {
    /// A context with no marker, that prints no location identifiers.
    pub fn new(files: FileTags) -> (c: PrintCtx)
        ensures
            c.marker is None,
            !c.print_ids,
            c.only_ids is None,
            c.files == files,
    {
        PrintCtx { marker: None, print_ids: false, only_ids: None, files }
    }

    /// The same context, with a marker: the message (by default `XXX`) is
    /// printed as a comment before the expression, term, or pattern with the
    /// given location.
    pub fn with_marker(self, msg: Option<String>, loc: Position) -> (c: PrintCtx)
        ensures
            c.marker matches Some((m, l)) && l == loc && m@ == match msg {
                Some(s) => s@,
                None => "XXX"@,
            },
            c.print_ids == self.print_ids,
            c.only_ids == self.only_ids,
            c.files == self.files,
    {
        let m = match msg {
            Some(s) => s,
            None => String::from_str("XXX"),
        };
        PrintCtx {
            marker: Some((m, loc)),
            print_ids: self.print_ids,
            only_ids: self.only_ids,
            files: self.files,
        }
    }
}

/// The counter of the unique dummy locations made so far.
pub struct IdLocs {
    count: isize,
}

impl IdLocs {
    pub closed spec fn count(&self) -> isize {
        self.count
    }

    /// The number of unique locations made so far.
    pub fn made(&self) -> (n: isize)
        ensures
            n == self.count(),
    {
        self.count
    }

    /// No unique location made yet.
    pub fn new() -> (c: IdLocs)
        ensures
            c.count() == 0,
    {
        IdLocs { count: 0 }
    }
}

/// A unique dummy location: in the file with the empty name, at line and
/// character 0 of the line numbered by the count of those made so far.
pub fn id_loc(counter: &mut IdLocs, tags: &mut FileTags) -> (p: Position)
    requires
        0 <= old(counter).count() < max_line(),
        old(tags).wf(),
    ensures
        final(counter).count() == old(counter).count() + 1,
        final(tags).names() == old(tags).names(),
        final(tags).wf(),
        p.tag() == 0,
        p.start_line() == final(counter).count(),
        p.end_line() == final(counter).count(),
        p.start_col() == 0,
        p.end_col() == 0,
{
    counter.count = counter.count + 1;
    let ghost before = *tags;
    proof {
        reveal_strlit("");
        assert(tags.names()[0] == ""@);
        assert(tags.names().contains(""@));
        crate::loc::lemma_limits();
    }
    let p = user_position(tags, "", counter.count, 0, counter.count, 0);
    proof {
        if p.tag() != 0 {
            assert(tags.names()[0] != ""@);
        }
    }
    p
}

/// Whether `loc` is in the file with the empty name, as the unique dummy
/// locations are.
pub fn is_id_loc(tags: &FileTags, loc: Position) -> (b: bool)
    requires
        0 <= loc.tag() < tags.names().len(),
    ensures
        b == (tags.names()[loc.tag() as int].len() == 0),
{
    let (f, _, _, _, _) = get(tags, loc);
    f.unicode_len() == 0
}

// ------------------------------------- the identifiers of dummy locations

pub open spec fn is_digit(c: char) -> bool {
    '0' <= c <= '9'
}

/// The value of the decimal digits `d`.
pub open spec fn digits_value(d: Seq<char>) -> int
    decreases d.len(),
{
    if d.len() == 0 {
        0
    } else {
        digits_value(d.drop_last()) * 10 + (d.last() as int - '0' as int)
    }
}

/// `f` without its sign, if it has one.
pub open spec fn unsigned_part(f: Seq<char>) -> Seq<char> {
    if f.len() > 0 && (f[0] == '-' || f[0] == '+') {
        f.skip(1)
    } else {
        f
    }
}

pub open spec fn all_digits(d: Seq<char>) -> bool {
    forall|i: int| 0 <= i < d.len() ==> is_digit(#[trigger] d[i])
}

/// The integer that `f` writes in decimal, after an optional sign, if it
/// fits in an `isize`.
pub open spec fn field_value(f: Seq<char>) -> Option<int> {
    let d = unsigned_part(f);
    let v = if f.len() > 0 && f[0] == '-' {
        -digits_value(d)
    } else {
        digits_value(d)
    };
    if d.len() > 0 && all_digits(d) && isize::MIN <= v <= isize::MAX {
        Some(v)
    } else {
        None
    }
}

pub proof fn lemma_find_char_range(s: Seq<char>, c: char, i: int)
    requires
        0 <= i,
    ensures
        find_char(s, c, i) == -1 || (i <= find_char(s, c, i) < s.len() && s[find_char(s, c, i)] == c),
    decreases s.len() - i,
{
    if 0 <= i < s.len() && s[i] != c {
        lemma_find_char_range(s, c, i + 1);
    }
}

/// The integers of the comma-separated fields of `s` from `i` on, if each
/// field writes one.
pub open spec fn ids_from(s: Seq<char>, i: int) -> Option<Seq<isize>>
    decreases s.len() - i,
    when 0 <= i <= s.len()
{
    let j = find_char(s, ',', i);
    proof {
        lemma_find_char_range(s, ',', i);
    }
    let end = if j < 0 {
        s.len() as int
    } else {
        j
    };
    match field_value(s.subrange(i, end)) {
        None => None,
        Some(x) => if j < 0 {
            Some(seq![x as isize])
        } else {
            match ids_from(s, j + 1) {
                None => None,
                Some(xs) => Some(seq![x as isize] + xs),
            }
        },
    }
}

proof fn lemma_digits_nonneg(d: Seq<char>, i: int)
    requires
        0 <= i <= d.len(),
        forall|k: int| 0 <= k < d.len() ==> is_digit(#[trigger] d[k]),
    ensures
        0 <= digits_value(d.take(i)),
    decreases i,
{
    if i > 0 {
        lemma_digits_nonneg(d, i - 1);
        assert(d.take(i).drop_last() =~= d.take(i - 1));
    }
}

proof fn lemma_digits_grow(d: Seq<char>, i: int, j: int)
    requires
        0 <= i <= j <= d.len(),
        forall|k: int| 0 <= k < d.len() ==> is_digit(#[trigger] d[k]),
    ensures
        digits_value(d.take(i)) <= digits_value(d.take(j)),
    decreases j - i,
{
    if i < j {
        lemma_digits_grow(d, i, j - 1);
        lemma_digits_nonneg(d, j - 1);
        assert(d.take(j).drop_last() =~= d.take(j - 1));
    }
}

fn find_comma(v: &Vec<char>, i: usize) -> (r: Option<usize>)
    requires
        i <= v@.len(),
    ensures
        match r {
            Some(j) => find_char(v@, ',', i as int) == j as int,
            None => find_char(v@, ',', i as int) == -1,
        },
    decreases v@.len() - i,
{
    if i == v.len() {
        None
    } else if v[i] == ',' {
        Some(i)
    } else {
        find_comma(v, i + 1)
    }
}

fn field_value_exec(v: &Vec<char>, from: usize, to: usize) -> (r: Option<isize>)
    requires
        from <= to <= v@.len(),
    ensures
        match r {
            Some(x) => field_value(v@.subrange(from as int, to as int)) == Some(x as int),
            None => field_value(v@.subrange(from as int, to as int)) is None,
        },
{
    let ghost f = v@.subrange(from as int, to as int);
    let mut i = from;
    let neg = i < to && v[i] == '-';
    if i < to && (v[i] == '-' || v[i] == '+') {
        i += 1;
    }
    let ghost d = v@.subrange(i as int, to as int);
    proof {
        if from < to && (f[0] == '-' || f[0] == '+') {
            assert(d =~= f.skip(1));
        } else {
            assert(d =~= f);
        }
    }
    if i == to {
        return None;
    }
    let start = i;
    let bound: u128 = (isize::MAX as u128) + 1;
    let mut m: u128 = 0;
    while i < to
        invariant
            start <= i <= to <= v@.len(),
            d == v@.subrange(start as int, to as int),
            f == v@.subrange(from as int, to as int),
            d == unsigned_part(f),
            neg == (f.len() > 0 && f[0] == '-'),
            d.len() > 0,
            forall|k: int| 0 <= k < i - start ==> is_digit(#[trigger] d[k]),
            m as int == digits_value(d.take(i - start)),
            m <= bound,
            bound == isize::MAX + 1,
        decreases to - i,
    {
        let c = v[i];
        if !('0' <= c && c <= '9') {
            assert(!is_digit(d[i - start]));
            assert(!all_digits(d));
            return None;
        }
        proof {
            assert(d.take(i - start + 1).drop_last() =~= d.take(i - start));
        }
        m = m * 10 + ((c as u32) - 48) as u128;
        i += 1;
        if m > bound {
            proof {
                if all_digits(d) {
                    lemma_digits_grow(d, i - start, d.len() as int);
                    assert(d.take(d.len() as int) =~= d);
                }
            }
            return None;
        }
    }
    proof {
        assert(d.take(i - start) =~= d);
    }
    if neg {
        if m <= bound {
            Some((-(m as i128)) as isize)
        } else {
            None
        }
    } else {
        if m < bound {
            Some(m as isize)
        } else {
            None
        }
    }
}

fn ids_from_exec(v: &Vec<char>, i: usize) -> (r: Option<Vec<isize>>)
    requires
        i <= v@.len(),
    ensures
        match r {
            Some(xs) => ids_from(v@, i as int) == Some(xs@),
            None => ids_from(v@, i as int) is None,
        },
    decreases v@.len() - i,
{
    let n = v.len();
    let j = find_comma(v, i);
    proof {
        lemma_find_char_range(v@, ',', i as int);
    }
    let end = match j {
        Some(j) => j,
        None => v.len(),
    };
    let x = match field_value_exec(v, i, end) {
        Some(x) => x,
        None => return None,
    };
    match j {
        None => {
            let mut r = Vec::new();
            r.push(x);
            assert(r@ =~= seq![x]);
            Some(r)
        },
        Some(j) => {
            assert(j < n);
            match ids_from_exec(v, j + 1) {
                None => None,
                Some(xs) => {
                    let mut r = Vec::new();
                    r.push(x);
                    let mut xs = xs;
                    let ghost tail = xs@;
                    r.append(&mut xs);
                    assert(r@ =~= seq![x] + tail);
                    Some(r)
                },
            }
        },
    }
}

/// The identifiers of dummy locations to print, written as a comma-separated
/// list of decimal integers (as the environment may give them), if every
/// field is one.
pub fn parse_ids(s: &str) -> (r: Option<Vec<isize>>)
    ensures
        match r {
            Some(xs) => ids_from(s@, 0) == Some(xs@),
            None => ids_from(s@, 0) is None,
        },
{
    let v = crate::ident::chars_of(s);
    ids_from_exec(&v, 0)
}

pub(crate) fn new_doc() -> (d: Doc)
    ensures
        d@ == Seq::<Layout>::empty(),
{
    Doc::new()
}

pub(crate) fn doc_of(s: &str) -> (d: Doc)
    ensures
        d@ == at(s@),
{
    let mut d = Doc::new();
    d.atom(s);
    d
}

pub(crate) fn space_doc() -> (d: Doc)
    ensures
        d@ == crate::doc::sp(),
{
    let mut d = Doc::new();
    d.space();
    d
}

pub(crate) fn marker_msg(ctx: &PrintCtx, loc: Position) -> (r: Option<&String>)
    ensures
        r is None <==> marker_of(*ctx, loc) is None,
        r matches Some(m) ==> marker_of(*ctx, loc) == Some(m@),
{
    match &ctx.marker {
        Some((m, l)) => if *l == loc {
            Some(m)
        } else {
            None
        },
        None => None,
    }
}

pub(crate) fn has_marker(ctx: &PrintCtx, loc: Position) -> (b: bool)
    ensures
        b == marker_of(*ctx, loc) is Some,
{
    marker_msg(ctx, loc).is_some()
}

fn contains_isize(v: &Vec<isize>, x: isize) -> (b: bool)
    ensures
        b == v@.contains(x),
{
    let mut i: usize = 0;
    while i < v.len()
        invariant
            i <= v@.len(),
            forall|j: int| 0 <= j < i ==> v@[j] != x,
        decreases v@.len() - i,
    {
        if v[i] == x {
            assert(v@[i as int] == x);
            return true;
        }
        i += 1;
    }
    false
}

pub(crate) fn pp_loc_id(ctx: &PrintCtx, doc: &mut Doc, loc: Position)
    ensures
        final(doc)@ == old(doc)@ + loc_id(*ctx, loc),
{
    let f = ctx.files.name_of_tag(loc.file_tag());
    let dummy = f.unicode_len() == 0;
    let (bl, bc, _el, ec) = loc.parts();
    let only = dummy && match &ctx.only_ids {
        Some(v) => contains_isize(v, bl),
        None => false,
    };
    if (ctx.print_ids || only) && dummy && bc == 0 && ec == 0 {
        let mut s = String::from_str("(*");
        s.append(text::isize_to_string(bl).as_str());
        s.append("*)");
        doc.atom_string(s);
    }
}

/// Prints the marker's message, if the marker is at `loc`.
pub fn pp_maybe_marker(ctx: &PrintCtx, doc: &mut Doc, loc: Position)
    ensures
        final(doc)@ == old(doc)@ + maybe_marker(*ctx, loc),
{
    pp_loc_id(ctx, doc, loc);
    match marker_msg(ctx, loc) {
        Some(m) => {
            let mut s = String::from_str("(*");
            s.append(m.as_str());
            s.append("*) ");
            doc.atom_string(s);
        },
        None => {},
    }
}

pub(crate) fn pp_opt_marker(ctx: &PrintCtx, doc: &mut Doc, oloc: Option<Position>)
    ensures
        final(doc)@ == old(doc)@ + opt_marker(*ctx, oloc),
{
    match oloc {
        Some(l) => pp_maybe_marker(ctx, doc, l),
        None => {},
    }
}

/// Appends `raw`, with the marker's message before it in parentheses if the
/// marker is at `loc`.
pub(crate) fn pp_maybe_marked(ctx: &PrintCtx, doc: &mut Doc, loc: Position, raw: Doc)
    ensures
        final(doc)@ == old(doc)@ + maybe_marked(*ctx, loc, raw@),
{
    pp_loc_id(ctx, doc, loc);
    match marker_msg(ctx, loc) {
        Some(m) => {
            let mut s = String::from_str("(*");
            s.append(m.as_str());
            s.append("*)");
            doc.atom_string(s);
            doc.space();
            doc.atom("(");
            doc.extend(raw);
            doc.atom(")");
        },
        None => {
            doc.extend(raw);
        },
    }
}

pub(crate) fn pp_parens_unless(doc: &mut Doc, closed: bool, d: Doc)
    ensures
        final(doc)@ == old(doc)@ + parens_unless(closed, d@),
{
    if closed {
        doc.extend(d);
    } else {
        let mut inner = new_doc();
        inner.atom("(");
        inner.extend(d);
        inner.atom(")");
        doc.boxed(BoxKind::Hv, 1, inner);
    }
}

// ------------------------------------------------------------ identifiers

pub(crate) fn wrap(a: &str, b: &str, c: &str) -> (r: String)
    ensures
        r@ == a@ + b@ + c@,
{
    let mut r = String::from_str(a);
    r.append(b);
    r.append(c);
    r
}

fn decode_string(n: &Notation) -> (r: String)
    ensures
        r@ == decode_text(n@),
{
    match n {
        Notation::Word(s) => s.clone(),
        Notation::Infix(s) => wrap("( ", s.as_str(), " )"),
        Notation::Prefix(s) => wrap("( ", s.as_str(), "_ )"),
        Notation::Tight(s) => wrap("( ", s.as_str(), " )"),
        Notation::Get(s) => wrap("( []", s.as_str(), " )"),
        Notation::SetElt(s) => wrap("( []", s.as_str(), "<- )"),
        Notation::Update(s) => wrap("( [<-]", s.as_str(), " )"),
        Notation::Cut(s) => wrap("( [..]", s.as_str(), " )"),
        Notation::Lcut(s) => wrap("( [.._]", s.as_str(), " )"),
        Notation::Rcut(s) => wrap("( [_..]", s.as_str(), " )"),
    }
}

pub(crate) fn pp_attr_(ctx: &PrintCtx, doc: &mut Doc, a: &Attr)
    ensures
        final(doc)@ == old(doc)@ + attr_layout(*ctx, *a),
{
    match a {
        Attr::Str(att) => {
            doc.atom_string(wrap("[@", att.as_str(), "]"));
        },
        Attr::Pos(loc) => {
            let f = ctx.files.name_of_tag(loc.file_tag());
            let (bl, bc, el, ec) = loc.parts();
            doc.atom("[#");
            doc.quoted(f);
            let mut s = String::from_str(" ");
            s.append(text::isize_to_string(bl).as_str());
            s.append(" ");
            s.append(text::isize_to_string(bc).as_str());
            s.append(" ");
            s.append(text::isize_to_string(el).as_str());
            s.append(" ");
            s.append(text::isize_to_string(ec).as_str());
            s.append("]");
            doc.atom_string(s);
            pp_maybe_marker(ctx, doc, *loc);
        },
    }
}

pub open spec fn opt_view(rm: Option<&str>) -> Option<Seq<char>> {
    match rm {
        Some(s) => Some(s@),
        None => None,
    }
}

pub(crate) fn attr_kept_exec(a: &Attr, rm: Option<&str>) -> (b: bool)
    ensures
        b == attr_kept(*a, opt_view(rm)),
{
    match rm {
        Some(s) => match a {
            Attr::Str(att) => !text::str_eq(att.as_str(), s),
            Attr::Pos(_) => true,
        },
        None => true,
    }
}

pub(crate) fn pp_id_rm(ctx: &PrintCtx, attr: bool, doc: &mut Doc, id: &Ident, rm: Option<&str>)
    ensures
        final(doc)@ == old(doc)@ + ident_rm(*ctx, attr, *id, opt_view(rm)),
{
    pp_maybe_marker(ctx, doc, id.loc);
    let n = sn_decode(id.str.as_str());
    doc.atom_string(decode_string(&n));
    if attr {
        let mut parts: Vec<Doc> = Vec::new();
        let mut i: usize = 0;
        while i < id.ats.len()
            invariant
                i <= id.ats@.len(),
                views(parts@) == attrs_parts(*ctx, id.ats@.take(i as int), opt_view(rm)),
            decreases id.ats@.len() - i,
        {
            proof {
                assert(id.ats@.take(i + 1).drop_last() =~= id.ats@.take(i as int));
            }
            if attr_kept_exec(&id.ats[i], rm) {
                let mut d = new_doc();
                pp_attr_(ctx, &mut d, &id.ats[i]);
                let ghost old_parts = parts@;
                parts.push(d);
                proof {
                    assert(views(parts@) =~= views(old_parts).push(d@));
                }
            }
            i += 1;
        }
        proof {
            assert(id.ats@.take(i as int) =~= id.ats@);
        }
        doc.opt_list_parts(parts, &doc_of(" "), &new_doc(), &new_doc(), &new_doc(), &new_doc());
    }
}

/// Prints an identifier, with its attributes if `attr`.
pub fn pp_id(ctx: &PrintCtx, attr: bool, doc: &mut Doc, id: &Ident)
    ensures
        final(doc)@ == old(doc)@ + ident(*ctx, attr, *id),
{
    pp_id_rm(ctx, attr, doc, id, None);
}

/// Prints a qualified identifier.
pub fn pp_qualid(ctx: &PrintCtx, attr: bool, doc: &mut Doc, q: &Qualid)
    requires
        q.0@.len() > 0,
    ensures
        final(doc)@ == old(doc)@ + qualid(*ctx, attr, *q),
{
    let mut d = new_doc();
    pp_id(ctx, attr, &mut d, &q.0[0]);
    proof {
        assert(q.0@.take(1).drop_last().len() == 0);
    }
    let mut i: usize = 1;
    while i < q.0.len()
        invariant
            1 <= i <= q.0@.len(),
            d@ == qualid_ids(*ctx, attr, q.0@.take(i as int)),
        decreases q.0@.len() - i,
    {
        let mut d2 = new_doc();
        d2.extend(d);
        d2.atom(".");
        pp_id(ctx, attr, &mut d2, &q.0[i]);
        let mut d3 = new_doc();
        d3.boxed(BoxKind::H, 0, d2);
        d = d3;
        proof {
            assert(q.0@.take(i + 1).drop_last() =~= q.0@.take(i as int));
        }
        i += 1;
    }
    proof {
        assert(q.0@.take(i as int) =~= q.0@);
    }
    doc.extend(d);
}

} // verus!

verus! {

// ------------------------------------------------------------ applications

/// The shape of an application, as computed by the printer.
pub enum Shape {
    QualField,
    QualApp,
    Field(String),
    Word(String),
    Infix(String),
    Prefix(String),
    Tight(String),
    Get(String),
    SetElt(String),
    Update(String),
    Cut1(String),
    Cut3(String),
    Lcut(String),
    Rcut(String),
    Bad,
}

impl View for Shape {
    type V = AppShape;

    open spec fn view(&self) -> AppShape {
        match self {
            Shape::QualField => AppShape::QualField,
            Shape::QualApp => AppShape::QualApp,
            Shape::Field(s) => AppShape::Field(s@),
            Shape::Word(s) => AppShape::Word(s@),
            Shape::Infix(s) => AppShape::Infix(s@),
            Shape::Prefix(s) => AppShape::Prefix(s@),
            Shape::Tight(s) => AppShape::Tight(s@),
            Shape::Get(s) => AppShape::Get(s@),
            Shape::SetElt(s) => AppShape::SetElt(s@),
            Shape::Update(s) => AppShape::Update(s@),
            Shape::Cut1(s) => AppShape::Cut1(s@),
            Shape::Cut3(s) => AppShape::Cut3(s@),
            Shape::Lcut(s) => AppShape::Lcut(s@),
            Shape::Rcut(s) => AppShape::Rcut(s@),
            Shape::Bad => AppShape::Bad,
        }
    }
}

fn starts_lowercase(s: &str) -> (b: bool)
    ensures
        b == lowercase_start(s@),
{
    s.unicode_len() > 0 && {
        let c = s.get_char(0);
        'a' <= c && c <= 'z'
    }
}

/// The shape of the application of `q` to `n` arguments.
pub fn app_shape_of(q: &Qualid, n: usize) -> (r: Shape)
    requires
        q.0@.len() > 0,
    ensures
        r@ == app_shape(q.0@, n as nat),
{
    let id = &q.0[q.0.len() - 1];
    let d = sn_decode(id.str.as_str());
    if q.0.len() > 1 {
        match d {
            Notation::Word(s) => if n == 1 && s.as_str().unicode_len() == 0 {
                Shape::Bad
            } else if n == 1 && starts_lowercase(s.as_str()) {
                Shape::QualField
            } else {
                Shape::QualApp
            },
            _ => Shape::QualApp,
        }
    } else {
        match d {
            Notation::Word(s) => if n == 1 && s.as_str().unicode_len() == 0 {
                Shape::Bad
            } else if n == 1 && starts_lowercase(s.as_str()) {
                Shape::Field(s)
            } else {
                Shape::Word(s)
            },
            Notation::Infix(s) => if n == 2 {
                Shape::Infix(s)
            } else {
                Shape::Bad
            },
            Notation::Prefix(s) => if n == 1 {
                Shape::Prefix(s)
            } else {
                Shape::Bad
            },
            Notation::Tight(s) => if n == 1 {
                Shape::Tight(s)
            } else {
                Shape::Bad
            },
            Notation::Get(s) => if n == 2 {
                Shape::Get(s)
            } else {
                Shape::Bad
            },
            Notation::SetElt(s) => if n == 3 {
                Shape::SetElt(s)
            } else {
                Shape::Bad
            },
            Notation::Update(s) => if n == 3 {
                Shape::Update(s)
            } else {
                Shape::Bad
            },
            Notation::Cut(s) => if n == 1 {
                Shape::Cut1(s)
            } else if n == 3 {
                Shape::Cut3(s)
            } else {
                Shape::Bad
            },
            Notation::Lcut(s) => if n == 2 {
                Shape::Lcut(s)
            } else {
                Shape::Bad
            },
            Notation::Rcut(s) => if n == 2 {
                Shape::Rcut(s)
            } else {
                Shape::Bad
            },
        }
    }
}

/// Whether the `i`-th argument of an application of this shape is printed as
/// is, rather than closed.
pub fn arg_is_marked(sh: &Shape, i: usize) -> (b: bool)
    ensures
        b == arg_marked(sh@, i as int),
{
    match sh {
        Shape::Get(_) => i == 1,
        Shape::SetElt(_) => i == 1,
        Shape::Update(_) => i == 1 || i == 2,
        Shape::Cut3(_) => i == 1 || i == 2,
        Shape::Lcut(_) => i == 1,
        Shape::Rcut(_) => i == 1,
        _ => false,
    }
}

/// The number of arguments of an application of this shape.
pub open spec fn shape_arity(sh: AppShape, n: nat) -> bool {
    match sh {
        AppShape::QualField | AppShape::Field(_) | AppShape::Prefix(_) | AppShape::Tight(_)
        | AppShape::Cut1(_) => n == 1,
        AppShape::Infix(_) | AppShape::Get(_) | AppShape::Lcut(_) | AppShape::Rcut(_) => n == 2,
        AppShape::SetElt(_) | AppShape::Update(_) | AppShape::Cut3(_) => n == 3,
        AppShape::QualApp | AppShape::Word(_) => true,
        AppShape::Bad => false,
    }
}

pub(crate) proof fn lemma_app_shape_arity(q: Seq<Ident>, n: nat)
    requires
        !(app_shape(q, n) is Bad),
    ensures
        shape_arity(app_shape(q, n), n),
{
}

pub(crate) fn take1(xs: Vec<Doc>) -> (r: Doc)
    requires
        xs@.len() == 1,
    ensures
        r@ == views(xs@)[0],
{
    let mut xs = xs;
    xs.pop().unwrap()
}

pub(crate) fn take2(xs: Vec<Doc>) -> (r: (Doc, Doc))
    requires
        xs@.len() == 2,
    ensures
        r.0@ == views(xs@)[0],
        r.1@ == views(xs@)[1],
{
    let mut xs = xs;
    let ghost v = xs@;
    let b = xs.pop().unwrap();
    let a = xs.pop().unwrap();
    (a, b)
}

pub(crate) fn take3(xs: Vec<Doc>) -> (r: (Doc, Doc, Doc))
    requires
        xs@.len() == 3,
    ensures
        r.0@ == views(xs@)[0],
        r.1@ == views(xs@)[1],
        r.2@ == views(xs@)[2],
{
    let mut xs = xs;
    let c = xs.pop().unwrap();
    let b = xs.pop().unwrap();
    let a = xs.pop().unwrap();
    (a, b, c)
}

/// Prints the application of `q`, whose shape is `sh`, to arguments already
/// laid out.
pub fn pp_app(ctx: &PrintCtx, attr: bool, doc: &mut Doc, q: &Qualid, sh: Shape, xs: Vec<Doc>)
    requires
        q.0@.len() > 0,
        shape_arity(sh@, xs@.len()),
    ensures
        final(doc)@ == old(doc)@ + app_layout(*ctx, attr, *q, sh@, views(xs@)),
{
    let id = &q.0[q.0.len() - 1];
    let mut mm = new_doc();
    pp_maybe_marker(ctx, &mut mm, id.loc);
    proof {
        assert(mm@ =~= maybe_marker(*ctx, id.loc));
    }
    match sh {
        Shape::QualField => {
            let x = take1(xs);
            let mut inner = mm;
            inner.extend(x);
            inner.atom(".");
            pp_qualid(ctx, attr, &mut inner, q);
            doc.boxed(BoxKind::Hv, 2, inner);
        },
        Shape::QualApp => {
            let mut inner = new_doc();
            pp_qualid(ctx, attr, &mut inner, q);
            proof {
                assert(inner@ =~= qualid(*ctx, attr, *q));
            }
            inner.space();
            inner.join_parts(xs, &space_doc());
            doc.boxed(BoxKind::Hv, 3, inner);
        },
        Shape::Field(s) => {
            let x = take1(xs);
            let mut inner = mm;
            inner.extend(x);
            inner.atom_string(text::concat(".", s.as_str()));
            doc.boxed(BoxKind::Hv, 2, inner);
        },
        Shape::Word(s) => {
            let mut inner = mm;
            inner.atom_string(s);
            inner.space();
            inner.join_parts(xs, &space_doc());
            doc.boxed(BoxKind::Hv, 2, inner);
        },
        Shape::Infix(s) => {
            let (x1, x2) = take2(xs);
            let mut inner = x1;
            inner.space();
            inner.extend(mm);
            inner.atom_string(text::concat(s.as_str(), " "));
            inner.extend(x2);
            doc.boxed(BoxKind::Hv, 2, inner);
        },
        Shape::Prefix(s) => {
            let x = take1(xs);
            let mut inner = mm;
            inner.atom_string(s);
            inner.space();
            inner.extend(x);
            doc.boxed(BoxKind::H, 0, inner);
        },
        Shape::Tight(s) => {
            let x = take1(xs);
            let mut inner = mm;
            inner.atom_string(s);
            inner.extend(x);
            doc.boxed(BoxKind::H, 0, inner);
        },
        Shape::Get(s) => {
            let (x1, x2) = take2(xs);
            let mut inner = x1;
            inner.atom("[");
            inner.extend(x2);
            inner.atom("]");
            inner.extend(mm);
            inner.atom_string(s);
            doc.boxed(BoxKind::Hv, 1, inner);
        },
        Shape::SetElt(s) => {
            let (x1, x2, x3) = take3(xs);
            let mut inner = x1;
            inner.atom("[");
            inner.extend(x2);
            inner.atom("] ");
            inner.extend(mm);
            inner.atom_string(s);
            inner.atom(" <- ");
            inner.extend(x3);
            doc.boxed(BoxKind::Hv, 1, inner);
        },
        Shape::Update(s) => {
            let (x1, x2, x3) = take3(xs);
            let mut inner = x1;
            inner.atom("[");
            inner.extend(x2);
            inner.atom(" <- ");
            inner.extend(x3);
            inner.atom("]");
            inner.extend(mm);
            inner.atom_string(s);
            doc.boxed(BoxKind::H, 0, inner);
        },
        Shape::Cut1(s) => {
            let x = take1(xs);
            let mut inner = x;
            inner.atom("[..]");
            inner.extend(mm);
            inner.atom_string(s);
            doc.boxed(BoxKind::H, 0, inner);
        },
        Shape::Cut3(s) => {
            let (x1, x2, x3) = take3(xs);
            let mut inner = x1;
            inner.atom("[");
            inner.extend(x2);
            inner.atom(" .. ");
            inner.extend(x3);
            inner.atom("]");
            inner.extend(mm);
            inner.atom_string(s);
            doc.boxed(BoxKind::H, 0, inner);
        },
        Shape::Lcut(s) => {
            let (x1, x2) = take2(xs);
            let mut inner = x1;
            inner.atom("[.. ");
            inner.extend(x2);
            inner.atom("]");
            inner.extend(mm);
            inner.atom_string(s);
            doc.boxed(BoxKind::H, 0, inner);
        },
        Shape::Rcut(s) => {
            let (x1, x2) = take2(xs);
            let mut inner = x1;
            inner.atom(" [");
            inner.extend(x2);
            inner.atom(" ..]");
            inner.extend(mm);
            inner.atom_string(s);
            doc.boxed(BoxKind::H, 0, inner);
        },
        Shape::Bad => {
            proof {
                assert(doc@ =~= old(doc)@ + app_layout(*ctx, attr, *q, sh@, views(xs@)));
            }
        },
    }
}

} // verus!

verus! {

// ------------------------------------------------------------------ types

pub(crate) proof fn lemma_wf_ptys_index(ps: Seq<Pty>, i: int)
    requires
        wf_ptys(ps),
        0 <= i < ps.len(),
    ensures
        wf_pty(ps[i]),
    decreases ps.len(),
{
    if i < ps.len() - 1 {
        lemma_wf_ptys_index(ps.drop_last(), i);
    }
}

pub(crate) fn pp_pty_raw(ctx: &PrintCtx, attr: bool, doc: &mut Doc, t: &Pty)
    requires
        wf_pty(*t),
    ensures
        final(doc)@ == old(doc)@ + pty_raw(*ctx, attr, *t),
    decreases t, 0nat,
{
    match t {
        Pty::Tyvar(id) => {
            doc.atom("'");
            pp_id(ctx, attr, doc, id);
        },
        Pty::Tyapp(q, ps) => {
            if ps.len() == 0 {
                pp_qualid(ctx, attr, doc, q);
            } else {
                let mut inner = new_doc();
                pp_qualid(ctx, attr, &mut inner, q);
                proof {
                    assert(inner@ =~= qualid(*ctx, attr, *q));
                }
                inner.space();
                let parts = pp_ptys_closed(ctx, attr, ps);
                inner.join_parts(parts, &doc_of(" "));
                doc.boxed(BoxKind::Hv, 2, inner);
            }
        },
        Pty::Tuple(ps) => {
            let parts = pp_ptys_closed(ctx, attr, ps);
            pp_tuple_parts(doc, parts);
        },
        Pty::Ref(_) => {},
        Pty::Arrow(a, b) => {
            let mut inner = new_doc();
            pp_pty_parens(ctx, attr, &mut inner, a);
            proof {
                assert(inner@ =~= pty_closed(*ctx, attr, **a));
            }
            inner.atom(" ->");
            inner.space();
            pp_pty_parens(ctx, attr, &mut inner, b);
            doc.boxed(BoxKind::Hv, 2, inner);
        },
        Pty::Scope(q, p) => {
            let mut x = new_doc();
            pp_pty_raw(ctx, attr, &mut x, p);
            proof {
                assert(x@ =~= pty_raw(*ctx, attr, **p));
            }
            pp_scope_parts(ctx, attr, doc, q, x);
        },
        Pty::Paren(p) => {
            doc.atom("(");
            pp_pty_raw(ctx, attr, doc, p);
            doc.atom(")");
        },
        Pty::Pure(p) => {
            doc.atom("{");
            pp_pty_raw(ctx, attr, doc, p);
            doc.atom("}");
        },
    }
}

pub(crate) fn pp_pty_parens(ctx: &PrintCtx, attr: bool, doc: &mut Doc, t: &Pty)
    requires
        wf_pty(*t),
    ensures
        final(doc)@ == old(doc)@ + pty_closed(*ctx, attr, *t),
    decreases t, 1nat,
{
    let mut d = new_doc();
    pp_pty_raw(ctx, attr, &mut d, t);
    proof {
        assert(d@ =~= pty_raw(*ctx, attr, *t));
    }
    pp_parens_unless(doc, pty_is_closed_exec(t), d);
}

pub(crate) fn pty_is_closed_exec(t: &Pty) -> (b: bool)
    ensures
        b == pty_is_closed(*t),
{
    match t {
        Pty::Tyvar(_) | Pty::Tuple(_) | Pty::Scope(_, _) | Pty::Paren(_) | Pty::Pure(_) => true,
        Pty::Tyapp(_, l) => l.len() == 0,
        _ => false,
    }
}

pub(crate) fn pp_ptys_closed(ctx: &PrintCtx, attr: bool, ps: &Vec<Pty>) -> (r: Vec<Doc>)
    requires
        wf_ptys(ps@),
    ensures
        views(r@) == ptys_closed(*ctx, attr, ps@),
    decreases ps, 0nat,
{
    let mut r: Vec<Doc> = Vec::new();
    let mut i: usize = 0;
    while i < ps.len()
        invariant
            i <= ps@.len(),
            wf_ptys(ps@),
            views(r@) == ptys_closed(*ctx, attr, ps@.take(i as int)),
        decreases ps@.len() - i,
    {
        proof {
            lemma_wf_ptys_index(ps@, i as int);
            assert(ps@.take(i + 1).drop_last() =~= ps@.take(i as int));
        }
        assert(decreases_to!(ps => ps@[i as int]));
        let mut d = new_doc();
        pp_pty_parens(ctx, attr, &mut d, &ps[i]);
        let ghost old_r = r@;
        r.push(d);
        proof {
            assert(views(r@) =~= views(old_r).push(d@));
            assert(d@ =~= pty_closed(*ctx, attr, ps@[i as int]));
        }
        i += 1;
    }
    proof {
        assert(ps@.take(i as int) =~= ps@);
    }
    r
}

/// Prints a type.
pub fn pp_pty(ctx: &PrintCtx, attr: bool, doc: &mut Doc, t: &Pty)
    requires
        wf_pty(*t),
    ensures
        final(doc)@ == old(doc)@ + pty_raw(*ctx, attr, *t),
{
    pp_pty_raw(ctx, attr, doc, t);
}

/// Prints a type, in parentheses unless it is closed.
pub fn pp_pty_closed(ctx: &PrintCtx, attr: bool, doc: &mut Doc, t: &Pty)
    requires
        wf_pty(*t),
    ensures
        final(doc)@ == old(doc)@ + pty_closed(*ctx, attr, *t),
{
    pp_pty_parens(ctx, attr, doc, t);
}

// ------------------------------------------------------ shared layouts

pub(crate) fn pp_tuple_parts(doc: &mut Doc, parts: Vec<Doc>)
    ensures
        final(doc)@ == old(doc)@ + tuple_layout(views(parts@)),
{
    let mut inner = doc_of("(");
    let mut sep = doc_of(",");
    sep.space();
    inner.join_parts(parts, &sep);
    inner.atom(")");
    doc.boxed(BoxKind::Hv, 1, inner);
}

pub(crate) fn pp_scope_parts(ctx: &PrintCtx, attr: bool, doc: &mut Doc, q: &Qualid, x: Doc)
    requires
        q.0@.len() > 0,
    ensures
        final(doc)@ == old(doc)@ + scope_layout(qualid(*ctx, attr, *q), x@),
{
    let mut inner = new_doc();
    pp_qualid(ctx, attr, &mut inner, q);
    proof {
        assert(inner@ =~= qualid(*ctx, attr, *q));
    }
    inner.atom(".(");
    inner.extend(x);
    inner.atom(")");
    doc.boxed(BoxKind::Hv, 2, inner);
}

} // verus!

verus! {

// --------------------------------------------------------------- patterns

pub(crate) proof fn lemma_wf_pats_index(ps: Seq<Pattern>, i: int)
    requires
        wf_pats(ps),
        0 <= i < ps.len(),
    ensures
        wf_pat(ps[i]),
    decreases ps.len(),
{
    if i < ps.len() - 1 {
        lemma_wf_pats_index(ps.drop_last(), i);
    }
}

proof fn lemma_wf_pat_fields_index(fs: Seq<(Qualid, Pattern)>, i: int)
    requires
        wf_pat_fields(fs),
        0 <= i < fs.len(),
    ensures
        wf_pat(fs[i].1),
        fs[i].0.0@.len() > 0,
    decreases fs.len(),
{
    if i < fs.len() - 1 {
        lemma_wf_pat_fields_index(fs.drop_last(), i);
    }
}

pub(crate) fn pat_is_closed_exec(ctx: &PrintCtx, p: &Pattern) -> (b: bool)
    ensures
        b == pat_is_closed(*ctx, *p),
{
    match &p.desc {
        PatDesc::Wild | PatDesc::Var(_) | PatDesc::Tuple(_) | PatDesc::Paren(_) | PatDesc::Scope(
            _,
            _,
        ) | PatDesc::Cast(_, _) => true,
        PatDesc::App(_, l) => l.len() == 0 || has_marker(ctx, p.loc),
        _ => has_marker(ctx, p.loc),
    }
}

pub(crate) fn pp_pat_raw(ctx: &PrintCtx, attr: bool, doc: &mut Doc, p: &Pattern)
    requires
        wf_pat(*p),
    ensures
        final(doc)@ == old(doc)@ + pat_raw(*ctx, attr, *p),
    decreases p, 0nat,
{
    match &p.desc {
        PatDesc::Wild => {
            doc.atom("_");
        },
        PatDesc::Var(id) => {
            pp_id(ctx, attr, doc, id);
        },
        PatDesc::App(q, ps) => {
            let sh = app_shape_of(q, ps.len());
            proof {
                lemma_app_shape_arity(q.0@, ps@.len());
            }
            let xs = pp_pats_args(ctx, attr, &sh, ps);
            pp_app(ctx, attr, doc, q, sh, xs);
        },
        PatDesc::Rec(fs) => {
            doc.atom("{ ");
            let parts = pp_pat_fields(ctx, attr, fs);
            let mut sep = doc_of(";");
            sep.space();
            doc.join_parts(parts, &sep);
            doc.atom(" }");
        },
        PatDesc::Tuple(ps) => {
            let parts = pp_pats_closed(ctx, attr, ps);
            pp_tuple_parts(doc, parts);
        },
        PatDesc::As(q, id, g) => {
            let mut inner = new_doc();
            pp_pat_marked(ctx, attr, &mut inner, q);
            proof {
                assert(inner@ =~= pat_marked(*ctx, attr, **q));
            }
            doc.boxed(BoxKind::Hv, 2, inner);
            doc.atom(" as");
            doc.space();
            if *g {
                doc.atom("ghost ");
            } else {
                proof {
                    assert(doc@ =~= doc@ + ghost_layout(*g));
                }
            }
            pp_id(ctx, attr, doc, id);
        },
        PatDesc::Or(a, b) => {
            pp_pat_marked(ctx, attr, doc, a);
            doc.atom(" | ");
            pp_pat_marked(ctx, attr, doc, b);
        },
        PatDesc::Cast(q, t) => {
            let mut inner = new_doc();
            pp_pat_closed(ctx, attr, &mut inner, q);
            proof {
                assert(inner@ =~= pat_closed(*ctx, attr, **q));
            }
            inner.atom(" :");
            inner.space();
            pp_pty_parens(ctx, attr, &mut inner, t);
            doc.boxed(BoxKind::Hv, 2, inner);
        },
        PatDesc::Scope(q, x) => {
            let mut d = new_doc();
            pp_pat_marked(ctx, attr, &mut d, x);
            proof {
                assert(d@ =~= pat_marked(*ctx, attr, **x));
            }
            pp_scope_parts(ctx, attr, doc, q, d);
        },
        PatDesc::Paren(x) => {
            doc.atom("(");
            pp_pat_marked(ctx, attr, doc, x);
            doc.atom(")");
        },
        PatDesc::GhostPat(x) => {
            let mut inner = doc_of("ghost");
            inner.space();
            pp_pat_marked(ctx, attr, &mut inner, x);
            doc.boxed(BoxKind::H, 0, inner);
        },
    }
}

pub(crate) fn pp_pat_marked(ctx: &PrintCtx, attr: bool, doc: &mut Doc, p: &Pattern)
    requires
        wf_pat(*p),
    ensures
        final(doc)@ == old(doc)@ + pat_marked(*ctx, attr, *p),
    decreases p, 1nat,
{
    let mut d = new_doc();
    pp_pat_raw(ctx, attr, &mut d, p);
    proof {
        assert(d@ =~= pat_raw(*ctx, attr, *p));
    }
    pp_maybe_marked(ctx, doc, p.loc, d);
}

pub(crate) fn pp_pat_closed(ctx: &PrintCtx, attr: bool, doc: &mut Doc, p: &Pattern)
    requires
        wf_pat(*p),
    ensures
        final(doc)@ == old(doc)@ + pat_closed(*ctx, attr, *p),
    decreases p, 2nat,
{
    let mut d = new_doc();
    pp_pat_marked(ctx, attr, &mut d, p);
    proof {
        assert(d@ =~= pat_marked(*ctx, attr, *p));
    }
    pp_parens_unless(doc, pat_is_closed_exec(ctx, p), d);
}

fn pp_pats_closed(ctx: &PrintCtx, attr: bool, ps: &Vec<Pattern>) -> (r: Vec<Doc>)
    requires
        wf_pats(ps@),
    ensures
        views(r@) == pats_closed(*ctx, attr, ps@),
    decreases ps, 0nat,
{
    let mut r: Vec<Doc> = Vec::new();
    let mut i: usize = 0;
    while i < ps.len()
        invariant
            i <= ps@.len(),
            wf_pats(ps@),
            views(r@) == pats_closed(*ctx, attr, ps@.take(i as int)),
        decreases ps@.len() - i,
    {
        proof {
            lemma_wf_pats_index(ps@, i as int);
            assert(ps@.take(i + 1).drop_last() =~= ps@.take(i as int));
        }
        assert(decreases_to!(ps => ps@[i as int]));
        let mut d = new_doc();
        pp_pat_closed(ctx, attr, &mut d, &ps[i]);
        let ghost old_r = r@;
        r.push(d);
        proof {
            assert(views(r@) =~= views(old_r).push(d@));
            assert(d@ =~= pat_closed(*ctx, attr, ps@[i as int]));
        }
        i += 1;
    }
    proof {
        assert(ps@.take(i as int) =~= ps@);
    }
    r
}

fn pp_pats_args(ctx: &PrintCtx, attr: bool, sh: &Shape, ps: &Vec<Pattern>) -> (r: Vec<Doc>)
    requires
        wf_pats(ps@),
    ensures
        views(r@) == pats_args(*ctx, attr, sh@, ps@),
        r@.len() == ps@.len(),
    decreases ps, 0nat,
{
    let mut r: Vec<Doc> = Vec::new();
    let mut i: usize = 0;
    while i < ps.len()
        invariant
            i <= ps@.len(),
            r@.len() == i,
            wf_pats(ps@),
            views(r@) == pats_args(*ctx, attr, sh@, ps@.take(i as int)),
        decreases ps@.len() - i,
    {
        proof {
            lemma_wf_pats_index(ps@, i as int);
            assert(ps@.take(i + 1).drop_last() =~= ps@.take(i as int));
        }
        assert(decreases_to!(ps => ps@[i as int]));
        let mut d = new_doc();
        if arg_is_marked(sh, i) {
            pp_pat_marked(ctx, attr, &mut d, &ps[i]);
        } else {
            pp_pat_closed(ctx, attr, &mut d, &ps[i]);
        }
        let ghost old_r = r@;
        r.push(d);
        proof {
            assert(views(r@) =~= views(old_r).push(d@));
            assert(d@ =~= if arg_marked(sh@, i as int) {
                pat_marked(*ctx, attr, ps@[i as int])
            } else {
                pat_closed(*ctx, attr, ps@[i as int])
            });
        }
        i += 1;
    }
    proof {
        assert(ps@.take(i as int) =~= ps@);
    }
    r
}

fn pp_pat_fields(ctx: &PrintCtx, attr: bool, fs: &Vec<(Qualid, Pattern)>) -> (r: Vec<Doc>)
    requires
        wf_pat_fields(fs@),
    ensures
        views(r@) == pat_fields(*ctx, attr, fs@),
    decreases fs, 0nat,
{
    let mut r: Vec<Doc> = Vec::new();
    let mut i: usize = 0;
    while i < fs.len()
        invariant
            i <= fs@.len(),
            wf_pat_fields(fs@),
            views(r@) == pat_fields(*ctx, attr, fs@.take(i as int)),
        decreases fs@.len() - i,
    {
        proof {
            lemma_wf_pat_fields_index(fs@, i as int);
            assert(fs@.take(i + 1).drop_last() =~= fs@.take(i as int));
        }
        assert(decreases_to!(fs => fs@[i as int]));
        let mut d = new_doc();
        pp_qualid(ctx, attr, &mut d, &fs[i].0);
        d.atom(" = ");
        pp_pat_closed(ctx, attr, &mut d, &fs[i].1);
        let ghost old_r = r@;
        r.push(d);
        proof {
            assert(views(r@) =~= views(old_r).push(d@));
            assert(d@ =~= qualid(*ctx, attr, fs@[i as int].0) + at(" = "@) + pat_closed(
                *ctx,
                attr,
                fs@[i as int].1,
            ));
        }
        i += 1;
    }
    proof {
        assert(fs@.take(i as int) =~= fs@);
    }
    r
}

/// Prints a pattern, with the marker's message before it if it is at the
/// pattern's location.
pub fn pp_pattern(ctx: &PrintCtx, attr: bool, doc: &mut Doc, p: &Pattern)
    requires
        wf_pat(*p),
    ensures
        final(doc)@ == old(doc)@ + pat_marked(*ctx, attr, *p),
{
    pp_pat_marked(ctx, attr, doc, p);
}

/// Prints a pattern, in parentheses unless it is closed.
pub fn pp_pattern_closed(ctx: &PrintCtx, attr: bool, doc: &mut Doc, p: &Pattern)
    requires
        wf_pat(*p),
    ensures
        final(doc)@ == old(doc)@ + pat_closed(*ctx, attr, *p),
{
    pp_pat_closed(ctx, attr, doc, p);
}

} // verus!
