//! The layout that the printer of parse trees produces, stated as spec
//! functions over the trees, and the trees that it prints without failing.

use vstd::prelude::*;

use crate::constant::Constant;
use crate::decl::{IndSign, PropKind};
use crate::doc::{at, brk, bx, cut, join, join_every, nl, opt_list, sp, BoxKind, Layout};
use crate::dterm::{Dbinop, Dquant};
use crate::expr::{AssertionKind, ForDirection, RsKind};
use crate::ident::{decode, NotationV};
use crate::ity::Mask;
use crate::loc::Position;
use crate::mlw_printer::PrintCtx;
use crate::number_spec::const_layout;
use crate::ptree::{
    Attr, Binder, CloneSubst, Decl, Expr, ExprDesc, Field, Fundef, IndDecl, Ident, LogicDecl,
    Metarg, MlwFile, Param, PatDesc, Pattern, Post, Pty, Qualid, Spec, Term, TermDesc, TypeDecl,
    TypeDef, Visibility, Xpost,
};
use crate::text::decimal;

verus! {

pub open spec fn hv(i: nat, inner: Seq<Layout>) -> Seq<Layout> {
    bx(BoxKind::Hv, i, inner)
}

pub open spec fn hb(inner: Seq<Layout>) -> Seq<Layout> {
    bx(BoxKind::H, 0, inner)
}

pub open spec fn vb(i: nat, inner: Seq<Layout>) -> Seq<Layout> {
    bx(BoxKind::V, i, inner)
}

pub open spec fn sb(i: nat, inner: Seq<Layout>) -> Seq<Layout> {
    bx(BoxKind::S, i, inner)
}

pub open spec fn empty() -> Seq<Layout> {
    Seq::empty()
}

/// The placeholder for what has no concrete syntax.
pub open spec fn unsupported_text(s: Seq<char>) -> Seq<Layout> {
    at("__TODO_MLW_PRINTER__ (* "@ + s + " *)"@)
}

// ---------------------------------------------------------------- markers

/// The message of the marker, when the marker is at `loc`.
pub open spec fn marker_of(c: PrintCtx, loc: Position) -> Option<Seq<char>> {
    match c.marker {
        Some((m, l)) => if l == loc {
            Some(m@)
        } else {
            None
        },
        None => None,
    }
}

pub open spec fn is_dummy_file(c: PrintCtx, loc: Position) -> bool {
    c.files.name_of(loc.tag()).len() == 0
}

pub open spec fn only_id(c: PrintCtx, loc: Position) -> bool {
    is_dummy_file(c, loc) && (c.only_ids matches Some(v) && v@.contains(loc.start_line()))
}

/// The identifier of a unique dummy location, when asked for.
pub open spec fn loc_id(c: PrintCtx, loc: Position) -> Seq<Layout> {
    if (c.print_ids || only_id(c, loc)) && is_dummy_file(c, loc) && loc.start_col() == 0
        && loc.end_col() == 0 {
        at("(*"@ + decimal(loc.start_line() as int) + "*)"@)
    } else {
        empty()
    }
}

pub open spec fn maybe_marker(c: PrintCtx, loc: Position) -> Seq<Layout> {
    loc_id(c, loc) + match marker_of(c, loc) {
        Some(m) => at("(*"@ + m + "*) "@),
        None => empty(),
    }
}

pub open spec fn opt_marker(c: PrintCtx, oloc: Option<Position>) -> Seq<Layout> {
    match oloc {
        Some(l) => maybe_marker(c, l),
        None => empty(),
    }
}

pub open spec fn maybe_marked(c: PrintCtx, loc: Position, raw: Seq<Layout>) -> Seq<Layout> {
    match marker_of(c, loc) {
        Some(m) => loc_id(c, loc) + at("(*"@ + m + "*)"@) + sp() + at("("@) + raw + at(")"@),
        None => loc_id(c, loc) + raw,
    }
}

/// In parentheses, unless `closed`.
pub open spec fn parens_unless(closed: bool, d: Seq<Layout>) -> Seq<Layout> {
    if closed {
        d
    } else {
        hv(1, at("("@) + d + at(")"@))
    }
}

// ------------------------------------------------------------ identifiers

/// How an identifier's notation is written.
pub open spec fn decode_text(n: NotationV) -> Seq<char> {
    match n {
        NotationV::Word(s) => s,
        NotationV::Infix(s) => "( "@ + s + " )"@,
        NotationV::Prefix(s) => "( "@ + s + "_ )"@,
        NotationV::Tight(s) => "( "@ + s + " )"@,
        NotationV::Get(s) => "( []"@ + s + " )"@,
        NotationV::SetElt(s) => "( []"@ + s + "<- )"@,
        NotationV::Update(s) => "( [<-]"@ + s + " )"@,
        NotationV::Cut(s) => "( [..]"@ + s + " )"@,
        NotationV::Lcut(s) => "( [.._]"@ + s + " )"@,
        NotationV::Rcut(s) => "( [_..]"@ + s + " )"@,
    }
}

pub open spec fn attr_layout(c: PrintCtx, a: Attr) -> Seq<Layout> {
    match a {
        Attr::Str(att) => at("[@"@ + att.text() + "]"@),
        Attr::Pos(loc) => at("[#"@) + seq![Layout::Quoted(c.files.name_of(loc.tag()))] + at(
            " "@ + decimal(loc.start_line() as int) + " "@ + decimal(loc.start_col() as int) + " "@
                + decimal(loc.end_line() as int) + " "@ + decimal(loc.end_col() as int) + "]"@,
        ) + maybe_marker(c, loc),
    }
}

/// Whether an attribute is kept when removing attributes named `rm`.
pub open spec fn attr_kept(a: Attr, rm: Option<Seq<char>>) -> bool {
    match rm {
        Some(s) => !(a matches Attr::Str(att) && att.text() == s),
        None => true,
    }
}

/// The layouts of the attributes that are kept.
pub open spec fn attrs_parts(c: PrintCtx, ats: Seq<Attr>, rm: Option<Seq<char>>) -> Seq<
    Seq<Layout>,
>
    decreases ats.len(),
{
    if ats.len() == 0 {
        seq![]
    } else if attr_kept(ats.last(), rm) {
        attrs_parts(c, ats.drop_last(), rm).push(attr_layout(c, ats.last()))
    } else {
        attrs_parts(c, ats.drop_last(), rm)
    }
}

/// An identifier, without the attributes named `rm`.
pub open spec fn ident_rm(c: PrintCtx, attr: bool, id: Ident, rm: Option<Seq<char>>) -> Seq<
    Layout,
> {
    maybe_marker(c, id.loc) + at(decode_text(decode(id.str@))) + if attr {
        opt_list(at(" "@), empty(), empty(), empty(), empty(), attrs_parts(c, id.ats@, rm))
    } else {
        empty()
    }
}

pub open spec fn ident(c: PrintCtx, attr: bool, id: Ident) -> Seq<Layout> {
    ident_rm(c, attr, id, None)
}

pub open spec fn qualid_ids(c: PrintCtx, attr: bool, ids: Seq<Ident>) -> Seq<Layout>
    decreases ids.len(),
{
    if ids.len() <= 1 {
        if ids.len() == 1 {
            ident(c, attr, ids[0])
        } else {
            empty()
        }
    } else {
        hb(qualid_ids(c, attr, ids.drop_last()) + at("."@) + ident(c, attr, ids.last()))
    }
}

pub open spec fn qualid(c: PrintCtx, attr: bool, q: Qualid) -> Seq<Layout> {
    qualid_ids(c, attr, q.0@)
}

// ------------------------------------------------------------ applications

/// The shapes of applications of a qualified identifier to arguments.
pub ghost enum AppShape {
    /// `x.f`, for a qualified lowercase word `f`
    QualField,
    /// `M.f x y`
    QualApp,
    /// `x.f`, for a lowercase word `f`
    Field(Seq<char>),
    /// `f x y`
    Word(Seq<char>),
    Infix(Seq<char>),
    Prefix(Seq<char>),
    Tight(Seq<char>),
    Get(Seq<char>),
    SetElt(Seq<char>),
    Update(Seq<char>),
    Cut1(Seq<char>),
    Cut3(Seq<char>),
    Lcut(Seq<char>),
    Rcut(Seq<char>),
    /// a notation applied to the wrong number of arguments
    Bad,
}

pub open spec fn lowercase_start(s: Seq<char>) -> bool {
    s.len() > 0 && 'a' <= s[0] <= 'z'
}

pub open spec fn app_shape(q: Seq<Ident>, n: nat) -> AppShape {
    let n_dec = decode(q.last().str@);
    if q.len() > 1 {
        match n_dec {
            NotationV::Word(s) => if n == 1 && s.len() == 0 {
                AppShape::Bad
            } else if n == 1 && lowercase_start(s) {
                AppShape::QualField
            } else {
                AppShape::QualApp
            },
            _ => AppShape::QualApp,
        }
    } else {
        match n_dec {
            NotationV::Word(s) => if n == 1 && s.len() == 0 {
                AppShape::Bad
            } else if n == 1 && lowercase_start(s) {
                AppShape::Field(s)
            } else {
                AppShape::Word(s)
            },
            NotationV::Infix(s) => if n == 2 {
                AppShape::Infix(s)
            } else {
                AppShape::Bad
            },
            NotationV::Prefix(s) => if n == 1 {
                AppShape::Prefix(s)
            } else {
                AppShape::Bad
            },
            NotationV::Tight(s) => if n == 1 {
                AppShape::Tight(s)
            } else {
                AppShape::Bad
            },
            NotationV::Get(s) => if n == 2 {
                AppShape::Get(s)
            } else {
                AppShape::Bad
            },
            NotationV::SetElt(s) => if n == 3 {
                AppShape::SetElt(s)
            } else {
                AppShape::Bad
            },
            NotationV::Update(s) => if n == 3 {
                AppShape::Update(s)
            } else {
                AppShape::Bad
            },
            NotationV::Cut(s) => if n == 1 {
                AppShape::Cut1(s)
            } else if n == 3 {
                AppShape::Cut3(s)
            } else {
                AppShape::Bad
            },
            NotationV::Lcut(s) => if n == 2 {
                AppShape::Lcut(s)
            } else {
                AppShape::Bad
            },
            NotationV::Rcut(s) => if n == 2 {
                AppShape::Rcut(s)
            } else {
                AppShape::Bad
            },
        }
    }
}

/// Whether the `i`-th argument is printed as is (else in parentheses when needed).
pub open spec fn arg_marked(sh: AppShape, i: int) -> bool {
    match sh {
        AppShape::Get(_) => i == 1,
        AppShape::SetElt(_) => i == 1,
        AppShape::Update(_) => i == 1 || i == 2,
        AppShape::Cut3(_) => i == 1 || i == 2,
        AppShape::Lcut(_) => i == 1,
        AppShape::Rcut(_) => i == 1,
        _ => false,
    }
}

/// The application of `q` to arguments laid out as `xs`.
pub open spec fn app_layout(
    c: PrintCtx,
    attr: bool,
    q: Qualid,
    sh: AppShape,
    xs: Seq<Seq<Layout>>,
) -> Seq<Layout> {
    let id = q.0@.last();
    let mm = maybe_marker(c, id.loc);
    match sh {
        AppShape::QualField => hv(2, mm + xs[0] + at("."@) + qualid(c, attr, q)),
        AppShape::QualApp => hv(3, qualid(c, attr, q) + sp() + join(xs, sp())),
        AppShape::Field(s) => hv(2, mm + xs[0] + at("."@ + s)),
        AppShape::Word(s) => hv(2, mm + at(s) + sp() + join(xs, sp())),
        AppShape::Infix(s) => hv(2, xs[0] + sp() + mm + at(s + " "@) + xs[1]),
        AppShape::Prefix(s) => hb(mm + at(s) + sp() + xs[0]),
        AppShape::Tight(s) => hb(mm + at(s) + xs[0]),
        AppShape::Get(s) => hv(1, xs[0] + at("["@) + xs[1] + at("]"@) + mm + at(s)),
        AppShape::SetElt(s) => hv(
            1,
            xs[0] + at("["@) + xs[1] + at("] "@) + mm + at(s) + at(" <- "@) + xs[2],
        ),
        AppShape::Update(s) => hb(
            xs[0] + at("["@) + xs[1] + at(" <- "@) + xs[2] + at("]"@) + mm + at(s),
        ),
        AppShape::Cut1(s) => hb(xs[0] + at("[..]"@) + mm + at(s)),
        AppShape::Cut3(s) => hb(
            xs[0] + at("["@) + xs[1] + at(" .. "@) + xs[2] + at("]"@) + mm + at(s),
        ),
        AppShape::Lcut(s) => hb(xs[0] + at("[.. "@) + xs[1] + at("]"@) + mm + at(s)),
        AppShape::Rcut(s) => hb(xs[0] + at(" ["@) + xs[1] + at(" ..]"@) + mm + at(s)),
        AppShape::Bad => empty(),
    }
}

/// The infix operator's symbol, for an identifier whose notation is infix.
pub open spec fn infix_op(op: Ident) -> Seq<char> {
    match decode(op.str@) {
        NotationV::Infix(s) => s,
        _ => Seq::empty(),
    }
}

pub open spec fn is_infix_ident(op: Ident) -> bool {
    decode(op.str@) is Infix
}

pub open spec fn tuple_layout(xs: Seq<Seq<Layout>>) -> Seq<Layout> {
    hv(1, at("("@) + join(xs, at(","@) + sp()) + at(")"@))
}

pub open spec fn field_layout(q: Seq<Layout>, x: Seq<Layout>) -> Seq<Layout> {
    hv(2, q + at(" ="@) + sp() + x)
}

pub open spec fn if_layout(x1: Seq<Layout>, x2: Seq<Layout>, x3: Seq<Layout>) -> Seq<Layout> {
    vb(
        0,
        hv(2, at("if "@) + x1 + at(" then"@) + sp() + x2) + sp() + hv(2, at("else"@) + sp() + x3),
    )
}

pub open spec fn cast_layout(x: Seq<Layout>, ty: Seq<Layout>) -> Seq<Layout> {
    hv(2, x + at(" :"@) + sp() + ty)
}

pub open spec fn scope_layout(q: Seq<Layout>, x: Seq<Layout>) -> Seq<Layout> {
    hv(2, q + at(".("@) + x + at(")"@))
}

pub open spec fn not_layout(x: Seq<Layout>) -> Seq<Layout> {
    hb(at("not"@) + sp() + x)
}

pub open spec fn innfix_layout(c: PrintCtx, op: Ident, x1: Seq<Layout>, x2: Seq<Layout>) -> Seq<
    Layout,
> {
    maybe_marker(c, op.loc) + hv(
        3,
        at("("@) + x1 + sp() + at(infix_op(op) + " "@) + x2 + at(")"@),
    )
}

pub open spec fn ghost_layout(g: bool) -> Seq<Layout> {
    if g {
        at("ghost "@)
    } else {
        empty()
    }
}

pub open spec fn mutable_layout(m: bool) -> Seq<Layout> {
    if m {
        at("mutable "@)
    } else {
        empty()
    }
}

pub open spec fn kind_layout(k: RsKind) -> Seq<Layout> {
    match k {
        RsKind::NonPure => empty(),
        RsKind::Func => at("function "@),
        RsKind::Pred => at("predicate "@),
        RsKind::Lemma => at("lemma "@),
        RsKind::Local => unsupported_text("RKLOCAL"@),
    }
}

/// `partial ` whatever the flag.
pub open spec fn partial_layout(x: bool) -> Seq<Layout> {
    at("partial "@)
}

/// ` import` after `use` or `clone`, when the names are imported.
pub open spec fn import_layout(i: bool) -> Seq<Layout> {
    if i {
        at(" import"@)
    } else {
        empty()
    }
}

// ------------------------------------------------------------------ types

pub open spec fn pty_is_closed(t: Pty) -> bool {
    match t {
        Pty::Tyvar(_) | Pty::Tuple(_) | Pty::Scope(_, _) | Pty::Paren(_) | Pty::Pure(_) => true,
        Pty::Tyapp(_, l) => l@.len() == 0,
        _ => false,
    }
}

pub open spec fn pty_raw(c: PrintCtx, attr: bool, t: Pty) -> Seq<Layout>
    decreases t, 0nat,
{
    match t {
        Pty::Tyvar(id) => at("'"@) + ident(c, attr, id),
        Pty::Tyapp(q, ps) => if ps@.len() == 0 {
            qualid(c, attr, q)
        } else {
            hv(2, qualid(c, attr, q) + sp() + join(ptys_closed(c, attr, ps@), at(" "@)))
        },
        Pty::Tuple(ps) => tuple_layout(ptys_closed(c, attr, ps@)),
        Pty::Ref(_) => empty(),
        Pty::Arrow(a, b) => hv(
            2,
            pty_closed(c, attr, *a) + at(" ->"@) + sp() + pty_closed(c, attr, *b),
        ),
        Pty::Scope(q, p) => scope_layout(qualid(c, attr, q), pty_raw(c, attr, *p)),
        Pty::Paren(p) => at("("@) + pty_raw(c, attr, *p) + at(")"@),
        Pty::Pure(p) => at("{"@) + pty_raw(c, attr, *p) + at("}"@),
    }
}

pub open spec fn pty_closed(c: PrintCtx, attr: bool, t: Pty) -> Seq<Layout>
    decreases t, 1nat,
{
    parens_unless(pty_is_closed(t), pty_raw(c, attr, t))
}

pub open spec fn ptys_closed(c: PrintCtx, attr: bool, ps: Seq<Pty>) -> Seq<Seq<Layout>>
    decreases ps, 0nat,
{
    if ps.len() == 0 {
        seq![]
    } else {
        ptys_closed(c, attr, ps.drop_last()).push(pty_closed(c, attr, ps.last()))
    }
}

/// A type that the printer lays out: no reference type inside.
pub open spec fn wf_pty(t: Pty) -> bool
    decreases t, 0nat,
{
    match t {
        Pty::Tyvar(_) => true,
        Pty::Tyapp(q, ps) => q.0@.len() > 0 && wf_ptys(ps@),
        Pty::Tuple(ps) => wf_ptys(ps@),
        Pty::Ref(_) => false,
        Pty::Arrow(a, b) => wf_pty(*a) && wf_pty(*b),
        Pty::Scope(q, p) => q.0@.len() > 0 && wf_pty(*p),
        Pty::Paren(p) => wf_pty(*p),
        Pty::Pure(p) => wf_pty(*p),
    }
}

pub open spec fn wf_ptys(ps: Seq<Pty>) -> bool
    decreases ps, 0nat,
{
    ps.len() == 0 || (wf_ptys(ps.drop_last()) && wf_pty(ps.last()))
}

/// `ref ` and the type under one reference, or nothing and the type.
pub open spec fn ref_split(t: Pty) -> (Seq<char>, Pty) {
    match t {
        Pty::Ref(ps) => if ps@.len() == 1 {
            ("ref "@, ps@[0])
        } else {
            (Seq::empty(), t)
        },
        _ => (Seq::empty(), t),
    }
}

pub open spec fn wf_pty_ref(t: Pty) -> bool {
    wf_pty(ref_split(t).1)
}

// --------------------------------------------------------------- patterns

pub open spec fn pat_is_closed(c: PrintCtx, p: Pattern) -> bool {
    match p.desc {
        PatDesc::Wild | PatDesc::Var(_) | PatDesc::Tuple(_) | PatDesc::Paren(_) | PatDesc::Scope(
            _,
            _,
        ) | PatDesc::Cast(_, _) => true,
        PatDesc::App(_, l) => l@.len() == 0 || marker_of(c, p.loc) is Some,
        _ => marker_of(c, p.loc) is Some,
    }
}

pub open spec fn pat_raw(c: PrintCtx, attr: bool, p: Pattern) -> Seq<Layout>
    decreases p, 0nat,
{
    match p.desc {
        PatDesc::Wild => at("_"@),
        PatDesc::Var(id) => ident(c, attr, id),
        PatDesc::App(q, ps) => {
            let sh = app_shape(q.0@, ps@.len());
            app_layout(c, attr, q, sh, pats_args(c, attr, sh, ps@))
        },
        PatDesc::Rec(fs) => at("{ "@) + join(pat_fields(c, attr, fs@), at(";"@) + sp()) + at(
            " }"@,
        ),
        PatDesc::Tuple(ps) => tuple_layout(pats_closed(c, attr, ps@)),
        PatDesc::As(q, id, g) => hv(2, pat_marked(c, attr, *q)) + at(" as"@) + sp() + ghost_layout(g)
            + ident(c, attr, id),
        PatDesc::Or(a, b) => pat_marked(c, attr, *a) + at(" | "@) + pat_marked(c, attr, *b),
        PatDesc::Cast(q, t) => cast_layout(pat_closed(c, attr, *q), pty_closed(c, attr, t)),
        PatDesc::Scope(q, x) => scope_layout(qualid(c, attr, q), pat_marked(c, attr, *x)),
        PatDesc::Paren(x) => at("("@) + pat_marked(c, attr, *x) + at(")"@),
        PatDesc::GhostPat(x) => hb(at("ghost"@) + sp() + pat_marked(c, attr, *x)),
    }
}

pub open spec fn pat_marked(c: PrintCtx, attr: bool, p: Pattern) -> Seq<Layout>
    decreases p, 1nat,
{
    maybe_marked(c, p.loc, pat_raw(c, attr, p))
}

pub open spec fn pat_closed(c: PrintCtx, attr: bool, p: Pattern) -> Seq<Layout>
    decreases p, 2nat,
{
    parens_unless(pat_is_closed(c, p), pat_marked(c, attr, p))
}

pub open spec fn pats_closed(c: PrintCtx, attr: bool, ps: Seq<Pattern>) -> Seq<Seq<Layout>>
    decreases ps, 0nat,
{
    if ps.len() == 0 {
        seq![]
    } else {
        pats_closed(c, attr, ps.drop_last()).push(pat_closed(c, attr, ps.last()))
    }
}

pub open spec fn pats_args(c: PrintCtx, attr: bool, sh: AppShape, ps: Seq<Pattern>) -> Seq<
    Seq<Layout>,
>
    decreases ps, 0nat,
{
    if ps.len() == 0 {
        seq![]
    } else {
        pats_args(c, attr, sh, ps.drop_last()).push(
            if arg_marked(sh, ps.len() - 1) {
                pat_marked(c, attr, ps.last())
            } else {
                pat_closed(c, attr, ps.last())
            },
        )
    }
}

pub open spec fn pat_fields(c: PrintCtx, attr: bool, fs: Seq<(Qualid, Pattern)>) -> Seq<
    Seq<Layout>,
>
    decreases fs, 0nat,
{
    if fs.len() == 0 {
        seq![]
    } else {
        pat_fields(c, attr, fs.drop_last()).push(
            qualid(c, attr, fs.last().0) + at(" = "@) + pat_closed(c, attr, fs.last().1),
        )
    }
}

pub open spec fn wf_pat(p: Pattern) -> bool
    decreases p, 0nat,
{
    match p.desc {
        PatDesc::Wild => true,
        PatDesc::Var(_) => true,
        PatDesc::App(q, ps) => q.0@.len() > 0 && !(app_shape(q.0@, ps@.len()) is Bad) && wf_pats(
            ps@,
        ),
        PatDesc::Rec(fs) => wf_pat_fields(fs@),
        PatDesc::Tuple(ps) => wf_pats(ps@),
        PatDesc::As(q, _, _) => wf_pat(*q),
        PatDesc::Or(a, b) => wf_pat(*a) && wf_pat(*b),
        PatDesc::Cast(q, t) => wf_pat(*q) && wf_pty(t),
        PatDesc::Scope(q, x) => q.0@.len() > 0 && wf_pat(*x),
        PatDesc::Paren(x) => wf_pat(*x),
        PatDesc::GhostPat(x) => wf_pat(*x),
    }
}

pub open spec fn wf_pats(ps: Seq<Pattern>) -> bool
    decreases ps, 0nat,
{
    ps.len() == 0 || (wf_pats(ps.drop_last()) && wf_pat(ps.last()))
}

pub open spec fn wf_pat_fields(fs: Seq<(Qualid, Pattern)>) -> bool
    decreases fs, 0nat,
{
    fs.len() == 0 || (wf_pat_fields(fs.drop_last()) && fs.last().0.0@.len() > 0 && wf_pat(
        fs.last().1,
    ))
}

} // verus!
