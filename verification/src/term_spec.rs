//! The layout of terms, binders and match branches that the printer
//! produces, and the terms that it prints without failing.

use vstd::prelude::*;

use crate::doc::{at, join, opt_list, sp, Layout};
use crate::dterm::{Dbinop, Dquant};
use crate::expr::RsKind;
use crate::mlw_printer::PrintCtx;
use crate::mlw_spec::{
    app_layout, app_shape, arg_marked, attr_layout, cast_layout, empty, ghost_layout, hv,
    ident, ident_rm, if_layout, infix_op, innfix_layout, is_infix_ident, marker_of,
    maybe_marked, maybe_marker, not_layout, parens_unless, pat_marked, pty_closed, pty_raw,
    qualid, ref_split, sb, scope_layout, tuple_layout, vb, wf_pat, wf_pty, wf_pty_ref, AppShape,
};
use crate::number_spec::{const_layout, wf_const};
use crate::ptree::{Attr, Binder, Ident, Pattern, Qualid, Term, TermDesc};

verus! {

// ------------------------------------------------------------- identities

/// Two lists of attributes are the same.
pub open spec fn same_attrs(a: Seq<Attr>, b: Seq<Attr>) -> bool {
    a.len() == b.len() && forall|i: int|
        0 <= i < a.len() ==> match (#[trigger] a[i], b[i]) {
            (Attr::Str(x), Attr::Str(y)) => x.text() == y.text(),
            (Attr::Pos(x), Attr::Pos(y)) => x == y,
            _ => false,
        }
}

/// Two identifiers are the same: same name, attributes and location.
pub open spec fn same_ident(a: Ident, b: Ident) -> bool {
    a.str@ == b.str@ && same_attrs(a.ats@, b.ats@) && a.loc == b.loc
}

// ------------------------------------------------------------ binders

/// An optional identifier, or `_`.
pub open spec fn opt_id_layout(c: PrintCtx, attr: bool, oid: Option<Ident>, rm: Option<Seq<char>>) -> Seq<
    Layout,
> {
    match oid {
        Some(id) => ident_rm(c, attr, id, rm),
        None => at("_"@),
    }
}

/// An optional type annotation, with the reference mark removed.
pub open spec fn binder_pty(c: PrintCtx, attr: bool, opty: Option<crate::ptree::Pty>) -> Seq<Layout> {
    match opty {
        Some(t) => at(" : "@) + pty_raw(c, attr, ref_split(t).1),
        None => empty(),
    }
}

pub open spec fn binder_ref(opty: Option<crate::ptree::Pty>) -> Seq<char> {
    match opty {
        Some(t) => ref_split(t).0,
        None => Seq::empty(),
    }
}

/// A binder, as in `let f (x: int) (ghost y) _ = ...`.
pub open spec fn binder_layout(c: PrintCtx, attr: bool, b: Binder) -> Seq<Layout> {
    if b.2 || b.3 is Some {
        maybe_marker(c, b.0) + at("("@) + ghost_layout(b.2) + at(binder_ref(b.3)) + opt_id_layout(
            c,
            attr,
            b.1,
            Some("mlw:reference_var"@),
        ) + binder_pty(c, attr, b.3) + at(")"@)
    } else {
        maybe_marker(c, b.0) + opt_id_layout(c, attr, b.1, None)
    }
}

/// A binder of a quantifier, as in `forall x: int, ghost y.`.
pub open spec fn comma_binder_layout(c: PrintCtx, attr: bool, b: Binder) -> Seq<Layout> {
    maybe_marker(c, b.0) + ghost_layout(b.2) + at(binder_ref(b.3)) + opt_id_layout(
        c,
        attr,
        b.1,
        None,
    ) + binder_pty(c, attr, b.3)
}

pub open spec fn binders_parts(c: PrintCtx, attr: bool, bs: Seq<Binder>) -> Seq<Seq<Layout>>
    decreases bs.len(),
{
    if bs.len() == 0 {
        seq![]
    } else {
        binders_parts(c, attr, bs.drop_last()).push(binder_layout(c, attr, bs.last()))
    }
}

pub open spec fn comma_binders_parts(c: PrintCtx, attr: bool, bs: Seq<Binder>) -> Seq<Seq<Layout>>
    decreases bs.len(),
{
    if bs.len() == 0 {
        seq![]
    } else {
        comma_binders_parts(c, attr, bs.drop_last()).push(comma_binder_layout(c, attr, bs.last()))
    }
}

/// Binders, each preceded by a space.
pub open spec fn binders_layout(c: PrintCtx, attr: bool, bs: Seq<Binder>) -> Seq<Layout> {
    opt_list(at(" "@), empty(), empty(), empty(), empty(), binders_parts(c, attr, bs))
}

/// Binders of a quantifier, after a space and separated by commas.
pub open spec fn comma_binders_layout(c: PrintCtx, attr: bool, bs: Seq<Binder>) -> Seq<Layout> {
    opt_list(at(" "@), empty(), at(", "@), empty(), empty(), comma_binders_parts(c, attr, bs))
}

pub open spec fn wf_binder(b: Binder) -> bool {
    match b.3 {
        Some(t) => wf_pty_ref(t),
        None => true,
    }
}

pub open spec fn wf_binders(bs: Seq<Binder>) -> bool {
    forall|i: int| 0 <= i < bs.len() ==> wf_binder(#[trigger] bs[i])
}

// ------------------------------------------------------------ connectives

pub open spec fn binop_text(op: Dbinop) -> Seq<char> {
    match op {
        Dbinop::And => "/\\"@,
        Dbinop::AndAsym => "&&"@,
        Dbinop::Or => "\\/"@,
        Dbinop::OrAsym => "||"@,
        Dbinop::Implies => "->"@,
        Dbinop::Iff => "<->"@,
        Dbinop::By => "by"@,
        Dbinop::So => "so"@,
    }
}

pub open spec fn quant_keyword(q: Dquant) -> Seq<char> {
    match q {
        Dquant::Forall => "forall"@,
        Dquant::Exists => "exists"@,
        Dquant::Lambda => "fun"@,
    }
}

pub open spec fn quant_sep(q: Dquant) -> Seq<char> {
    match q {
        Dquant::Lambda => "->"@,
        _ => "."@,
    }
}

pub open spec fn quant_binders(c: PrintCtx, attr: bool, q: Dquant, bs: Seq<Binder>) -> Seq<Layout> {
    match q {
        Dquant::Lambda => binders_layout(c, attr, bs),
        _ => comma_binders_layout(c, attr, bs),
    }
}

/// A `match` with its regular and exceptional branches laid out.
pub open spec fn match_layout(x: Seq<Layout>, cases: Seq<Seq<Layout>>, xcases: Seq<Seq<Layout>>) -> Seq<
    Layout,
> {
    vb(
        0,
        hv(2, at("match "@) + x + at(" with"@)) + opt_list(
            sp() + at("| "@),
            empty(),
            sp() + at("| "@),
            empty(),
            empty(),
            cases,
        ) + opt_list(
            sp() + at("| exception "@),
            empty(),
            sp() + at("| exception "@),
            empty(),
            empty(),
            xcases,
        ) + sp() + at("end"@),
    )
}

pub open spec fn branch_layout(p: Seq<Layout>, x: Seq<Layout>) -> Seq<Layout> {
    hv(2, p + at(" ->"@) + sp() + x)
}

pub open spec fn record_layout(fs: Seq<Seq<Layout>>) -> Seq<Layout> {
    sb(0, hv(2, at("{ "@) + join(fs, at(" ;"@) + sp())) + at(" }"@))
}

pub open spec fn update_layout(x: Seq<Layout>, fs: Seq<Seq<Layout>>) -> Seq<Layout> {
    hv(2, at("{ "@) + x + at(" with"@) + sp() + join(fs, at(" ;"@) + sp()) + at(" }"@))
}

pub open spec fn let_layout(
    c: PrintCtx,
    attr: bool,
    id: Ident,
    g: bool,
    k: RsKind,
    x: Seq<Layout>,
) -> Seq<Layout> {
    hv(
        2,
        at("let "@) + ghost_layout(g) + crate::mlw_spec::kind_layout(k) + ident(c, attr, id) + at(
            " ="@,
        ) + sp() + x,
    )
}

// ------------------------------------------------------------------ terms

pub open spec fn is_funlit_attr(a: Attr) -> bool {
    a matches Attr::Str(s) && s.text() == "funlit"@
}

pub open spec fn term_is_closed(c: PrintCtx, t: Term) -> bool {
    match t.desc {
        TermDesc::True | TermDesc::False | TermDesc::Const(_) | TermDesc::Ident(_)
        | TermDesc::Update(_, _) | TermDesc::Record(_) | TermDesc::Tuple(_) | TermDesc::Scope(
            _,
            _,
        ) | TermDesc::Innfix(_, _, _) | TermDesc::Binnop(_, _, _) => true,
        TermDesc::Idapp(_, l) => l@.len() == 0 || marker_of(c, t.loc) is Some,
        _ => marker_of(c, t.loc) is Some,
    }
}

pub open spec fn term_raw(c: PrintCtx, attr: bool, t: Term) -> Seq<Layout>
    decreases t, 0nat,
{
    match t.desc {
        TermDesc::True => at("true"@),
        TermDesc::False => at("false"@),
        TermDesc::Const(k) => const_layout(k),
        TermDesc::Ident(q) => qualid(c, attr, q),
        TermDesc::Asref(q) => qualid(c, attr, q),
        TermDesc::Idapp(q, ts) => {
            let sh = app_shape(q.0@, ts@.len());
            app_layout(c, attr, q, sh, terms_args(c, attr, sh, ts@))
        },
        TermDesc::Apply(a, b) => hv(
            2,
            join(tapply_parts(c, attr, *a).push(term_closed(c, attr, *b)), sp()),
        ),
        TermDesc::Infix(a, op, b) => term_closed(c, attr, *a) + sp() + tinfix_tail(c, attr, op, *b),
        TermDesc::Innfix(a, op, b) => innfix_layout(
            c,
            op,
            term_closed(c, attr, *a),
            term_closed(c, attr, *b),
        ),
        TermDesc::Binop(a, op, b) => hv(
            2,
            term_closed(c, attr, *a) + sp() + tbinop_tail(c, attr, op, *b),
        ),
        TermDesc::Binnop(a, op, b) => hv(
            3,
            at("("@) + term_closed(c, attr, *a) + at(" "@) + at(binop_text(op)) + sp()
                + term_closed(c, attr, *b) + at(")"@),
        ),
        TermDesc::Not(a) => not_layout(term_closed(c, attr, *a)),
        TermDesc::If(a, b, d) => if_layout(
            term_closed(c, attr, *a),
            term_closed(c, attr, *b),
            term_closed(c, attr, *d),
        ),
        TermDesc::Quant(q, bs, trs, body) => hv(
            2,
            at(quant_keyword(q)) + hv(
                0,
                quant_binders(c, attr, q, bs@) + triggers_layout(c, attr, trs@),
            ) + at(quant_sep(q)) + sp() + term_marked(c, attr, *body),
        ),
        TermDesc::Eps(id, ty, f) => hv(
            2,
            at("epsilon "@) + ident(c, attr, id) + at(":"@) + pty_raw(c, attr, ty) + at("."@) + sp()
                + term_marked(c, attr, *f),
        ),
        TermDesc::Attr(a, b) => if is_funlit_attr(a) {
            t_funlit(c, attr, *b)
        } else {
            sb(0, attr_layout(c, a) + term_marked(c, attr, *b))
        },
        TermDesc::Let(id, a, b) => vb(
            0,
            let_layout(c, attr, id, false, RsKind::NonPure, term_marked(c, attr, *a)) + at(" in"@)
                + sp() + term_marked(c, attr, *b),
        ),
        TermDesc::Case(x, cases) => match_layout(
            term_marked(c, attr, *x),
            tbranches(c, attr, cases@),
            seq![],
        ),
        TermDesc::Cast(x, ty) => cast_layout(term_closed(c, attr, *x), pty_closed(c, attr, ty)),
        TermDesc::Tuple(ts) => tuple_layout(terms_closed(c, attr, ts@)),
        TermDesc::Record(fs) => record_layout(term_fields(c, attr, fs@)),
        TermDesc::Update(x, fs) => update_layout(term_closed(c, attr, *x), term_fields(c, attr, fs@)),
        TermDesc::Scope(q, x) => scope_layout(qualid(c, attr, q), term_marked(c, attr, *x)),
        TermDesc::At(x, id) => if id.str@ == "Old"@ {
            maybe_marker(c, id.loc) + at("old "@) + term_closed(c, attr, *x)
        } else {
            term_closed(c, attr, *x) + at(" at "@) + ident(c, attr, id)
        },
    }
}

/// A term, with the marker's message before it if it is at the term's location.
pub open spec fn term_marked(c: PrintCtx, attr: bool, t: Term) -> Seq<Layout>
    decreases t, 1nat,
{
    maybe_marked(c, t.loc, term_raw(c, attr, t))
}

/// A term, in parentheses unless it is closed.
pub open spec fn term_closed(c: PrintCtx, attr: bool, t: Term) -> Seq<Layout>
    decreases t, 2nat,
{
    parens_unless(term_is_closed(c, t), term_marked(c, attr, t))
}

/// The function and arguments of a curried application, closed.
pub open spec fn tapply_parts(c: PrintCtx, attr: bool, t: Term) -> Seq<Seq<Layout>>
    decreases t, 3nat,
{
    match t.desc {
        TermDesc::Apply(a, b) => tapply_parts(c, attr, *a).push(term_closed(c, attr, *b)),
        _ => seq![term_closed(c, attr, t)],
    }
}

/// An infix operator and its right operand.
pub open spec fn infix_step(c: PrintCtx, op: Ident, x: Seq<Layout>) -> Seq<Layout> {
    maybe_marker(c, op.loc) + at(infix_op(op)) + sp() + x
}

/// The operators and operands of a chain of infix applications, after its
/// first operand.
pub open spec fn tinfix_tail(c: PrintCtx, attr: bool, op: Ident, t: Term) -> Seq<Layout>
    decreases t, 3nat,
{
    match t.desc {
        TermDesc::Infix(a, op2, b) => infix_step(c, op, term_closed(c, attr, *a)) + sp()
            + tinfix_tail(c, attr, op2, *b),
        _ => infix_step(c, op, term_closed(c, attr, t)),
    }
}

/// The connectives and operands of a chain of binary connectives, after its
/// first operand.
pub open spec fn tbinop_tail(c: PrintCtx, attr: bool, op: Dbinop, t: Term) -> Seq<Layout>
    decreases t, 3nat,
{
    match t.desc {
        TermDesc::Binop(a, op2, b) => at(binop_text(op)) + sp() + term_closed(c, attr, *a) + sp()
            + tbinop_tail(c, attr, op2, *b),
        _ => at(binop_text(op)) + sp() + term_closed(c, attr, t),
    }
}

/// A function literal `[| k1 => v1; ...; _ => d |]`.
pub open spec fn t_funlit(c: PrintCtx, attr: bool, t: Term) -> Seq<Layout>
    decreases t, 4nat,
{
    match t.desc {
        TermDesc::Quant(_, bs, _, body) => if bs@.len() == 1 && bs@[0].1 is Some {
            at("[|"@) + tfunlit_elems(c, attr, bs@[0].1->0, *body) + at("|]"@)
        } else {
            empty()
        },
        _ => empty(),
    }
}

/// The key of a function literal's case: `if var = key then value else ...`.
pub open spec fn tfunlit_key(var: Ident, t: Term) -> Option<(Term, Term, Term)> {
    match t.desc {
        TermDesc::If(x, t2, t3) => match x.desc {
            TermDesc::Infix(v, _, k) => match v.desc {
                TermDesc::Ident(q) => if q.0@.len() == 1 && same_ident(var, q.0@[0]) {
                    Some((*k, *t2, *t3))
                } else {
                    None
                },
                _ => None,
            },
            _ => None,
        },
        _ => None,
    }
}

pub open spec fn is_any_function(t: Term) -> bool {
    t.desc matches TermDesc::Idapp(q, _) && q.0@.len() == 1 && q.0@[0].str@ == "any function"@
}

pub open spec fn tfunlit_elems(c: PrintCtx, attr: bool, var: Ident, t: Term) -> Seq<Layout>
    decreases t, 3nat,
{
    match t.desc {
        TermDesc::If(x, t2, t3) => if tfunlit_key(var, t) is Some {
            let k = match x.desc {
                TermDesc::Infix(_, _, k) => *k,
                _ => *x,
            };
            term_marked(c, attr, k) + at(" => "@) + term_marked(c, attr, *t2) + at(";"@)
                + tfunlit_elems(c, attr, var, *t3)
        } else {
            at("_ => "@) + term_marked(c, attr, t)
        },
        _ => if is_any_function(t) {
            empty()
        } else {
            at("_ => "@) + term_marked(c, attr, t)
        },
    }
}

pub open spec fn triggers_layout(c: PrintCtx, attr: bool, trs: Seq<Vec<Term>>) -> Seq<Layout>
    decreases trs, 1nat,
{
    opt_list(
        sp() + at("["@),
        empty(),
        sp() + at(" | "@),
        sp() + at("]"@),
        empty(),
        trigger_parts(c, attr, trs),
    )
}

pub open spec fn trigger_parts(c: PrintCtx, attr: bool, trs: Seq<Vec<Term>>) -> Seq<Seq<Layout>>
    decreases trs, 0nat,
{
    if trs.len() == 0 {
        seq![]
    } else {
        trigger_parts(c, attr, trs.drop_last()).push(
            join(terms_marked(c, attr, trs.last()@), at(", "@)),
        )
    }
}

pub open spec fn terms_marked(c: PrintCtx, attr: bool, ts: Seq<Term>) -> Seq<Seq<Layout>>
    decreases ts, 0nat,
{
    if ts.len() == 0 {
        seq![]
    } else {
        terms_marked(c, attr, ts.drop_last()).push(term_marked(c, attr, ts.last()))
    }
}

pub open spec fn terms_closed(c: PrintCtx, attr: bool, ts: Seq<Term>) -> Seq<Seq<Layout>>
    decreases ts, 0nat,
{
    if ts.len() == 0 {
        seq![]
    } else {
        terms_closed(c, attr, ts.drop_last()).push(term_closed(c, attr, ts.last()))
    }
}

pub open spec fn terms_args(c: PrintCtx, attr: bool, sh: AppShape, ts: Seq<Term>) -> Seq<
    Seq<Layout>,
>
    decreases ts, 0nat,
{
    if ts.len() == 0 {
        seq![]
    } else {
        terms_args(c, attr, sh, ts.drop_last()).push(
            if arg_marked(sh, ts.len() - 1) {
                term_marked(c, attr, ts.last())
            } else {
                term_closed(c, attr, ts.last())
            },
        )
    }
}

pub open spec fn term_fields(c: PrintCtx, attr: bool, fs: Seq<(Qualid, Term)>) -> Seq<Seq<Layout>>
    decreases fs, 0nat,
{
    if fs.len() == 0 {
        seq![]
    } else {
        term_fields(c, attr, fs.drop_last()).push(
            crate::mlw_spec::field_layout(qualid(c, attr, fs.last().0), term_closed(c, attr, fs.last().1)),
        )
    }
}

pub open spec fn tbranches(c: PrintCtx, attr: bool, bs: Seq<(Pattern, Term)>) -> Seq<Seq<Layout>>
    decreases bs, 0nat,
{
    if bs.len() == 0 {
        seq![]
    } else {
        tbranches(c, attr, bs.drop_last()).push(
            branch_layout(pat_marked(c, attr, bs.last().0), term_marked(c, attr, bs.last().1)),
        )
    }
}

// ---------------------------------------------------- printable terms

/// A term that the printer lays out: qualified identifiers are not empty,
/// applications of notations have the notation's number of arguments, infix
/// operators are infix symbols, function literals have their shape, and an
/// attribute other than `funlit` stands before another attribute.
pub open spec fn wf_term(t: Term) -> bool
    decreases t, 0nat,
{
    match t.desc {
        TermDesc::True | TermDesc::False => true,
        TermDesc::Const(k) => wf_const(k),
        TermDesc::Ident(q) | TermDesc::Asref(q) => q.0@.len() > 0,
        TermDesc::Idapp(q, ts) => q.0@.len() > 0 && !(app_shape(q.0@, ts@.len()) is Bad) && wf_terms(
            ts@,
        ),
        TermDesc::Apply(a, b) => wf_term(*a) && wf_term(*b),
        TermDesc::Infix(a, op, b) | TermDesc::Innfix(a, op, b) => is_infix_ident(op) && wf_term(*a)
            && wf_term(*b),
        TermDesc::Binop(a, _, b) | TermDesc::Binnop(a, _, b) => wf_term(*a) && wf_term(*b),
        TermDesc::Not(a) => wf_term(*a),
        TermDesc::If(a, b, d) => wf_term(*a) && wf_term(*b) && wf_term(*d),
        TermDesc::Quant(_, bs, trs, body) => wf_binders(bs@) && wf_triggers(trs@) && wf_term(*body),
        TermDesc::Eps(_, ty, f) => wf_pty(ty) && wf_term(*f),
        TermDesc::Attr(a, b) => if is_funlit_attr(a) {
            wf_t_funlit(*b)
        } else {
            b.desc is Attr && wf_term(*b)
        },
        TermDesc::Let(_, a, b) => wf_term(*a) && wf_term(*b),
        TermDesc::Case(x, cases) => wf_term(*x) && wf_tbranches(cases@),
        TermDesc::Cast(x, ty) => wf_term(*x) && wf_pty(ty),
        TermDesc::Tuple(ts) => wf_terms(ts@),
        TermDesc::Record(fs) => wf_term_fields(fs@),
        TermDesc::Update(x, fs) => wf_term(*x) && wf_term_fields(fs@),
        TermDesc::Scope(q, x) => q.0@.len() > 0 && wf_term(*x),
        TermDesc::At(x, _) => wf_term(*x),
    }
}

pub open spec fn wf_t_funlit(t: Term) -> bool
    decreases t, 1nat,
{
    match t.desc {
        TermDesc::Quant(Dquant::Lambda, bs, _, body) => bs@.len() == 1 && bs@[0].1 is Some
            && wf_tfunlit_elems(bs@[0].1->0, *body),
        _ => false,
    }
}

pub open spec fn wf_tfunlit_elems(var: Ident, t: Term) -> bool
    decreases t, 1nat,
{
    match t.desc {
        TermDesc::If(x, t2, t3) => if tfunlit_key(var, t) is Some {
            match x.desc {
                TermDesc::Infix(_, _, k) => wf_term(*k) && wf_term(*t2) && wf_tfunlit_elems(var, *t3),
                _ => false,
            }
        } else {
            wf_term(t)
        },
        _ => is_any_function(t) || wf_term(t),
    }
}

pub open spec fn wf_terms(ts: Seq<Term>) -> bool
    decreases ts, 0nat,
{
    ts.len() == 0 || (wf_terms(ts.drop_last()) && wf_term(ts.last()))
}

pub open spec fn wf_triggers(trs: Seq<Vec<Term>>) -> bool
    decreases trs, 0nat,
{
    trs.len() == 0 || (wf_triggers(trs.drop_last()) && wf_terms(trs.last()@))
}

pub open spec fn wf_term_fields(fs: Seq<(Qualid, Term)>) -> bool
    decreases fs, 0nat,
{
    fs.len() == 0 || (wf_term_fields(fs.drop_last()) && fs.last().0.0@.len() > 0 && wf_term(
        fs.last().1,
    ))
}

pub open spec fn wf_tbranches(bs: Seq<(Pattern, Term)>) -> bool
    decreases bs, 0nat,
{
    bs.len() == 0 || (wf_tbranches(bs.drop_last()) && wf_pat(bs.last().0) && wf_term(bs.last().1))
}

} // verus!
