//! The layout of contracts and program expressions that the printer
//! produces, and the expressions that it prints without failing.

use vstd::prelude::*;

use crate::doc::{at, cut, join, nl, opt_list, sp, Layout};
use crate::expr::{AssertionKind, ForDirection, RsKind};
use crate::ity::Mask;
use crate::mlw_printer::PrintCtx;
use crate::mlw_spec::{
    app_layout, app_shape, arg_marked, attr_layout, cast_layout, empty, ghost_layout, hb, hv,
    ident, ident_rm, if_layout, innfix_layout, is_infix_ident, kind_layout, marker_of, maybe_marked,
    maybe_marker, not_layout, opt_marker, parens_unless, partial_layout, pat_marked, pty_closed,
    pty_raw, qualid, ref_split, sb, scope_layout, tuple_layout, vb, wf_pat, wf_pty, wf_pty_ref,
    AppShape,
};
use crate::number_spec::{const_layout, wf_const};
use crate::ptree::{
    Attr, Binder, Expr, ExprDesc, Fundef, Ident, Param, PatDesc, Pattern, Post, Pty, Qualid, Spec,
    Term, TermDesc, Xpost,
};
use crate::term_spec::{
    binders_layout, branch_layout, infix_step, is_funlit_attr, match_layout, record_layout,
    same_ident, term_marked, update_layout, wf_binders, wf_term,
};

verus! {

// --------------------------------------------------- attributes of terms

/// The name of a hypothesis, if the term is labelled `hyp_name:...`: its
/// location, the name after a space, and the term under the label.
pub open spec fn hyp_name(t: Term) -> (Option<crate::loc::Position>, Seq<char>, Term) {
    match t.desc {
        TermDesc::Attr(Attr::Str(a), u) => if a.text().len() >= 9 && a.text().take(9)
            == "hyp_name:"@ {
            (Some(t.loc), " "@ + a.text().skip(9), *u)
        } else {
            (None, Seq::empty(), t)
        },
        _ => (None, Seq::empty(), t),
    }
}

/// The term without the label `s`, if it has it.
pub open spec fn remove_term_attr(s: Seq<char>, t: Term) -> Term {
    match t.desc {
        TermDesc::Attr(Attr::Str(a), u) => if a.text() == s {
            *u
        } else {
            t
        },
        _ => t,
    }
}

pub open spec fn is_witness_existence(t: Term) -> bool {
    t.desc matches TermDesc::Attr(Attr::Str(a), _) && a.text() == "expl:witness existence"@
}

/// The preconditions without those labelled `expl:witness existence`.
pub open spec fn remove_witness_existence(pre: Seq<Term>) -> Seq<Term>
    decreases pre.len(),
{
    if pre.len() == 0 {
        seq![]
    } else if is_witness_existence(pre.last()) {
        remove_witness_existence(pre.drop_last())
    } else {
        remove_witness_existence(pre.drop_last()).push(pre.last())
    }
}

// ------------------------------------------------------------- contracts

/// The term that a `requires` clause prints.
pub open spec fn requires_term(t: Term) -> Term {
    hyp_name(remove_term_attr("hyp_name:Requires"@, t)).2
}

pub open spec fn requires_layout(c: PrintCtx, attr: bool, t: Term) -> Seq<Layout> {
    let (oloc, s, u) = hyp_name(remove_term_attr("hyp_name:Requires"@, t));
    hv(0, hv(2, at("requires"@ + s + " { "@) + opt_marker(c, oloc) + term_marked(c, attr, u)) + sp() + at("}"@))
}

/// The term that an `ensures` clause prints.
pub open spec fn ensures_term(t: Term) -> Term {
    hyp_name(remove_term_attr("hyp_name:Ensures"@, t)).2
}

/// The term that an invariant prints.
pub open spec fn invariant_term(t: Term) -> Term {
    remove_term_attr(
        "hyp_name:LoopInvariant"@,
        remove_term_attr("hyp_name:TypeInvariant"@, hyp_name(t).2),
    )
}

pub open spec fn invariant_layout(c: PrintCtx, attr: bool, t: Term) -> Seq<Layout> {
    let (oloc, s, _) = hyp_name(t);
    hv(2, at("invariants"@ + s + " {"@) + sp() + opt_marker(c, oloc) + term_marked(c, attr, invariant_term(t))) + at(" }"@)
}

pub open spec fn invariants_layout(c: PrintCtx, attr: bool, invs: Seq<Term>) -> Seq<Layout> {
    opt_list(sp(), empty(), sp(), empty(), empty(), invs.map_values(|t: Term| invariant_layout(c, attr, t)))
}

pub open spec fn variant_layout(c: PrintCtx, attr: bool, closed: bool, v: (Term, Option<Qualid>)) -> Seq<Layout> {
    (if closed {
        parens_unless(crate::term_spec::term_is_closed(c, v.0), term_marked(c, attr, v.0))
    } else {
        term_marked(c, attr, v.0)
    }) + match v.1 {
        Some(q) => at(" with "@) + qualid(c, attr, q),
        None => empty(),
    }
}

pub open spec fn variants_layout(c: PrintCtx, attr: bool, vs: Seq<(Term, Option<Qualid>)>) -> Seq<Layout> {
    if vs.len() == 0 {
        empty()
    } else {
        sp() + hv(
            2,
            at("variant {"@) + sp() + join(
                vs.map_values(|v: (Term, Option<Qualid>)| variant_layout(c, attr, vs.len() > 1, v)),
                at(","@) + sp(),
            ),
        ) + at(" }"@)
    }
}

/// Whether a pattern holds the marker, at its location or at an identifier's.
pub open spec fn pat_has_marker(c: PrintCtx, p: Pattern) -> bool
    decreases p,
{
    marker_of(c, p.loc) is Some || match p.desc {
        PatDesc::Wild => false,
        PatDesc::Var(id) => marker_of(c, id.loc) is Some,
        PatDesc::App(q, ps) => qualid_has_marker(c, q) || exists|i: int|
            0 <= i < ps@.len() && pat_has_marker(c, #[trigger] ps@[i]),
        PatDesc::Rec(fs) => exists|i: int|
            0 <= i < fs@.len() && (qualid_has_marker(c, #[trigger] fs@[i].0) || pat_has_marker(
                c,
                fs@[i].1,
            )),
        PatDesc::Tuple(ps) => exists|i: int| 0 <= i < ps@.len() && pat_has_marker(c, #[trigger] ps@[i]),
        PatDesc::As(q, id, _) => pat_has_marker(c, *q) || marker_of(c, id.loc) is Some,
        PatDesc::Or(a, b) => pat_has_marker(c, *a) || pat_has_marker(c, *b),
        PatDesc::Cast(q, _) => pat_has_marker(c, *q),
        PatDesc::Scope(q, x) => qualid_has_marker(c, q) || pat_has_marker(c, *x),
        PatDesc::Paren(x) => pat_has_marker(c, *x),
        PatDesc::GhostPat(x) => pat_has_marker(c, *x),
    }
}

pub open spec fn qualid_has_marker(c: PrintCtx, q: Qualid) -> bool {
    exists|i: int| 0 <= i < q.0@.len() && marker_of(c, #[trigger] q.0@[i].loc) is Some
}

/// Two attributes are equal: same text, or equal locations.
pub open spec fn attr_equals(a: Attr, b: Attr) -> bool {
    match (a, b) {
        (Attr::Str(x), Attr::Str(y)) => x.text() == y.text(),
        (Attr::Pos(x), Attr::Pos(y)) => x == y,
        _ => false,
    }
}

/// Two identifiers are equal: same name and attributes, wherever they are.
pub open spec fn ident_equals(a: Ident, b: Ident) -> bool {
    a.str@ == b.str@ && a.ats@.len() == b.ats@.len() && forall|i: int|
        0 <= i < a.ats@.len() ==> attr_equals(#[trigger] a.ats@[i], b.ats@[i])
}

pub open spec fn qualid_equals(a: Qualid, b: Qualid) -> bool {
    a.0@.len() == b.0@.len() && forall|i: int|
        0 <= i < a.0@.len() ==> ident_equals(#[trigger] a.0@[i], b.0@[i])
}

/// Two patterns are equal, types of casts aside.
pub open spec fn pat_equals(p: Pattern, q: Pattern) -> bool
    decreases p,
{
    match (p.desc, q.desc) {
        (PatDesc::Wild, PatDesc::Wild) => true,
        (PatDesc::Var(a), PatDesc::Var(b)) => ident_equals(a, b),
        (PatDesc::App(a, ps), PatDesc::App(b, qs)) => qualid_equals(a, b) && ps@.len() == qs@.len()
            && forall|i: int| 0 <= i < ps@.len() ==> pat_equals(#[trigger] ps@[i], qs@[i]),
        (PatDesc::Rec(fs), PatDesc::Rec(gs)) => fs@.len() == gs@.len() && forall|i: int|
            0 <= i < fs@.len() ==> qualid_equals(#[trigger] fs@[i].0, gs@[i].0) && pat_equals(
                fs@[i].1,
                gs@[i].1,
            ),
        (PatDesc::Tuple(ps), PatDesc::Tuple(qs)) => ps@.len() == qs@.len() && forall|i: int|
            0 <= i < ps@.len() ==> pat_equals(#[trigger] ps@[i], qs@[i]),
        (PatDesc::As(a, x, g), PatDesc::As(b, y, h)) => pat_equals(*a, *b) && ident_equals(x, y) && g
            == h,
        (PatDesc::Or(a, a2), PatDesc::Or(b, b2)) => pat_equals(*a, *b) && pat_equals(*a2, *b2),
        (PatDesc::Cast(a, _), PatDesc::Cast(b, _)) => pat_equals(*a, *b),
        (PatDesc::Scope(x, a), PatDesc::Scope(y, b)) => qualid_equals(x, y) && pat_equals(*a, *b),
        (PatDesc::Paren(a), PatDesc::Paren(b)) => pat_equals(*a, *b),
        (PatDesc::GhostPat(a), PatDesc::GhostPat(b)) => pat_equals(*a, *b),
        _ => false,
    }
}

/// Whether a postcondition case is about the result `rp` of the function.
pub open spec fn is_ensures(rp: Pattern, p: Pattern) -> bool {
    match (rp.desc, p.desc) {
        (PatDesc::Wild, PatDesc::Var(id)) => id.str@ == "result"@,
        _ => pat_equals(rp, p),
    }
}

/// Whether a postcondition is printed as `ensures` rather than `returns`.
pub open spec fn is_ensures_post(c: PrintCtx, rp: Pattern, p: Post) -> bool {
    p.1@.len() == 1 && is_ensures(rp, p.1@[0].0) && !pat_has_marker(c, p.1@[0].0)
}

pub open spec fn post_layout(c: PrintCtx, attr: bool, rp: Pattern, p: Post) -> Seq<Layout> {
    if is_ensures_post(c, rp, p) {
        let (oloc, s, u) = hyp_name(remove_term_attr("hyp_name:Ensures"@, p.1@[0].1));
        sp() + hv(
            2,
            maybe_marker(c, p.0) + at("ensures"@ + s + " { "@) + opt_marker(c, oloc) + term_marked(
                c,
                attr,
                u,
            ),
        ) + at(" }"@)
    } else {
        sp() + maybe_marker(c, p.0) + at("returns { "@) + sp() + join(
            p.1@.map_values(|b: (Pattern, Term)| pat_marked(c, attr, b.0) + at(" -> "@) + term_marked(c, attr, b.1)),
            at("|"@),
        ) + at(" }"@)
    }
}

pub open spec fn concat(parts: Seq<Seq<Layout>>) -> Seq<Layout>
    decreases parts.len(),
{
    if parts.len() == 0 {
        seq![]
    } else {
        concat(parts.drop_last()) + parts.last()
    }
}

pub open spec fn exn_case_layout(c: PrintCtx, attr: bool, x: (Qualid, Option<(Pattern, Term)>)) -> Seq<Layout> {
    hv(2, qualid(c, attr, x.0) + match x.1 {
        Some((p, t)) => at(" "@) + pat_marked(c, attr, p) + at(" -> "@) + term_marked(c, attr, t),
        None => empty(),
    })
}

pub open spec fn xpost_layout(c: PrintCtx, attr: bool, x: Xpost) -> Seq<Layout> {
    hv(
        2,
        maybe_marker(c, x.0) + at("raises { "@) + join(
            x.1@.map_values(|e: (Qualid, Option<(Pattern, Term)>)| exn_case_layout(c, attr, e)),
            sp() + at("| "@),
        ) + at(" }"@),
    )
}

/// A contract, whose result is bound by `rp`, with the preconditions `pre`
/// and the `partial` flag given.
pub open spec fn spec_layout(c: PrintCtx, attr: bool, rp: Pattern, s: Spec, pre: Seq<Term>, partial: bool) -> Seq<Layout> {
    (if s.reads@.len() > 0 {
        sp() + hv(2, at("reads { "@) + join(s.reads@.map_values(|q: Qualid| qualid(c, attr, q)), at(","@) + sp()))
            + at(" }"@)
    } else {
        empty()
    }) + opt_list(sp(), empty(), sp(), empty(), empty(), pre.map_values(|t: Term| requires_layout(c, attr, t)))
        + (if s.checkrw {
        sp() + hb(
            at("writes { "@) + join(s.writes@.map_values(|t: Term| term_marked(c, attr, t)), at(","@) + sp())
                + at(" }"@),
        )
    } else if s.writes@.len() > 0 {
        sp() + hv(2, at("writes { "@) + join(s.writes@.map_values(|t: Term| term_marked(c, attr, t)), at(","@) + sp()))
            + at(" }"@)
    } else {
        empty()
    }) + concat(s.post@.map_values(|p: Post| post_layout(c, attr, rp, p))) + opt_list(
        sp(),
        empty(),
        sp(),
        empty(),
        empty(),
        s.xpost@.map_values(|x: Xpost| xpost_layout(c, attr, x)),
    ) + (if s.alias@.len() > 0 {
        hv(
            2,
            at("alias { "@) + join(
                s.alias@.map_values(|a: (Term, Term)| term_marked(c, attr, a.0) + at(" with "@) + term_marked(c, attr, a.1)),
                at(","@) + sp(),
            ),
        ) + at(" }"@)
    } else {
        empty()
    }) + variants_layout(c, attr, s.variant@) + (if s.diverge {
        sp() + at("diverges"@)
    } else {
        empty()
    }) + (if partial {
        sp() + at("partial"@)
    } else {
        empty()
    })
}

/// The contract as it stands.
pub open spec fn spec_full(c: PrintCtx, attr: bool, rp: Pattern, s: Spec) -> Seq<Layout> {
    spec_layout(c, attr, rp, s, s.pre@, s.partial)
}

pub open spec fn wf_post(c: PrintCtx, rp: Pattern, p: Post) -> bool {
    if is_ensures_post(c, rp, p) {
        wf_term(ensures_term(p.1@[0].1))
    } else {
        forall|i: int| 0 <= i < p.1@.len() ==> wf_pat(#[trigger] p.1@[i].0) && wf_term(p.1@[i].1)
    }
}

pub open spec fn wf_xpost(x: Xpost) -> bool {
    forall|i: int|
        0 <= i < x.1@.len() ==> (#[trigger] x.1@[i]).0.0@.len() > 0 && match x.1@[i].1 {
            Some((p, t)) => wf_pat(p) && wf_term(t),
            None => true,
        }
}

pub open spec fn wf_variants(vs: Seq<(Term, Option<Qualid>)>) -> bool {
    forall|i: int|
        0 <= i < vs.len() ==> wf_term((#[trigger] vs[i]).0) && match vs[i].1 {
            Some(q) => q.0@.len() > 0,
            None => true,
        }
}

pub open spec fn wf_invariants(invs: Seq<Term>) -> bool {
    forall|i: int| 0 <= i < invs.len() ==> wf_term(invariant_term(#[trigger] invs[i]))
}

/// A contract that the printer lays out, with the preconditions `pre`.
pub open spec fn wf_spec(c: PrintCtx, rp: Pattern, s: Spec, pre: Seq<Term>) -> bool {
    &&& forall|i: int| 0 <= i < s.reads@.len() ==> (#[trigger] s.reads@[i]).0@.len() > 0
    &&& forall|i: int| 0 <= i < pre.len() ==> wf_term(requires_term(#[trigger] pre[i]))
    &&& forall|i: int| 0 <= i < s.writes@.len() ==> wf_term(#[trigger] s.writes@[i])
    &&& forall|i: int| 0 <= i < s.post@.len() ==> wf_post(c, rp, #[trigger] s.post@[i])
    &&& forall|i: int| 0 <= i < s.xpost@.len() ==> wf_xpost(#[trigger] s.xpost@[i])
    &&& forall|i: int| 0 <= i < s.alias@.len() ==> wf_term((#[trigger] s.alias@[i]).0) && wf_term(s.alias@[i].1)
    &&& wf_variants(s.variant@)
}

// ------------------------------------------------ types with ghost masks

pub open spec fn comma() -> Seq<Layout> {
    at(","@) + sp()
}

/// A type with its ghost mask, as in `(int, ghost bool)`.
pub open spec fn pty_mask_layout(c: PrintCtx, attr: bool, t: Pty, m: Mask) -> Seq<Layout>
    decreases m, 0nat,
{
    match m {
        Mask::Visible => if t matches Pty::Tuple(ts) && ts@.len() == 0 {
            empty()
        } else {
            at(ref_split(t).0) + pty_raw(c, attr, ref_split(t).1)
        },
        Mask::AllGhost => at("ghost "@) + crate::mlw_spec::pty_closed(c, attr, t),
        Mask::Tuple(ms) => match t {
            Pty::Tuple(ts) => at("("@) + join(
                pty_mask_parts(
                    c,
                    attr,
                    ts@,
                    ms@,
                    crate::number_spec::min(ts@.len() as int, ms@.len() as int) as nat,
                ),
                comma(),
            ) + at(")"@),
            _ => empty(),
        },
    }
}

/// The first `n` components of a tuple type with their masks.
pub open spec fn pty_mask_parts(c: PrintCtx, attr: bool, ts: Seq<Pty>, ms: Seq<Mask>, n: nat) -> Seq<
    Seq<Layout>,
>
    decreases ms, n,
{
    if n == 0 || n > ts.len() || n > ms.len() {
        seq![]
    } else {
        pty_mask_parts(c, attr, ts, ms, (n - 1) as nat).push(
            pty_mask_layout(c, attr, ts[n - 1], ms[n - 1]),
        )
    }
}

pub open spec fn wf_pty_mask(t: Pty, m: Mask) -> bool
    decreases m,
{
    match m {
        Mask::Visible => (t matches Pty::Tuple(ts) && ts@.len() == 0) || wf_pty_ref(t),
        Mask::AllGhost => wf_pty(t),
        Mask::Tuple(ms) => match t {
            Pty::Tuple(ts) => forall|i: int|
                0 <= i < ts@.len() && i < ms@.len() ==> wf_pty_mask(ts@[i], #[trigger] ms@[i]),
            _ => false,
        },
    }
}

pub open spec fn vis_ghost(m: Mask) -> Seq<Layout> {
    match m {
        Mask::Visible => empty(),
        Mask::AllGhost => at("ghost "@),
        Mask::Tuple(_) => at("TUPLE??"@),
    }
}

/// A result type with its binding pattern and ghost mask, as in `(x: int)`.
pub open spec fn pty_pat_mask_layout(c: PrintCtx, attr: bool, closed: bool, t: Pty, p: Pattern, m: Mask) -> Seq<
    Layout,
>
    decreases m, 0nat,
{
    sb(
        0,
        maybe_marker(c, p.loc) + match (t, p.desc, m) {
            (Pty::Tuple(ts), PatDesc::Tuple(ps), Mask::Tuple(ms)) => at("("@) + join(
                pty_pat_mask_parts(
                    c,
                    attr,
                    ts@,
                    ps@,
                    ms@,
                    crate::number_spec::min(
                        ts@.len() as int,
                        crate::number_spec::min(ps@.len() as int, ms@.len() as int),
                    ) as nat,
                ),
                comma(),
            ) + at(")"@),
            (Pty::Tuple(ts), PatDesc::Wild, Mask::Tuple(ms)) => at("("@) + join(
                pty_mask_parts(
                    c,
                    attr,
                    ts@,
                    ms@,
                    crate::number_spec::min(ts@.len() as int, ms@.len() as int) as nat,
                ),
                comma(),
            ) + at(")"@),
            (_, PatDesc::Wild, _) => vis_ghost(m) + at(ref_split(t).0) + pty_closed(c, attr, ref_split(t).1),
            (_, PatDesc::Var(id), _) => {
                let inner = vis_ghost(m) + at(ref_split(t).0) + ident(c, attr, id) + at(" : "@) + pty_raw(
                    c,
                    attr,
                    ref_split(t).1,
                );
                if closed {
                    at("("@) + inner + at(")"@)
                } else {
                    inner
                }
            },
            _ => empty(),
        },
    )
}

/// The first `n` components of a tuple result with their patterns and masks.
pub open spec fn pty_pat_mask_parts(
    c: PrintCtx,
    attr: bool,
    ts: Seq<Pty>,
    ps: Seq<Pattern>,
    ms: Seq<Mask>,
    n: nat,
) -> Seq<Seq<Layout>>
    decreases ms, n,
{
    if n == 0 || n > ts.len() || n > ps.len() || n > ms.len() {
        seq![]
    } else {
        pty_pat_mask_parts(c, attr, ts, ps, ms, (n - 1) as nat).push(
            pty_pat_mask_layout(c, attr, false, ts[n - 1], ps[n - 1], ms[n - 1]),
        )
    }
}

pub open spec fn wf_pty_pat_mask(t: Pty, p: Pattern, m: Mask) -> bool
    decreases m,
{
    match (t, p.desc, m) {
        (Pty::Tuple(ts), PatDesc::Tuple(ps), Mask::Tuple(ms)) => forall|i: int|
            0 <= i < ts@.len() && i < ps@.len() && i < ms@.len() ==> wf_pty_pat_mask(
                ts@[i],
                ps@[i],
                #[trigger] ms@[i],
            ),
        (Pty::Tuple(ts), PatDesc::Wild, Mask::Tuple(ms)) => forall|i: int|
            0 <= i < ts@.len() && i < ms@.len() ==> wf_pty_mask(ts@[i], #[trigger] ms@[i]),
        (_, PatDesc::Wild, _) => wf_pty_ref(t),
        (_, PatDesc::Var(_), _) => wf_pty_ref(t),
        _ => false,
    }
}

/// The result type of a function, after ` : `, if it has one.
pub open spec fn opt_result_layout(c: PrintCtx, attr: bool, t: Option<Pty>, p: Pattern, m: Mask) -> Seq<Layout> {
    match t {
        Some(u) => at(" : "@) + pty_pat_mask_layout(c, attr, true, u, p, m),
        None => empty(),
    }
}

pub open spec fn wf_opt_result(t: Option<Pty>, p: Pattern, m: Mask) -> bool {
    match t {
        Some(u) => wf_pty_pat_mask(u, p, m),
        None => true,
    }
}

/// An exception declaration.
pub open spec fn exn_layout(c: PrintCtx, attr: bool, id: Ident, t: Pty, m: Mask) -> Seq<Layout> {
    hb(
        at("exception "@) + ident(c, attr, id) + (if t matches Pty::Tuple(ts) && ts@.len() == 0 {
            empty()
        } else {
            at(" "@)
        }) + pty_mask_layout(c, attr, t, m),
    )
}

// ------------------------------------------------------------- parameters

/// A parameter, as in `(x: int)`; an anonymous parameter that is neither
/// ghost nor a reference prints nothing, and no parameter prints its closing
/// parenthesis.
pub open spec fn param_layout(c: PrintCtx, attr: bool, p: Param) -> Seq<Layout> {
    let (r, t) = ref_split(p.3);
    let rm = if r.len() > 0 {
        Some("mlw:reference_var"@)
    } else {
        None
    };
    if p.2 || p.1 is Some || r.len() > 0 {
        maybe_marker(c, p.0) + at("("@) + ghost_layout(p.2) + at(r) + match p.1 {
            Some(id) => ident_rm(c, attr, id, rm) + at(":"@),
            None => empty(),
        } + at(" "@) + pty_raw(c, attr, t)
    } else {
        empty()
    }
}

pub open spec fn params_layout(c: PrintCtx, attr: bool, ps: Seq<Param>, sep: Seq<Layout>) -> Seq<Layout> {
    opt_list(at(" "@), empty(), sep, empty(), empty(), ps.map_values(|p: Param| param_layout(c, attr, p)))
}

pub open spec fn wf_params(ps: Seq<Param>) -> bool {
    forall|i: int| 0 <= i < ps.len() ==> wf_pty_ref((#[trigger] ps[i]).3)
}


// ------------------------------------------------------------ expressions

pub open spec fn expr_is_closed(c: PrintCtx, e: Expr) -> bool {
    match e.desc {
        ExprDesc::Ref | ExprDesc::True | ExprDesc::False | ExprDesc::Const(_) | ExprDesc::Ident(_)
        | ExprDesc::Tuple(_) | ExprDesc::Record(_) | ExprDesc::For(_, _, _, _, _, _)
        | ExprDesc::While(_, _, _, _) | ExprDesc::Assert(_, _) | ExprDesc::Absurd | ExprDesc::Scope(
            _,
            _,
        ) | ExprDesc::Innfix(_, _, _) => true,
        ExprDesc::Idapp(_, l) => l@.len() == 0 || marker_of(c, e.loc) is Some,
        _ => marker_of(c, e.loc) is Some,
    }
}

/// The keyword of a raise of a loop or function exit, if it is one.
pub open spec fn raise_keyword(q: Qualid) -> Option<Seq<char>> {
    if q.0@.len() == 1 {
        let s = q.0@[0].str@;
        if s == "'Return"@ {
            Some("return"@)
        } else if s == "'Break"@ {
            Some("break"@)
        } else if s == "'Continue"@ {
            Some("continue"@)
        } else {
            None
        }
    } else {
        None
    }
}

pub open spec fn ends_with(s: Seq<char>, suffix: Seq<char>) -> bool {
    s.len() >= suffix.len() && s.skip(s.len() - suffix.len()) == suffix
}

/// A local exception that only stands for a `return`, `break` or `continue`.
pub open spec fn is_exit_exn(c: PrintCtx, id: Ident) -> bool {
    (ends_with(id.str@, "'Return"@) || ends_with(id.str@, "'Break"@) || ends_with(
        id.str@,
        "'Continue"@,
    )) && marker_of(c, id.loc) is None
}

pub open spec fn assert_keyword(k: AssertionKind) -> Seq<char> {
    match k {
        AssertionKind::Assert => "assert"@,
        AssertionKind::Assume => "assume"@,
        AssertionKind::Check => "check"@,
    }
}

/// The label that an assertion of this kind carries by default.
pub open spec fn assert_hyp(k: AssertionKind) -> Seq<char> {
    match k {
        AssertionKind::Assert => "hyp_name:Assert"@,
        AssertionKind::Assume => "hyp_name:Assume"@,
        AssertionKind::Check => "hyp_name:Check"@,
    }
}

/// The term under the default label of an assertion, if it has it.
pub open spec fn assert_default(k: AssertionKind, t: Term) -> Option<Term> {
    match t.desc {
        TermDesc::Attr(Attr::Str(a), u) => if a.text() == assert_hyp(k) {
            Some(*u)
        } else {
            None
        },
        _ => None,
    }
}

pub open spec fn assert_layout(c: PrintCtx, attr: bool, k: AssertionKind, t: Term) -> Seq<Layout> {
    match assert_default(k, t) {
        Some(u) => hv(2, at(assert_keyword(k) + " {"@) + sp() + maybe_marker(c, t.loc) + term_marked(c, attr, u) + at(" }"@)),
        None => {
            let (oloc, s, u) = hyp_name(t);
            hv(2, at(assert_keyword(k) + s + " {"@) + sp() + opt_marker(c, oloc) + term_marked(c, attr, u) + at(" }"@))
        },
    }
}

/// The term that an assertion prints.
pub open spec fn assert_term(k: AssertionKind, t: Term) -> Term {
    match assert_default(k, t) {
        Some(u) => u,
        None => hyp_name(t).2,
    }
}

pub open spec fn dir_text(d: ForDirection) -> Seq<char> {
    match d {
        ForDirection::To => "to"@,
        ForDirection::DownTo => "downto"@,
    }
}

/// The reference that a `let` binds, `let ref x = e`: the location of the
/// application of `ref` and its argument.
pub open spec fn is_ref_expr(e: Expr) -> Option<(crate::loc::Position, Expr)> {
    match e.desc {
        ExprDesc::Apply(a, b) => if a.desc is Ref {
            Some((e.loc, *b))
        } else {
            None
        },
        _ => None,
    }
}

pub open spec fn has_ref_attr(id: Ident) -> bool {
    exists|i: int|
        0 <= i < id.ats@.len() && (#[trigger] id.ats@[i] matches Attr::Str(a) && a.text()
            == "mlw:reference_var"@)
}

/// The pattern that binds the result of `any`: the pattern of the first
/// postcondition when none is given.
pub open spec fn any_result_pat(p: Pattern, s: Spec) -> Pattern {
    if !(p.desc is Wild) {
        p
    } else if s.post@.len() > 0 && s.post@[0].1@.len() > 0 {
        s.post@[0].1@[0].0
    } else {
        p
    }
}

/// A function body, `fun (x: int) : int requires { .. } -> e`, or a
/// contract in `begin .. end`.
pub open spec fn fun_layout(
    c: PrintCtx,
    attr: bool,
    bs: Seq<Binder>,
    t: Option<Pty>,
    p: Pattern,
    m: Mask,
    s: Spec,
    body: Expr,
) -> Seq<Layout>
    decreases body, 4nat,
{
    if bs.len() == 0 && t is None && m is Visible && p.desc is Wild {
        hv(
            0,
            vb(
                2,
                maybe_marker(c, p.loc) + at("begin"@) + sp() + spec_full(c, attr, p, s) + expr_marked(
                    c,
                    attr,
                    body,
                ),
            ) + sp() + at("end"@),
        )
    } else {
        hv(
            2,
            at("fun "@) + binders_layout(c, attr, bs) + opt_result_layout(c, attr, t, p, m) + spec_full(
                c,
                attr,
                p,
                s,
            ) + at(" ->"@) + sp() + sb(0, expr_marked(c, attr, body)),
        )
    }
}

/// `let f (x: int) : int requires { .. } = e`, the definition of a function.
pub open spec fn let_fun_layout(
    c: PrintCtx,
    attr: bool,
    loc: crate::loc::Position,
    id: Ident,
    g: bool,
    k: RsKind,
    bs: Seq<Binder>,
    t: Option<Pty>,
    p: Pattern,
    m: Mask,
    s: Spec,
    body: Expr,
) -> Seq<Layout>
    decreases body, 4nat,
{
    let head = at("let "@) + ghost_layout(g) + partial_layout(s.partial) + kind_layout(k) + ident(
        c,
        attr,
        id,
    );
    if bs.len() == 0 && t is None && m is Visible && p.desc is Wild {
        hv(
            0,
            vb(
                2,
                head + at(" = "@) + maybe_marker(c, loc) + maybe_marker(c, p.loc) + at("begin"@) + sp()
                    + spec_layout(c, attr, p, s, s.pre@, false) + sp() + expr_marked(c, attr, body),
            ) + sp() + at("end"@),
        )
    } else {
        sb(
            0,
            vb(
                2,
                head + binders_layout(c, attr, bs) + opt_result_layout(c, attr, t, p, m) + maybe_marker(
                    c,
                    loc,
                ) + spec_layout(c, attr, p, s, s.pre@, false),
            ) + nl() + vb(2, at("= "@) + expr_marked(c, attr, body)),
        )
    }
}

pub open spec fn wf_let_fun(c: PrintCtx, bs: Seq<Binder>, t: Option<Pty>, p: Pattern, m: Mask, s: Spec) -> bool {
    wf_binders(bs) && wf_opt_result(t, p, m) && wf_spec(c, p, s, s.pre@)
}

/// Whether an abstract value is declared as `let x = any t`, by its last
/// precondition, labelled `expl:witness existence`.
pub open spec fn is_let_any_witness(t: Option<Pty>, p: Pattern, m: Mask, s: Spec) -> bool {
    t is Some && p.desc is Wild && m is Visible && s.pre@.len() > 0 && is_witness_existence(
        s.pre@.last(),
    )
}

/// `val f (x: int) : int requires { .. }`, or `let x = any t ..`, the
/// declaration of an abstract value.
pub open spec fn let_any_layout(
    c: PrintCtx,
    attr: bool,
    loc: crate::loc::Position,
    id: Ident,
    g: bool,
    k: RsKind,
    ps: Seq<Param>,
    k2: RsKind,
    t: Option<Pty>,
    p: Pattern,
    m: Mask,
    s: Spec,
) -> Seq<Layout> {
    if !(k2 is NonPure) {
        crate::mlw_spec::unsupported_text("LET-ANY kind<>RKnone"@)
    } else if is_let_any_witness(t, p, m, s) {
        hv(
            0,
            hv(
                2,
                at("let "@) + maybe_marker(c, loc) + ghost_layout(g) + partial_layout(s.partial)
                    + kind_layout(k) + ident(c, attr, id) + params_layout(c, attr, ps, empty()) + sp(),
            ) + at("="@) + sp() + hv(
                2,
                at("any "@) + pty_closed(c, attr, t->0) + at(" "@) + spec_layout(
                    c,
                    attr,
                    p,
                    s,
                    s.pre@.drop_last(),
                    s.partial,
                ),
            ),
        )
    } else {
        vb(
            2,
            at("val "@) + maybe_marker(c, loc) + ghost_layout(g) + partial_layout(s.partial)
                + kind_layout(k) + ident(c, attr, id) + params_layout(c, attr, ps, empty())
                + opt_result_layout(c, attr, t, p, m) + spec_layout(c, attr, p, s, s.pre@, false),
        )
    }
}

pub open spec fn wf_let_any(c: PrintCtx, ps: Seq<Param>, k2: RsKind, t: Option<Pty>, p: Pattern, m: Mask, s: Spec) -> bool {
    !(k2 is NonPure) || (wf_params(ps) && if is_let_any_witness(t, p, m, s) {
        wf_pty(t->0) && wf_spec(c, p, s, s.pre@.drop_last())
    } else {
        wf_opt_result(t, p, m) && wf_spec(c, p, s, s.pre@)
    })
}

/// `let x = e`, or `let ref x = e`.
pub open spec fn elet_layout(c: PrintCtx, attr: bool, id: Ident, g: bool, k: RsKind, e: Expr) -> Seq<Layout>
    decreases e, 4nat,
{
    match is_ref_expr(e) {
        Some((loc, x)) => if has_ref_attr(id) {
            hv(
                2,
                at("let "@) + ghost_layout(g) + at("ref "@) + kind_layout(k) + ident_rm(
                    c,
                    attr,
                    id,
                    Some("mlw:reference_var"@),
                ) + at(" ="@) + sp() + maybe_marker(c, loc) + expr_marked(c, attr, x),
            )
        } else {
            crate::term_spec::let_layout(c, attr, id, g, k, expr_marked(c, attr, e))
        },
        None => crate::term_spec::let_layout(c, attr, id, g, k, expr_marked(c, attr, e)),
    }
}

/// A function definition of `let rec`.
pub open spec fn fundef_layout(c: PrintCtx, attr: bool, d: Fundef) -> Seq<Layout>
    decreases d, 0nat,
{
    ghost_layout(d.1) + kind_layout(d.2) + ident(c, attr, d.0) + binders_layout(c, attr, d.3@)
        + opt_result_layout(c, attr, d.4, d.5, d.6) + spec_full(c, attr, d.5, d.7) + at(" ="@) + sp()
        + expr_marked(c, attr, d.8)
}

pub open spec fn fundefs_parts(c: PrintCtx, attr: bool, ds: Seq<Fundef>) -> Seq<Seq<Layout>>
    decreases ds, 0nat,
{
    if ds.len() == 0 {
        seq![]
    } else {
        fundefs_parts(c, attr, ds.drop_last()).push(fundef_layout(c, attr, ds.last()))
    }
}

/// Local recursive functions, before the body of the `let rec`.
pub open spec fn erec_head(fs: Seq<Seq<Layout>>) -> Seq<Layout> {
    if fs.len() == 1 {
        vb(2, at("let rec "@) + fs[0] + at(" in"@))
    } else {
        vb(2, at("let rec "@) + fs[0]) + sp() + concat(
            fs.subrange(1, fs.len() - 1).map_values(|f: Seq<Layout>| hv(2, at("with "@) + f)),
        ) + hv(2, at("with "@) + fs.last() + at(" in"@))
    }
}

#[verifier::rlimit(40)]
pub open spec fn expr_raw(c: PrintCtx, attr: bool, e: Expr) -> Seq<Layout>
    decreases e, 0nat,
{
    match e.desc {
        ExprDesc::Ref => at("ref"@),
        ExprDesc::True => at("true"@),
        ExprDesc::False => at("false"@),
        ExprDesc::Const(k) => const_layout(k),
        ExprDesc::Ident(q) | ExprDesc::Asref(q) => qualid(c, attr, q),
        ExprDesc::Idapp(q, es) => {
            let sh = app_shape(q.0@, es@.len());
            app_layout(c, attr, q, sh, exprs_args(c, attr, sh, es@))
        },
        ExprDesc::Apply(a, b) => hv(
            2,
            join(eapply_parts(c, attr, *a).push(expr_closed(c, attr, *b)), sp()),
        ),
        ExprDesc::Infix(a, op, b) => expr_closed(c, attr, *a) + sp() + einfix_tail(c, attr, op, *b),
        ExprDesc::Innfix(a, op, b) => innfix_layout(
            c,
            op,
            expr_closed(c, attr, *a),
            expr_closed(c, attr, *b),
        ),
        ExprDesc::Let(id, g, k, a, b) => match a.desc {
            ExprDesc::Fun(bs, t, p, m, s, body) => vb(
                0,
                let_fun_layout(c, attr, a.loc, id, g, k, bs@, t, p, m, s, *body) + at(" in"@) + sp()
                    + expr_marked(c, attr, *b),
            ),
            ExprDesc::Any(ps, k2, t, p, m, s) => vb(
                0,
                let_any_layout(c, attr, a.loc, id, g, k, ps@, k2, t, p, m, s) + at(" in"@) + sp()
                    + expr_marked(c, attr, *b),
            ),
            _ => hv(0, vb(2, elet_layout(c, attr, id, g, k, *a)) + at(" in"@) + sp() + expr_marked(c, attr, *b)),
        },
        ExprDesc::Rec(ds, b) => vb(0, erec_head(fundefs_parts(c, attr, ds@))) + sp() + expr_marked(c, attr, *b),
        ExprDesc::Fun(bs, t, p, m, s, body) => if bs@.len() == 0 && t is None && p.desc is Wild
            && m is Visible {
            if body.desc matches ExprDesc::Tuple(xs) && xs@.len() == 0 {
                vb(
                    0,
                    vb(2, maybe_marker(c, p.loc) + at("begin"@) + sp() + maybe_marker(c, body.loc) + spec_full(c, attr, p, s))
                        + sp() + at("end"@),
                )
            } else {
                vb(
                    0,
                    vb(2, maybe_marker(c, p.loc) + at("begin"@) + spec_full(c, attr, p, s) + sp() + expr_marked(c, attr, *body))
                        + sp() + at("end"@),
                )
            }
        } else {
            fun_layout(c, attr, bs@, t, p, m, s, *body)
        },
        ExprDesc::Any(ps, _, t, p, m, s) => if ps@.len() == 0 && t is Some {
            let p2 = any_result_pat(p, s);
            hv(
                2,
                at("any "@) + pty_pat_mask_layout(c, attr, true, t->0, p2, m) + spec_layout(
                    c,
                    attr,
                    p2,
                    s,
                    remove_witness_existence(s.pre@),
                    s.partial,
                ),
            )
        } else {
            crate::mlw_spec::unsupported_text("EANY"@)
        },
        ExprDesc::Tuple(es) => tuple_layout(exprs_closed(c, attr, es@)),
        ExprDesc::Record(fs) => record_layout(expr_fields(c, attr, fs@)),
        ExprDesc::Update(x, fs) => update_layout(expr_closed(c, attr, *x), expr_fields(c, attr, fs@)),
        ExprDesc::Assign(l) => if l@.len() == 1 {
            hv(
                2,
                expr_closed(c, attr, l@[0].0) + match l@[0].1 {
                    Some(q) => at("."@) + qualid(c, attr, q),
                    None => empty(),
                } + at(" <-"@) + sp() + expr_closed(c, attr, l@[0].2),
            )
        } else {
            hv(
                2,
                at("("@) + join(assign_lhs(c, attr, l@), comma()) + at(") <-"@) + sp() + at("("@)
                    + join(assign_rhs(c, attr, l@), comma()) + at(")"@),
            )
        },
        ExprDesc::Sequence(a, b) => join(
            seq![expr_closed(c, attr, *a)] + eseq_parts(c, attr, *b),
            at(";"@) + sp(),
        ),
        ExprDesc::If(a, b, d) => if_layout(
            expr_closed(c, attr, *a),
            expr_closed(c, attr, *b),
            expr_closed(c, attr, *d),
        ),
        ExprDesc::While(a, invs, vs, b) => vb(
            0,
            vb(
                2,
                at("while "@) + expr_marked(c, attr, *a) + at(" do"@) + variants_layout(c, attr, vs@)
                    + invariants_layout(c, attr, invs@) + sp() + expr_marked(c, attr, *b),
            ) + sp() + at("done"@),
        ),
        ExprDesc::And(a, b) => sb(
            0,
            hv(2, expr_closed(c, attr, *a)) + sp() + hv(2, at(" &&"@) + sp() + expr_closed(c, attr, *b)),
        ),
        ExprDesc::Or(a, b) => sb(
            0,
            hv(2, expr_closed(c, attr, *a)) + sp() + hv(2, at(" ||"@) + sp() + expr_closed(c, attr, *b)),
        ),
        ExprDesc::Not(a) => not_layout(expr_closed(c, attr, *a)),
        ExprDesc::Match(x, cases, xcases) => if cases@.len() == 0 {
            hv(
                0,
                hv(2, at("try"@) + sp() + expr_marked(c, attr, *x)) + sp() + hv(
                    2,
                    at("with"@) + sp() + join(try_cases(c, attr, xcases@), sp() + at("| "@)),
                ) + sp() + at("end"@),
            )
        } else {
            match_layout(
                expr_marked(c, attr, *x),
                ebranches(c, attr, cases@),
                exn_branches(c, attr, xcases@),
            )
        },
        ExprDesc::Absurd => at("absurd"@),
        ExprDesc::Pure(t) => sb(0, hv(2, at("pure {"@) + sp() + term_marked(c, attr, t) + at(" }"@)) + at(" }"@)),
        ExprDesc::Idpur(q) => hb(at("{ "@) + qualid(c, attr, q) + at(" }"@)),
        ExprDesc::Raise(q, oa) => {
            let arg = match oa {
                Some(a) => at(" "@) + expr_closed(c, attr, *a),
                None => empty(),
            };
            match raise_keyword(q) {
                Some(kw) => hv(2, maybe_marker(c, q.0@[0].loc) + at(kw) + arg),
                None => at("raise "@) + qualid(c, attr, q) + arg,
            }
        },
        ExprDesc::Exn(id, t, m, x) => sb(0, exn_layout(c, attr, id, t, m) + at(" in"@) + sp() + expr_marked(c, attr, *x)),
        ExprDesc::Optexn(id, m, x) => if is_exit_exn(c, id) {
            expr_marked(c, attr, *x)
        } else if !(m is Visible) {
            crate::mlw_spec::unsupported_text("OPTEXN mask<>visible"@)
        } else {
            vb(0, at("exception "@) + ident(c, attr, id) + at(" in"@) + sp() + expr_marked(c, attr, *x))
        },
        ExprDesc::For(id, a, d, b, invs, body) => vb(
            0,
            vb(
                2,
                at("for "@) + ident(c, attr, id) + at(" = "@) + expr_marked(c, attr, *a) + at(
                    " "@ + dir_text(d) + " "@,
                ) + expr_marked(c, attr, *b) + at(" do"@) + invariants_layout(c, attr, invs@) + sp()
                    + expr_marked(c, attr, *body),
            ) + sp() + at("done"@),
        ),
        ExprDesc::Assert(k, t) => assert_layout(c, attr, k, t),
        ExprDesc::Scope(q, x) => scope_layout(qualid(c, attr, q), expr_marked(c, attr, *x)),
        ExprDesc::Label(id, x) => hv(2, at("label "@) + ident(c, attr, id) + at(" in"@) + sp() + expr_marked(c, attr, *x)),
        ExprDesc::Cast(x, t) => cast_layout(expr_closed(c, attr, *x), pty_closed(c, attr, t)),
        ExprDesc::GhostExpr(x) => at("ghost "@) + expr_closed(c, attr, *x),
        ExprDesc::Attr(a, x) => if is_funlit_attr(a) {
            e_funlit(c, attr, *x)
        } else {
            sb(0, attr_layout(c, a) + expr_marked(c, attr, *x))
        },
    }
}

/// An expression, with the marker's message before it if it is at the
/// expression's location.
pub open spec fn expr_marked(c: PrintCtx, attr: bool, e: Expr) -> Seq<Layout>
    decreases e, 1nat,
{
    maybe_marked(c, e.loc, expr_raw(c, attr, e))
}

/// An expression, in parentheses unless it is closed.
pub open spec fn expr_closed(c: PrintCtx, attr: bool, e: Expr) -> Seq<Layout>
    decreases e, 2nat,
{
    parens_unless(expr_is_closed(c, e), expr_marked(c, attr, e))
}

pub open spec fn eapply_parts(c: PrintCtx, attr: bool, e: Expr) -> Seq<Seq<Layout>>
    decreases e, 3nat,
{
    match e.desc {
        ExprDesc::Apply(a, b) => eapply_parts(c, attr, *a).push(expr_closed(c, attr, *b)),
        _ => seq![expr_closed(c, attr, e)],
    }
}

pub open spec fn einfix_tail(c: PrintCtx, attr: bool, op: Ident, e: Expr) -> Seq<Layout>
    decreases e, 3nat,
{
    match e.desc {
        ExprDesc::Infix(a, op2, b) => infix_step(c, op, expr_closed(c, attr, *a)) + sp()
            + einfix_tail(c, attr, op2, *b),
        _ => infix_step(c, op, expr_closed(c, attr, e)),
    }
}

/// The expressions of a sequence, closed.
pub open spec fn eseq_parts(c: PrintCtx, attr: bool, e: Expr) -> Seq<Seq<Layout>>
    decreases e, 3nat,
{
    match e.desc {
        ExprDesc::Sequence(a, b) => seq![expr_closed(c, attr, *a)] + eseq_parts(c, attr, *b),
        _ => seq![expr_closed(c, attr, e)],
    }
}

pub open spec fn exprs_closed(c: PrintCtx, attr: bool, es: Seq<Expr>) -> Seq<Seq<Layout>>
    decreases es, 0nat,
{
    if es.len() == 0 {
        seq![]
    } else {
        exprs_closed(c, attr, es.drop_last()).push(expr_closed(c, attr, es.last()))
    }
}

pub open spec fn exprs_args(c: PrintCtx, attr: bool, sh: AppShape, es: Seq<Expr>) -> Seq<Seq<Layout>>
    decreases es, 0nat,
{
    if es.len() == 0 {
        seq![]
    } else {
        exprs_args(c, attr, sh, es.drop_last()).push(
            if arg_marked(sh, es.len() - 1) {
                expr_marked(c, attr, es.last())
            } else {
                expr_closed(c, attr, es.last())
            },
        )
    }
}

pub open spec fn expr_fields(c: PrintCtx, attr: bool, fs: Seq<(Qualid, Expr)>) -> Seq<Seq<Layout>>
    decreases fs, 0nat,
{
    if fs.len() == 0 {
        seq![]
    } else {
        expr_fields(c, attr, fs.drop_last()).push(
            crate::mlw_spec::field_layout(qualid(c, attr, fs.last().0), expr_closed(c, attr, fs.last().1)),
        )
    }
}

pub open spec fn ebranches(c: PrintCtx, attr: bool, bs: Seq<(Pattern, Expr)>) -> Seq<Seq<Layout>>
    decreases bs, 0nat,
{
    if bs.len() == 0 {
        seq![]
    } else {
        ebranches(c, attr, bs.drop_last()).push(
            branch_layout(pat_marked(c, attr, bs.last().0), expr_marked(c, attr, bs.last().1)),
        )
    }
}

pub open spec fn exn_branches(c: PrintCtx, attr: bool, xs: Seq<(Qualid, Option<Pattern>, Expr)>) -> Seq<
    Seq<Layout>,
>
    decreases xs, 0nat,
{
    if xs.len() == 0 {
        seq![]
    } else {
        let x = xs.last();
        exn_branches(c, attr, xs.drop_last()).push(
            hv(
                2,
                qualid(c, attr, x.0) + match x.1 {
                    Some(p) => pat_marked(c, attr, p) + at(" "@),
                    None => empty(),
                } + at(" -> "@) + expr_marked(c, attr, x.2),
            ),
        )
    }
}

pub open spec fn try_cases(c: PrintCtx, attr: bool, xs: Seq<(Qualid, Option<Pattern>, Expr)>) -> Seq<
    Seq<Layout>,
>
    decreases xs, 0nat,
{
    if xs.len() == 0 {
        seq![]
    } else {
        let x = xs.last();
        try_cases(c, attr, xs.drop_last()).push(
            qualid(c, attr, x.0) + match x.1 {
                Some(p) => pat_marked(c, attr, p),
                None => empty(),
            } + at(" ->"@) + sp() + expr_marked(c, attr, x.2),
        )
    }
}

pub open spec fn assign_lhs(c: PrintCtx, attr: bool, l: Seq<(Expr, Option<Qualid>, Expr)>) -> Seq<
    Seq<Layout>,
>
    decreases l, 0nat,
{
    if l.len() == 0 {
        seq![]
    } else {
        let x = l.last();
        assign_lhs(c, attr, l.drop_last()).push(
            expr_closed(c, attr, x.0) + match x.1 {
                Some(q) => at("."@) + qualid(c, attr, q),
                None => empty(),
            },
        )
    }
}

pub open spec fn assign_rhs(c: PrintCtx, attr: bool, l: Seq<(Expr, Option<Qualid>, Expr)>) -> Seq<
    Seq<Layout>,
>
    decreases l, 0nat,
{
    if l.len() == 0 {
        seq![]
    } else {
        assign_rhs(c, attr, l.drop_last()).push(expr_closed(c, attr, l.last().2))
    }
}

// ------------------------------------------------------ function literals

/// The names bound by the `let`s in front of a function literal.
pub open spec fn efl_ids(e: Expr) -> Seq<Ident>
    decreases e,
{
    match e.desc {
        ExprDesc::Let(id, false, RsKind::NonPure, _, b) => seq![id] + efl_ids(*b),
        _ => seq![],
    }
}

/// The values bound by the `let`s in front of a function literal, laid out.
pub open spec fn efl_vals(c: PrintCtx, attr: bool, e: Expr) -> Seq<Seq<Layout>>
    decreases e, 3nat,
{
    match e.desc {
        ExprDesc::Let(_, false, RsKind::NonPure, a, b) => seq![expr_marked(c, attr, *a)] + efl_vals(c, attr, *b),
        _ => seq![],
    }
}

/// The function after the `let`s in front of a function literal.
pub open spec fn efl_fun(e: Expr) -> Expr
    decreases e,
{
    match e.desc {
        ExprDesc::Let(_, false, RsKind::NonPure, _, b) => efl_fun(*b),
        _ => e,
    }
}

pub open spec fn single_ident(e: Expr) -> Option<Ident> {
    match e.desc {
        ExprDesc::Ident(q) => if q.0@.len() == 1 {
            Some(q.0@[0])
        } else {
            None
        },
        _ => None,
    }
}

/// The rest of a function literal's cases, `if var = k then v else rest`,
/// where `k` and `v` are the last two names bound in front of it.
pub open spec fn efl_case(var: Ident, e: Expr, ids: Seq<Ident>) -> Option<Expr> {
    match e.desc {
        ExprDesc::If(x, v2, rest) => match x.desc {
            ExprDesc::Infix(v, _, k) => if single_ident(*v) is Some && single_ident(*k) is Some
                && single_ident(*v2) is Some && ids.len() >= 2 && same_ident(
                var,
                single_ident(*v)->0,
            ) && same_ident(single_ident(*k)->0, ids[ids.len() - 2]) && same_ident(
                single_ident(*v2)->0,
                ids[ids.len() - 1],
            ) {
                Some(*rest)
            } else {
                None
            },
            _ => None,
        },
        _ => None,
    }
}

pub open spec fn efl_elems(var: Ident, e: Expr, ids: Seq<Ident>, vals: Seq<Seq<Layout>>) -> Seq<Layout>
    decreases e,
{
    match efl_case(var, e, ids) {
        Some(rest) => {
            let n = ids.len();
            if e.desc is If {
                vals[n - 2] + at(" => "@) + vals[n - 1] + at(";"@) + efl_elems(
                    var,
                    rest,
                    ids.take(n - 2),
                    vals.take(n - 2),
                )
            } else {
                empty()
            }
        },
        None => if ids.len() == 1 {
            at("_ => "@) + vals[0]
        } else {
            empty()
        },
    }
}

/// Whether the cases of a function literal use up the names bound in front
/// of it, as the printer expects.
pub open spec fn wf_efl_elems(var: Ident, e: Expr, ids: Seq<Ident>) -> bool
    decreases e,
{
    match efl_case(var, e, ids) {
        Some(rest) => e.desc is If && wf_efl_elems(var, rest, ids.take(ids.len() - 2)),
        None => single_ident(e) is Some && (ids.len() == 0 || (ids.len() == 1 && same_ident(
            single_ident(e)->0,
            ids[0],
        ))),
    }
}

pub open spec fn efl_var(e: Expr) -> Option<Ident> {
    match efl_fun(e).desc {
        ExprDesc::Fun(bs, _, _, _, _, _) => if bs@.len() == 1 {
            bs@[0].1
        } else {
            None
        },
        _ => None,
    }
}

pub open spec fn efl_body(e: Expr) -> Expr {
    match efl_fun(e).desc {
        ExprDesc::Fun(_, _, _, _, _, body) => *body,
        _ => e,
    }
}

/// A function literal `[| k1 => v1; ...; _ => d |]`, written as `let`s in
/// front of a function.
pub open spec fn e_funlit(c: PrintCtx, attr: bool, e: Expr) -> Seq<Layout>
    decreases e, 4nat,
{
    at("[|"@) + match efl_var(e) {
        Some(var) => efl_elems(var, efl_body(e), efl_ids(e), efl_vals(c, attr, e)),
        None => empty(),
    } + at("|]"@)
}


// --------------------------------------------------- printable expressions

/// An expression that the printer lays out: besides what [`wf_term`] asks of
/// terms, local recursive definitions are not empty, results and contracts
/// have the shapes that the printer expects, and function literals have their
/// shape.
#[verifier::rlimit(40)]
pub open spec fn wf_expr(c: PrintCtx, e: Expr) -> bool
    decreases e, 0nat,
{
    match e.desc {
        ExprDesc::Ref | ExprDesc::True | ExprDesc::False | ExprDesc::Absurd => true,
        ExprDesc::Const(k) => wf_const(k),
        ExprDesc::Ident(q) | ExprDesc::Asref(q) | ExprDesc::Idpur(q) => q.0@.len() > 0,
        ExprDesc::Idapp(q, es) => q.0@.len() > 0 && !(app_shape(q.0@, es@.len()) is Bad) && wf_exprs(
            c,
            es@,
        ),
        ExprDesc::Apply(a, b) | ExprDesc::Sequence(a, b) | ExprDesc::And(a, b) | ExprDesc::Or(a, b) =>
            wf_expr(c, *a) && wf_expr(c, *b),
        ExprDesc::Infix(a, op, b) | ExprDesc::Innfix(a, op, b) => is_infix_ident(op) && wf_expr(c, *a)
            && wf_expr(c, *b),
        ExprDesc::Let(_, _, _, a, b) => wf_expr(c, *b) && match a.desc {
            ExprDesc::Fun(bs, t, p, m, s, body) => wf_let_fun(c, bs@, t, p, m, s) && wf_expr(c, *body),
            ExprDesc::Any(ps, k2, t, p, m, s) => wf_let_any(c, ps@, k2, t, p, m, s),
            _ => wf_expr(c, *a),
        },
        ExprDesc::Rec(ds, b) => ds@.len() > 0 && wf_fundefs(c, ds@) && wf_expr(c, *b),
        ExprDesc::Fun(bs, t, p, m, s, body) => wf_expr(c, *body) && if bs@.len() == 0 && t is None
            && p.desc is Wild && m is Visible {
            wf_spec(c, p, s, s.pre@)
        } else {
            wf_let_fun(c, bs@, t, p, m, s)
        },
        ExprDesc::Any(ps, _, t, p, m, s) => !(ps@.len() == 0 && t is Some) || (wf_pty_pat_mask(
            t->0,
            any_result_pat(p, s),
            m,
        ) && wf_spec(c, any_result_pat(p, s), s, remove_witness_existence(s.pre@))),
        ExprDesc::Tuple(es) => wf_exprs(c, es@),
        ExprDesc::Record(fs) => wf_expr_fields(c, fs@),
        ExprDesc::Update(x, fs) => wf_expr(c, *x) && wf_expr_fields(c, fs@),
        ExprDesc::Assign(l) => wf_assigns(c, l@),
        ExprDesc::If(a, b, d) => wf_expr(c, *a) && wf_expr(c, *b) && wf_expr(c, *d),
        ExprDesc::While(a, invs, vs, b) => wf_expr(c, *a) && wf_invariants(invs@) && wf_variants(vs@)
            && wf_expr(c, *b),
        ExprDesc::Not(a) | ExprDesc::GhostExpr(a) => wf_expr(c, *a),
        ExprDesc::Match(x, cases, xcases) => wf_expr(c, *x) && wf_ebranches(c, cases@)
            && wf_exn_branches(c, xcases@),
        ExprDesc::Pure(t) => wf_term(t),
        ExprDesc::Raise(q, oa) => q.0@.len() > 0 && match oa {
            Some(a) => wf_expr(c, *a),
            None => true,
        },
        ExprDesc::Exn(_, t, m, x) => wf_pty_mask(t, m) && wf_expr(c, *x),
        ExprDesc::Optexn(id, m, x) => (!is_exit_exn(c, id) && !(m is Visible)) || wf_expr(c, *x),
        ExprDesc::For(_, a, _, b, invs, body) => wf_expr(c, *a) && wf_expr(c, *b) && wf_invariants(
            invs@,
        ) && wf_expr(c, *body),
        ExprDesc::Assert(k, t) => wf_term(assert_term(k, t)),
        ExprDesc::Scope(q, x) => q.0@.len() > 0 && wf_expr(c, *x),
        ExprDesc::Label(_, x) => wf_expr(c, *x),
        ExprDesc::Cast(x, t) => wf_expr(c, *x) && wf_pty(t),
        ExprDesc::Attr(a, x) => if is_funlit_attr(a) {
            wf_e_funlit(c, *x)
        } else {
            x.desc is Attr && wf_expr(c, *x)
        },
    }
}

pub open spec fn wf_exprs(c: PrintCtx, es: Seq<Expr>) -> bool
    decreases es, 0nat,
{
    es.len() == 0 || (wf_exprs(c, es.drop_last()) && wf_expr(c, es.last()))
}

pub open spec fn wf_expr_fields(c: PrintCtx, fs: Seq<(Qualid, Expr)>) -> bool
    decreases fs, 0nat,
{
    fs.len() == 0 || (wf_expr_fields(c, fs.drop_last()) && fs.last().0.0@.len() > 0 && wf_expr(
        c,
        fs.last().1,
    ))
}

pub open spec fn wf_assigns(c: PrintCtx, l: Seq<(Expr, Option<Qualid>, Expr)>) -> bool
    decreases l, 0nat,
{
    l.len() == 0 || (wf_assigns(c, l.drop_last()) && wf_expr(c, l.last().0) && wf_expr(c, l.last().2)
        && match l.last().1 {
        Some(q) => q.0@.len() > 0,
        None => true,
    })
}

pub open spec fn wf_ebranches(c: PrintCtx, bs: Seq<(Pattern, Expr)>) -> bool
    decreases bs, 0nat,
{
    bs.len() == 0 || (wf_ebranches(c, bs.drop_last()) && wf_pat(bs.last().0) && wf_expr(c, bs.last().1))
}

pub open spec fn wf_exn_branches(c: PrintCtx, xs: Seq<(Qualid, Option<Pattern>, Expr)>) -> bool
    decreases xs, 0nat,
{
    xs.len() == 0 || (wf_exn_branches(c, xs.drop_last()) && xs.last().0.0@.len() > 0 && match xs.last().1 {
        Some(p) => wf_pat(p),
        None => true,
    } && wf_expr(c, xs.last().2))
}

pub open spec fn wf_fundef(c: PrintCtx, d: Fundef) -> bool
    decreases d, 0nat,
{
    wf_let_fun(c, d.3@, d.4, d.5, d.6, d.7) && wf_expr(c, d.8)
}

pub open spec fn wf_fundefs(c: PrintCtx, ds: Seq<Fundef>) -> bool
    decreases ds, 0nat,
{
    ds.len() == 0 || (wf_fundefs(c, ds.drop_last()) && wf_fundef(c, ds.last()))
}

pub open spec fn wf_efl_vals(c: PrintCtx, e: Expr) -> bool
    decreases e, 1nat,
{
    match e.desc {
        ExprDesc::Let(_, false, RsKind::NonPure, a, b) => wf_expr(c, *a) && wf_efl_vals(c, *b),
        _ => true,
    }
}

pub open spec fn wf_e_funlit(c: PrintCtx, e: Expr) -> bool
    decreases e, 2nat,
{
    efl_var(e) is Some && wf_efl_elems(efl_var(e)->0, efl_body(e), efl_ids(e)) && wf_efl_vals(c, e)
}

} // verus!
