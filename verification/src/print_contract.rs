//! The printer of contracts, result types with ghost masks, exceptions and
//! parameters.

use vstd::prelude::*;

use crate::doc::{at, views, BoxKind, Doc, Layout};
use crate::expr_spec::{
    attr_equals, comma, concat, exn_case_layout, exn_layout, hyp_name, ident_equals,
    invariant_layout, invariant_term, invariants_layout, is_ensures, is_ensures_post,
    is_witness_existence, opt_result_layout, param_layout, params_layout, pat_equals,
    pat_has_marker, post_layout, pty_mask_layout, pty_mask_parts, pty_pat_mask_layout,
    pty_pat_mask_parts, qualid_equals, qualid_has_marker, remove_term_attr,
    remove_witness_existence, requires_layout, requires_term, spec_layout, variant_layout,
    variants_layout, vis_ghost, wf_invariants, wf_opt_result, wf_params, wf_post, wf_pty_mask,
    wf_pty_pat_mask, wf_spec, wf_variants, wf_xpost, xpost_layout,
};
use crate::ity::Mask;
use crate::loc::Position;
use crate::mlw_printer::{
    doc_of, has_marker, new_doc, pp_id, pp_id_rm, pp_maybe_marker, pp_opt_marker, pp_pat_marked,
    pp_pty_parens, pp_pty_raw, pp_qualid, space_doc, PrintCtx,
};
use crate::mlw_spec::{
    ghost_layout, ident, marker_of, maybe_marker, opt_marker, pat_marked, pty_closed, pty_raw,
    qualid, ref_split, wf_pat, wf_pty, wf_pty_ref,
};
use crate::print_term::{pp_term, pp_term_closed};
use crate::ptree::{Attr, Ident, Param, PatDesc, Pattern, Post, Pty, Qualid, Spec, Term, TermDesc, Xpost};
use crate::term_spec::{term_closed, term_marked, wf_term};
use crate::text;

verus! {

// --------------------------------------------------- attributes of terms

pub(crate) fn hyp_name_exec(t: &Term) -> (r: (Option<Position>, String, &Term))
    ensures
        r.0 == hyp_name(*t).0,
        r.1@ == hyp_name(*t).1,
        *r.2 == hyp_name(*t).2,
{
    match &t.desc {
        TermDesc::Attr(Attr::Str(a), u) => {
            let s = a.as_str();
            let n = s.unicode_len();
            if n >= 9 && text::str_eq(s.substring_char(0, 9), "hyp_name:") {
                proof {
                    assert(s@.subrange(0, 9) =~= s@.take(9));
                    assert(s@.subrange(9, n as int) =~= s@.skip(9));
                }
                let rest = s.substring_char(9, n);
                (Some(t.loc), text::concat(" ", rest), &**u)
            } else {
                proof {
                    if n >= 9 {
                        assert(s@.subrange(0, 9) =~= s@.take(9));
                    }
                    reveal_strlit("");
                }
                (None, String::new(), t)
            }
        },
        _ => (None, String::new(), t),
    }
}

pub(crate) fn remove_term_attr_exec<'a>(s: &str, t: &'a Term) -> (r: &'a Term)
    ensures
        *r == remove_term_attr(s@, *t),
{
    match &t.desc {
        TermDesc::Attr(Attr::Str(a), u) => if text::str_eq(a.as_str(), s) {
            &**u
        } else {
            t
        },
        _ => t,
    }
}

pub(crate) fn is_witness_existence_exec(t: &Term) -> (b: bool)
    ensures
        b == is_witness_existence(*t),
{
    match &t.desc {
        TermDesc::Attr(Attr::Str(a), _) => text::str_eq(a.as_str(), "expl:witness existence"),
        _ => false,
    }
}

fn atom3(doc: &mut Doc, a: &str, b: &str, c: &str)
    ensures
        final(doc)@ == old(doc)@ + at(a@ + b@ + c@),
{
    let mut s = String::from_str(a);
    s.append(b);
    s.append(c);
    doc.atom_string(s);
}

// ------------------------------------------------------------- contracts

fn pp_requires(ctx: &PrintCtx, attr: bool, doc: &mut Doc, t: &Term)
    requires
        wf_term(requires_term(*t)),
    ensures
        final(doc)@ == old(doc)@ + requires_layout(*ctx, attr, *t),
{
    let t1 = remove_term_attr_exec("hyp_name:Requires", t);
    let (oloc, s, u) = hyp_name_exec(t1);
    let mut h = new_doc();
    atom3(&mut h, "requires", s.as_str(), " { ");
    pp_opt_marker(ctx, &mut h, oloc);
    pp_term(ctx, attr, &mut h, u);
    let mut inner = new_doc();
    inner.boxed(BoxKind::Hv, 2, h);
    inner.space();
    inner.atom("}");
    proof {
        let (ol, ss, uu) = hyp_name(remove_term_attr("hyp_name:Requires"@, *t));
        assert(inner@ =~= crate::mlw_spec::hv(
            2,
            at("requires"@ + ss + " { "@) + opt_marker(*ctx, ol) + term_marked(*ctx, attr, uu),
        ) + crate::doc::sp() + at("}"@));
    }
    doc.boxed(BoxKind::Hv, 0, inner);
}

fn pp_invariant(ctx: &PrintCtx, attr: bool, doc: &mut Doc, t: &Term)
    requires
        wf_term(invariant_term(*t)),
    ensures
        final(doc)@ == old(doc)@ + invariant_layout(*ctx, attr, *t),
{
    let (oloc, s, t1) = hyp_name_exec(t);
    let t2 = remove_term_attr_exec(
        "hyp_name:LoopInvariant",
        remove_term_attr_exec("hyp_name:TypeInvariant", t1),
    );
    let mut h = new_doc();
    atom3(&mut h, "invariants", s.as_str(), " {");
    h.space();
    pp_opt_marker(ctx, &mut h, oloc);
    pp_term(ctx, attr, &mut h, t2);
    doc.boxed(BoxKind::Hv, 2, h);
    doc.atom(" }");
    proof {
        let (ol, ss, _) = hyp_name(*t);
        assert(h@ =~= at("invariants"@ + ss + " {"@) + crate::doc::sp() + opt_marker(*ctx, ol)
            + term_marked(*ctx, attr, invariant_term(*t)));
    }
}

/// Prints invariants, each preceded by a space.
pub(crate) fn pp_invariants(ctx: &PrintCtx, attr: bool, doc: &mut Doc, invs: &Vec<Term>)
    requires
        wf_invariants(invs@),
    ensures
        final(doc)@ == old(doc)@ + invariants_layout(*ctx, attr, invs@),
{
    let mut parts: Vec<Doc> = Vec::new();
    let mut i: usize = 0;
    while i < invs.len()
        invariant
            i <= invs@.len(),
            wf_invariants(invs@),
            views(parts@) == invs@.take(i as int).map_values(
                |t: Term| invariant_layout(*ctx, attr, t),
            ),
        decreases invs@.len() - i,
    {
        let mut d = new_doc();
        pp_invariant(ctx, attr, &mut d, &invs[i]);
        let ghost p0 = views(parts@);
        parts.push(d);
        proof {
            assert(d@ =~= invariant_layout(*ctx, attr, invs@[i as int]));
            assert(views(parts@) =~= p0.push(d@));
            assert(views(parts@) =~= invs@.take(i + 1).map_values(
                |t: Term| invariant_layout(*ctx, attr, t),
            ));
        }
        i += 1;
    }
    assert(invs@.take(i as int) =~= invs@);
    let e = new_doc();
    doc.opt_list_parts(parts, &space_doc(), &e, &space_doc(), &e, &e);
}

/// Prints variants after a space, if there are any.
#[verifier::rlimit(40)]
pub(crate) fn pp_variants(
    ctx: &PrintCtx,
    attr: bool,
    doc: &mut Doc,
    vs: &Vec<(Term, Option<Qualid>)>,
)
    requires
        wf_variants(vs@),
    ensures
        final(doc)@ == old(doc)@ + variants_layout(*ctx, attr, vs@),
{
    if vs.len() == 0 {
        assert(doc@ =~= old(doc)@ + variants_layout(*ctx, attr, vs@));
        return ;
    }
    let closed = vs.len() > 1;
    let mut parts: Vec<Doc> = Vec::new();
    let mut i: usize = 0;
    while i < vs.len()
        invariant
            i <= vs@.len(),
            closed == (vs@.len() > 1),
            wf_variants(vs@),
            views(parts@) == vs@.take(i as int).map_values(
                |v: (Term, Option<Qualid>)| variant_layout(*ctx, attr, closed, v),
            ),
        decreases vs@.len() - i,
    {
        let mut d = new_doc();
        if closed {
            pp_term_closed(ctx, attr, &mut d, &vs[i].0);
        } else {
            pp_term(ctx, attr, &mut d, &vs[i].0);
        }
        match &vs[i].1 {
            Some(q) => {
                d.atom(" with ");
                pp_qualid(ctx, attr, &mut d, q);
            },
            None => {},
        }
        let ghost p0 = views(parts@);
        parts.push(d);
        proof {
            assert(d@ =~= variant_layout(*ctx, attr, closed, vs@[i as int]));
            assert(views(parts@) =~= p0.push(d@));
            assert(views(parts@) =~= vs@.take(i + 1).map_values(
                |v: (Term, Option<Qualid>)| variant_layout(*ctx, attr, closed, v),
            ));
        }
        i += 1;
    }
    assert(vs@.take(i as int) =~= vs@);
    let mut h = doc_of("variant {");
    h.space();
    let mut sep = doc_of(",");
    sep.space();
    h.join_parts(parts, &sep);
    doc.space();
    doc.boxed(BoxKind::Hv, 2, h);
    doc.atom(" }");
}

// ------------------------------------------------ patterns of results

fn qualid_has_marker_exec(ctx: &PrintCtx, q: &Qualid) -> (b: bool)
    ensures
        b == qualid_has_marker(*ctx, *q),
{
    let mut i: usize = 0;
    while i < q.0.len()
        invariant
            i <= q.0@.len(),
            forall|j: int| 0 <= j < i ==> marker_of(*ctx, #[trigger] q.0@[j].loc) is None,
        decreases q.0@.len() - i,
    {
        if has_marker(ctx, q.0[i].loc) {
            return true;
        }
        i += 1;
    }
    false
}

fn pats_have_marker(ctx: &PrintCtx, ps: &Vec<Pattern>) -> (b: bool)
    ensures
        b == exists|i: int| 0 <= i < ps@.len() && pat_has_marker(*ctx, #[trigger] ps@[i]),
    decreases ps, 0nat,
{
    let mut i: usize = 0;
    while i < ps.len()
        invariant
            i <= ps@.len(),
            forall|j: int| 0 <= j < i ==> !pat_has_marker(*ctx, #[trigger] ps@[j]),
        decreases ps@.len() - i,
    {
        assert(decreases_to!(ps => ps@[i as int]));
        if pat_has_marker_exec(ctx, &ps[i]) {
            assert(pat_has_marker(*ctx, ps@[i as int]));
            return true;
        }
        i += 1;
    }
    false
}

fn fields_have_marker(ctx: &PrintCtx, fs: &Vec<(Qualid, Pattern)>) -> (b: bool)
    ensures
        b == exists|i: int|
            0 <= i < fs@.len() && (qualid_has_marker(*ctx, #[trigger] fs@[i].0) || pat_has_marker(
                *ctx,
                fs@[i].1,
            )),
    decreases fs, 0nat,
{
    let mut i: usize = 0;
    while i < fs.len()
        invariant
            i <= fs@.len(),
            forall|j: int|
                0 <= j < i ==> !(qualid_has_marker(*ctx, #[trigger] fs@[j].0) || pat_has_marker(
                    *ctx,
                    fs@[j].1,
                )),
        decreases fs@.len() - i,
    {
        assert(decreases_to!(fs => fs@[i as int]));
        if qualid_has_marker_exec(ctx, &fs[i].0) || pat_has_marker_exec(ctx, &fs[i].1) {
            assert(qualid_has_marker(*ctx, fs@[i as int].0) || pat_has_marker(*ctx, fs@[i as int].1));
            return true;
        }
        i += 1;
    }
    false
}

pub(crate) fn pat_has_marker_exec(ctx: &PrintCtx, p: &Pattern) -> (b: bool)
    ensures
        b == pat_has_marker(*ctx, *p),
    decreases p, 1nat,
{
    if has_marker(ctx, p.loc) {
        return true;
    }
    match &p.desc {
        PatDesc::Wild => false,
        PatDesc::Var(id) => has_marker(ctx, id.loc),
        PatDesc::App(q, ps) => qualid_has_marker_exec(ctx, q) || pats_have_marker(ctx, ps),
        PatDesc::Rec(fs) => fields_have_marker(ctx, fs),
        PatDesc::Tuple(ps) => pats_have_marker(ctx, ps),
        PatDesc::As(q, id, _) => pat_has_marker_exec(ctx, q) || has_marker(ctx, id.loc),
        PatDesc::Or(a, b) => pat_has_marker_exec(ctx, a) || pat_has_marker_exec(ctx, b),
        PatDesc::Cast(q, _) => pat_has_marker_exec(ctx, q),
        PatDesc::Scope(q, x) => qualid_has_marker_exec(ctx, q) || pat_has_marker_exec(ctx, x),
        PatDesc::Paren(x) => pat_has_marker_exec(ctx, x),
        PatDesc::GhostPat(x) => pat_has_marker_exec(ctx, x),
    }
}

fn attr_equals_exec(a: &Attr, b: &Attr) -> (r: bool)
    ensures
        r == attr_equals(*a, *b),
{
    match (a, b) {
        (Attr::Str(x), Attr::Str(y)) => text::str_eq(x.as_str(), y.as_str()),
        (Attr::Pos(x), Attr::Pos(y)) => crate::loc::equal(*x, *y),
        _ => false,
    }
}

/// Whether two identifiers are equal: same name and attributes, wherever
/// they are.
pub fn ident_equals_exec(a: &Ident, b: &Ident) -> (r: bool)
    ensures
        r == ident_equals(*a, *b),
{
    if !text::str_eq(a.str.as_str(), b.str.as_str()) || a.ats.len() != b.ats.len() {
        return false;
    }
    let mut i: usize = 0;
    while i < a.ats.len()
        invariant
            i <= a.ats@.len(),
            a.ats@.len() == b.ats@.len(),
            forall|j: int| 0 <= j < i ==> attr_equals(#[trigger] a.ats@[j], b.ats@[j]),
        decreases a.ats@.len() - i,
    {
        if !attr_equals_exec(&a.ats[i], &b.ats[i]) {
            return false;
        }
        i += 1;
    }
    true
}

/// Whether two qualified identifiers are equal, wherever they are.
pub fn qualid_equals_exec(a: &Qualid, b: &Qualid) -> (r: bool)
    ensures
        r == qualid_equals(*a, *b),
{
    if a.0.len() != b.0.len() {
        return false;
    }
    let mut i: usize = 0;
    while i < a.0.len()
        invariant
            i <= a.0@.len(),
            a.0@.len() == b.0@.len(),
            forall|j: int| 0 <= j < i ==> ident_equals(#[trigger] a.0@[j], b.0@[j]),
        decreases a.0@.len() - i,
    {
        if !ident_equals_exec(&a.0[i], &b.0[i]) {
            return false;
        }
        i += 1;
    }
    true
}

fn pats_equal_exec(ps: &Vec<Pattern>, qs: &Vec<Pattern>) -> (r: bool)
    ensures
        r == (ps@.len() == qs@.len() && forall|i: int|
            0 <= i < ps@.len() ==> pat_equals(#[trigger] ps@[i], qs@[i])),
    decreases ps, 0nat,
{
    if ps.len() != qs.len() {
        return false;
    }
    let mut i: usize = 0;
    while i < ps.len()
        invariant
            i <= ps@.len(),
            ps@.len() == qs@.len(),
            forall|j: int| 0 <= j < i ==> pat_equals(#[trigger] ps@[j], qs@[j]),
        decreases ps@.len() - i,
    {
        assert(decreases_to!(ps => ps@[i as int]));
        if !pat_equals_exec(&ps[i], &qs[i]) {
            return false;
        }
        i += 1;
    }
    true
}

fn fields_equal_exec(fs: &Vec<(Qualid, Pattern)>, gs: &Vec<(Qualid, Pattern)>) -> (r: bool)
    ensures
        r == (fs@.len() == gs@.len() && forall|i: int|
            0 <= i < fs@.len() ==> qualid_equals(#[trigger] fs@[i].0, gs@[i].0) && pat_equals(
                fs@[i].1,
                gs@[i].1,
            )),
    decreases fs, 0nat,
{
    if fs.len() != gs.len() {
        return false;
    }
    let mut i: usize = 0;
    while i < fs.len()
        invariant
            i <= fs@.len(),
            fs@.len() == gs@.len(),
            forall|j: int|
                0 <= j < i ==> #[trigger] field_equals(fs@[j], gs@[j]),
        decreases fs@.len() - i,
    {
        assert(decreases_to!(fs => fs@[i as int]));
        let qe = qualid_equals_exec(&fs[i].0, &gs[i].0);
        if !qe {
            return false;
        }
        let pe = pat_equals_exec(&fs[i].1, &gs[i].1);
        if !pe {
            return false;
        }
        assert(field_equals(fs@[i as int], gs@[i as int]));
        i += 1;
    }
    assert forall|j: int| 0 <= j < fs@.len() implies qualid_equals(#[trigger] fs@[j].0, gs@[j].0)
        && pat_equals(fs@[j].1, gs@[j].1) by {
        assert(field_equals(fs@[j], gs@[j]));
    }
    true
}

spec fn field_equals(f: (Qualid, Pattern), g: (Qualid, Pattern)) -> bool {
    qualid_equals(f.0, g.0) && pat_equals(f.1, g.1)
}

/// Whether two patterns are equal, types of casts aside.
pub fn pat_equals_exec(p: &Pattern, q: &Pattern) -> (r: bool)
    ensures
        r == pat_equals(*p, *q),
    decreases p, 1nat,
{
    match (&p.desc, &q.desc) {
        (PatDesc::Wild, PatDesc::Wild) => true,
        (PatDesc::Var(a), PatDesc::Var(b)) => ident_equals_exec(a, b),
        (PatDesc::App(a, ps), PatDesc::App(b, qs)) => qualid_equals_exec(a, b) && pats_equal_exec(
            ps,
            qs,
        ),
        (PatDesc::Rec(fs), PatDesc::Rec(gs)) => fields_equal_exec(fs, gs),
        (PatDesc::Tuple(ps), PatDesc::Tuple(qs)) => pats_equal_exec(ps, qs),
        (PatDesc::As(a, x, g), PatDesc::As(b, y, h)) => pat_equals_exec(a, b) && ident_equals_exec(
            x,
            y,
        ) && *g == *h,
        (PatDesc::Or(a, a2), PatDesc::Or(b, b2)) => pat_equals_exec(a, b) && pat_equals_exec(a2, b2),
        (PatDesc::Cast(a, _), PatDesc::Cast(b, _)) => pat_equals_exec(a, b),
        (PatDesc::Scope(x, a), PatDesc::Scope(y, b)) => qualid_equals_exec(x, y) && pat_equals_exec(
            a,
            b,
        ),
        (PatDesc::Paren(a), PatDesc::Paren(b)) => pat_equals_exec(a, b),
        (PatDesc::GhostPat(a), PatDesc::GhostPat(b)) => pat_equals_exec(a, b),
        _ => false,
    }
}

pub(crate) fn is_ensures_exec(rp: &Pattern, p: &Pattern) -> (b: bool)
    ensures
        b == is_ensures(*rp, *p),
{
    match (&rp.desc, &p.desc) {
        (PatDesc::Wild, PatDesc::Var(id)) => text::str_eq(id.str.as_str(), "result"),
        _ => pat_equals_exec(rp, p),
    }
}


fn pp_post(ctx: &PrintCtx, attr: bool, doc: &mut Doc, rp: &Pattern, p: &Post)
    requires
        wf_post(*ctx, *rp, *p),
    ensures
        final(doc)@ == old(doc)@ + post_layout(*ctx, attr, *rp, *p),
{
    let ens = p.1.len() == 1 && is_ensures_exec(rp, &p.1[0].0) && !pat_has_marker_exec(ctx, &p.1[0].0);
    assert(ens == is_ensures_post(*ctx, *rp, *p));
    if ens {
        let t = remove_term_attr_exec("hyp_name:Ensures", &p.1[0].1);
        let (oloc, s, u) = hyp_name_exec(t);
        let mut h = new_doc();
        pp_maybe_marker(ctx, &mut h, p.0);
        atom3(&mut h, "ensures", s.as_str(), " { ");
        pp_opt_marker(ctx, &mut h, oloc);
        pp_term(ctx, attr, &mut h, u);
        let mut d = space_doc();
        d.boxed(BoxKind::Hv, 2, h);
        d.atom(" }");
        proof {
            let (ol, ss, uu) = hyp_name(remove_term_attr("hyp_name:Ensures"@, p.1@[0].1));
            assert(h@ =~= maybe_marker(*ctx, p.0) + at("ensures"@ + ss + " { "@) + opt_marker(
                *ctx,
                ol,
            ) + term_marked(*ctx, attr, uu));
            assert(d@ =~= post_layout(*ctx, attr, *rp, *p));
        }
        doc.extend(d);
    } else {
                let mut parts: Vec<Doc> = Vec::new();
        let mut i: usize = 0;
        while i < p.1.len()
            invariant
                i <= p.1@.len(),
                !is_ensures_post(*ctx, *rp, *p),
                wf_post(*ctx, *rp, *p),
                views(parts@) == p.1@.take(i as int).map_values(|b: (Pattern, Term)| pat_marked(*ctx, attr, b.0) + at(" -> "@) + term_marked(*ctx, attr, b.1)),
            decreases p.1@.len() - i,
        {
            let mut d = new_doc();
            pp_pat_marked(ctx, attr, &mut d, &p.1[i].0);
            d.atom(" -> ");
            pp_term(ctx, attr, &mut d, &p.1[i].1);
            let ghost p0 = views(parts@);
            parts.push(d);
            proof {
                assert(d@ =~= pat_marked(*ctx, attr, p.1@[i as int].0) + at(" -> "@) + term_marked(
                    *ctx,
                    attr,
                    p.1@[i as int].1,
                ));
                assert(views(parts@) =~= p0.push(d@));
                assert(views(parts@) =~= p.1@.take(i + 1).map_values(|b: (Pattern, Term)| pat_marked(*ctx, attr, b.0) + at(" -> "@) + term_marked(*ctx, attr, b.1)));
            }
            i += 1;
        }
        assert(p.1@.take(i as int) =~= p.1@);
        let mut d = space_doc();
        pp_maybe_marker(ctx, &mut d, p.0);
        d.atom("returns { ");
        d.space();
        d.join_parts(parts, &doc_of("|"));
        d.atom(" }");
        proof {
            assert(d@ =~= post_layout(*ctx, attr, *rp, *p));
        }
        doc.extend(d);
    }
}

fn pp_exn_case(ctx: &PrintCtx, attr: bool, doc: &mut Doc, x: &(Qualid, Option<(Pattern, Term)>))
    requires
        x.0.0@.len() > 0,
        match x.1 {
            Some((p, t)) => wf_pat(p) && wf_term(t),
            None => true,
        },
    ensures
        final(doc)@ == old(doc)@ + exn_case_layout(*ctx, attr, *x),
{
    let mut h = new_doc();
    pp_qualid(ctx, attr, &mut h, &x.0);
    proof {
        assert(h@ =~= qualid(*ctx, attr, x.0));
    }
    match &x.1 {
        Some((p, t)) => {
            h.atom(" ");
            pp_pat_marked(ctx, attr, &mut h, p);
            h.atom(" -> ");
            pp_term(ctx, attr, &mut h, t);
        },
        None => {
            assert(h@ =~= h@ + Seq::<Layout>::empty());
        },
    }
    proof {
        assert(h@ =~= qualid(*ctx, attr, x.0) + match x.1 {
            Some((p, t)) => at(" "@) + pat_marked(*ctx, attr, p) + at(" -> "@) + term_marked(*ctx, attr, t),
            None => Seq::<Layout>::empty(),
        });
    }
    doc.boxed(BoxKind::Hv, 2, h);
}

fn pp_xpost(ctx: &PrintCtx, attr: bool, doc: &mut Doc, x: &Xpost)
    requires
        wf_xpost(*x),
    ensures
        final(doc)@ == old(doc)@ + xpost_layout(*ctx, attr, *x),
{
        let mut parts: Vec<Doc> = Vec::new();
    let mut i: usize = 0;
    while i < x.1.len()
        invariant
            i <= x.1@.len(),
            wf_xpost(*x),
            views(parts@) == x.1@.take(i as int).map_values(|e: (Qualid, Option<(Pattern, Term)>)| exn_case_layout(*ctx, attr, e)),
        decreases x.1@.len() - i,
    {
        let mut d = new_doc();
        pp_exn_case(ctx, attr, &mut d, &x.1[i]);
        let ghost p0 = views(parts@);
        parts.push(d);
        proof {
            assert(d@ =~= exn_case_layout(*ctx, attr, x.1@[i as int]));
            assert(views(parts@) =~= p0.push(d@));
            assert(views(parts@) =~= x.1@.take(i + 1).map_values(|e: (Qualid, Option<(Pattern, Term)>)| exn_case_layout(*ctx, attr, e)));
        }
        i += 1;
    }
    assert(x.1@.take(i as int) =~= x.1@);
    let mut h = new_doc();
    pp_maybe_marker(ctx, &mut h, x.0);
    h.atom("raises { ");
    let mut sep = space_doc();
    sep.atom("| ");
    h.join_parts(parts, &sep);
    h.atom(" }");
    proof {
        assert(h@ =~= maybe_marker(*ctx, x.0) + at("raises { "@) + crate::doc::join(
            x.1@.map_values(|e: (Qualid, Option<(Pattern, Term)>)| exn_case_layout(*ctx, attr, e)),
            crate::doc::sp() + at("| "@),
        ) + at(" }"@));
    }
    doc.boxed(BoxKind::Hv, 2, h);
}

/// Which preconditions of a contract are printed.
pub(crate) enum PreMode {
    /// all of them
    All,
    /// all but the last
    DropLast,
    /// those that are not labelled `expl:witness existence`
    NoWitness,
}

pub(crate) open spec fn select_pre(pre: Seq<Term>, mode: PreMode) -> Seq<Term> {
    match mode {
        PreMode::All => pre,
        PreMode::DropLast => pre.drop_last(),
        PreMode::NoWitness => remove_witness_existence(pre),
    }
}

proof fn lemma_rwe_prefix(pre: Seq<Term>, k: int)
    requires
        0 <= k <= pre.len(),
    ensures
        remove_witness_existence(pre.take(k)).len() <= remove_witness_existence(pre).len(),
        forall|j: int|
            0 <= j < remove_witness_existence(pre.take(k)).len() ==> #[trigger] remove_witness_existence(
                pre.take(k),
            )[j] == remove_witness_existence(pre)[j],
    decreases pre.len(),
{
    if k == pre.len() {
        assert(pre.take(k) =~= pre);
    } else {
        let p2 = pre.drop_last();
        assert(pre.take(k) =~= p2.take(k));
        lemma_rwe_prefix(p2, k);
        assert(pre.drop_last() =~= p2);
    }
}

fn pp_pre(ctx: &PrintCtx, attr: bool, doc: &mut Doc, pre: &Vec<Term>, mode: &PreMode)
    requires
        mode is DropLast ==> pre@.len() > 0,
        forall|i: int|
            0 <= i < select_pre(pre@, *mode).len() ==> wf_term(
                requires_term(#[trigger] select_pre(pre@, *mode)[i]),
            ),
    ensures
        final(doc)@ == old(doc)@ + crate::doc::opt_list(
            crate::doc::sp(),
            Seq::<Layout>::empty(),
            crate::doc::sp(),
            Seq::<Layout>::empty(),
            Seq::<Layout>::empty(),
            select_pre(pre@, *mode).map_values(|t: Term| requires_layout(*ctx, attr, t)),
        ),
{
        let ghost sel = select_pre(pre@, *mode);
    let n = match mode {
        PreMode::DropLast => pre.len() - 1,
        _ => pre.len(),
    };
    let mut parts: Vec<Doc> = Vec::new();
    let mut i: usize = 0;
    while i < n
        invariant
            i <= n,
            n <= pre@.len(),
            sel == select_pre(pre@, *mode),
            *mode is DropLast ==> n == pre@.len() - 1,
            !(*mode is DropLast) ==> n == pre@.len(),
            forall|k: int| 0 <= k < sel.len() ==> wf_term(requires_term(#[trigger] sel[k])),
            views(parts@) == match *mode {
                PreMode::NoWitness => remove_witness_existence(pre@.take(i as int)).map_values(|t: Term| requires_layout(*ctx, attr, t)),
                _ => pre@.take(i as int).map_values(|t: Term| requires_layout(*ctx, attr, t)),
            },
        decreases n - i,
    {
        let skip = match mode {
            PreMode::NoWitness => is_witness_existence_exec(&pre[i]),
            _ => false,
        };
        proof {
            assert(pre@.take(i + 1).drop_last() =~= pre@.take(i as int));
        }
        if !skip {
            proof {
                match *mode {
                    PreMode::NoWitness => {
                        lemma_rwe_prefix(pre@, i + 1);
                        let r = remove_witness_existence(pre@.take(i + 1));
                        assert(r.last() == pre@[i as int]);
                        assert(r[r.len() - 1] == sel[r.len() - 1]);
                        assert(wf_term(requires_term(sel[r.len() - 1])));
                    },
                    PreMode::DropLast => {
                        assert(sel[i as int] == pre@[i as int]);
                    },
                    PreMode::All => {
                        assert(sel[i as int] == pre@[i as int]);
                    },
                }
            }
            let mut d = new_doc();
            pp_requires(ctx, attr, &mut d, &pre[i]);
            let ghost p0 = views(parts@);
            parts.push(d);
            proof {
                assert(d@ =~= requires_layout(*ctx, attr, pre@[i as int]));
                assert(views(parts@) =~= p0.push(d@));
                match *mode {
                    PreMode::NoWitness => {
                        assert(views(parts@) =~= remove_witness_existence(pre@.take(i + 1)).map_values(|t: Term| requires_layout(*ctx, attr, t)));
                    },
                    _ => {
                        assert(views(parts@) =~= pre@.take(i + 1).map_values(|t: Term| requires_layout(*ctx, attr, t)));
                    },
                }
            }
        } else {
            proof {
                assert(remove_witness_existence(pre@.take(i + 1)) == remove_witness_existence(pre@.take(i as int)));
            }
        }
        i += 1;
    }
    proof {
        match *mode {
            PreMode::NoWitness => {
                assert(pre@.take(i as int) =~= pre@);
            },
            PreMode::DropLast => {
                assert(pre@.take(i as int) =~= pre@.drop_last());
            },
            PreMode::All => {
                assert(pre@.take(i as int) =~= pre@);
            },
        }
        assert(views(parts@) == sel.map_values(|t: Term| requires_layout(*ctx, attr, t)));
    }
    let e = new_doc();
    doc.opt_list_parts(parts, &space_doc(), &e, &space_doc(), &e, &e);
}

fn pp_terms_sep(ctx: &PrintCtx, attr: bool, doc: &mut Doc, ts: &Vec<Term>)
    requires
        forall|i: int| 0 <= i < ts@.len() ==> wf_term(#[trigger] ts@[i]),
    ensures
        final(doc)@ == old(doc)@ + crate::doc::join(
            ts@.map_values(|t: Term| term_marked(*ctx, attr, t)),
            comma(),
        ),
{
        let mut parts: Vec<Doc> = Vec::new();
    let mut i: usize = 0;
    while i < ts.len()
        invariant
            i <= ts@.len(),
            forall|k: int| 0 <= k < ts@.len() ==> wf_term(#[trigger] ts@[k]),
            views(parts@) == ts@.take(i as int).map_values(|t: Term| term_marked(*ctx, attr, t)),
        decreases ts@.len() - i,
    {
        let mut d = new_doc();
        pp_term(ctx, attr, &mut d, &ts[i]);
        let ghost p0 = views(parts@);
        parts.push(d);
        proof {
            assert(d@ =~= term_marked(*ctx, attr, ts@[i as int]));
            assert(views(parts@) =~= p0.push(d@));
            assert(views(parts@) =~= ts@.take(i + 1).map_values(|t: Term| term_marked(*ctx, attr, t)));
        }
        i += 1;
    }
    assert(ts@.take(i as int) =~= ts@);
    let mut sep = doc_of(",");
    sep.space();
    doc.join_parts(parts, &sep);
}

fn pp_reads(ctx: &PrintCtx, attr: bool, doc: &mut Doc, reads: &Vec<Qualid>)
    requires
        forall|k: int| 0 <= k < reads@.len() ==> (#[trigger] reads@[k]).0@.len() > 0,
    ensures
        final(doc)@ == old(doc)@ + if reads@.len() > 0 {
            crate::doc::sp() + crate::mlw_spec::hv(
                2,
                at("reads { "@) + crate::doc::join(
                    reads@.map_values(|q: Qualid| qualid(*ctx, attr, q)),
                    at(","@) + crate::doc::sp(),
                ),
            ) + at(" }"@)
        } else {
            Seq::<Layout>::empty()
        },
{
    if reads.len() == 0 {
        assert(doc@ =~= doc@ + Seq::<Layout>::empty());
        return ;
    }
    let mut parts: Vec<Doc> = Vec::new();
    let mut i: usize = 0;
    while i < reads.len()
        invariant
            i <= reads@.len(),
            forall|k: int| 0 <= k < reads@.len() ==> (#[trigger] reads@[k]).0@.len() > 0,
            views(parts@) == reads@.take(i as int).map_values(|q: Qualid| qualid(*ctx, attr, q)),
        decreases reads@.len() - i,
    {
        let mut q = new_doc();
        pp_qualid(ctx, attr, &mut q, &reads[i]);
        let ghost p0 = views(parts@);
        parts.push(q);
        proof {
            assert(q@ =~= qualid(*ctx, attr, reads@[i as int]));
            assert(views(parts@) =~= p0.push(q@));
            assert(views(parts@) =~= reads@.take(i + 1).map_values(|q: Qualid| qualid(*ctx, attr, q)));
        }
        i += 1;
    }
    assert(reads@.take(i as int) =~= reads@);
    let mut h = doc_of("reads { ");
    let mut sep = doc_of(",");
    sep.space();
    h.join_parts(parts, &sep);
    let mut d = space_doc();
    d.boxed(BoxKind::Hv, 2, h);
    d.atom(" }");
    doc.extend(d);
}

fn pp_writes(ctx: &PrintCtx, attr: bool, doc: &mut Doc, s: &Spec)
    requires
        forall|i: int| 0 <= i < s.writes@.len() ==> wf_term(#[trigger] s.writes@[i]),
    ensures
        final(doc)@ == old(doc)@ + if s.checkrw {
            crate::doc::sp() + crate::mlw_spec::hb(
                at("writes { "@) + crate::doc::join(
                    s.writes@.map_values(|t: Term| term_marked(*ctx, attr, t)),
                    at(","@) + crate::doc::sp(),
                ) + at(" }"@),
            )
        } else if s.writes@.len() > 0 {
            crate::doc::sp() + crate::mlw_spec::hv(
                2,
                at("writes { "@) + crate::doc::join(
                    s.writes@.map_values(|t: Term| term_marked(*ctx, attr, t)),
                    at(","@) + crate::doc::sp(),
                ),
            ) + at(" }"@)
        } else {
            Seq::<Layout>::empty()
        },
{
    if s.checkrw {
        let mut h = doc_of("writes { ");
        pp_terms_sep(ctx, attr, &mut h, &s.writes);
        h.atom(" }");
        let mut d = space_doc();
        d.boxed(BoxKind::H, 0, h);
        doc.extend(d);
    } else if s.writes.len() > 0 {
        let mut h = doc_of("writes { ");
        pp_terms_sep(ctx, attr, &mut h, &s.writes);
        let mut d = space_doc();
        d.boxed(BoxKind::Hv, 2, h);
        d.atom(" }");
        doc.extend(d);
    } else {
        assert(doc@ =~= doc@ + Seq::<Layout>::empty());
    }
}

fn pp_posts(ctx: &PrintCtx, attr: bool, doc: &mut Doc, rp: &Pattern, posts: &Vec<Post>)
    requires
        forall|k: int| 0 <= k < posts@.len() ==> wf_post(*ctx, *rp, #[trigger] posts@[k]),
    ensures
        final(doc)@ == old(doc)@ + concat(
            posts@.map_values(|p: Post| post_layout(*ctx, attr, *rp, p)),
        ),
{
    let ghost d0 = doc@;
    let mut i: usize = 0;
    while i < posts.len()
        invariant
            i <= posts@.len(),
            forall|k: int| 0 <= k < posts@.len() ==> wf_post(*ctx, *rp, #[trigger] posts@[k]),
            doc@ == d0 + concat(posts@.take(i as int).map_values(|p: Post| post_layout(*ctx, attr, *rp, p))),
        decreases posts@.len() - i,
    {
        let ghost before = doc@;
        pp_post(ctx, attr, doc, rp, &posts[i]);
        proof {
            let m1 = posts@.take(i + 1).map_values(|p: Post| post_layout(*ctx, attr, *rp, p));
            let m0 = posts@.take(i as int).map_values(|p: Post| post_layout(*ctx, attr, *rp, p));
            assert(m1.drop_last() =~= m0);
            assert(m1.last() == post_layout(*ctx, attr, *rp, posts@[i as int]));
            assert(concat(m1) == concat(m0) + m1.last());
            assert(doc@ =~= d0 + concat(m1));
        }
        i += 1;
    }
    assert(posts@.take(i as int) =~= posts@);
}

fn pp_xposts(ctx: &PrintCtx, attr: bool, doc: &mut Doc, xs: &Vec<Xpost>)
    requires
        forall|k: int| 0 <= k < xs@.len() ==> wf_xpost(#[trigger] xs@[k]),
    ensures
        final(doc)@ == old(doc)@ + crate::doc::opt_list(
            crate::doc::sp(),
            Seq::<Layout>::empty(),
            crate::doc::sp(),
            Seq::<Layout>::empty(),
            Seq::<Layout>::empty(),
            xs@.map_values(|x: Xpost| xpost_layout(*ctx, attr, x)),
        ),
{
    let mut parts: Vec<Doc> = Vec::new();
    let mut i: usize = 0;
    while i < xs.len()
        invariant
            i <= xs@.len(),
            forall|k: int| 0 <= k < xs@.len() ==> wf_xpost(#[trigger] xs@[k]),
            views(parts@) == xs@.take(i as int).map_values(|x: Xpost| xpost_layout(*ctx, attr, x)),
        decreases xs@.len() - i,
    {
        let mut x = new_doc();
        pp_xpost(ctx, attr, &mut x, &xs[i]);
        let ghost p0 = views(parts@);
        parts.push(x);
        proof {
            assert(x@ =~= xpost_layout(*ctx, attr, xs@[i as int]));
            assert(views(parts@) =~= p0.push(x@));
            assert(views(parts@) =~= xs@.take(i + 1).map_values(|x: Xpost| xpost_layout(*ctx, attr, x)));
        }
        i += 1;
    }
    assert(xs@.take(i as int) =~= xs@);
    let e = new_doc();
    doc.opt_list_parts(parts, &space_doc(), &e, &space_doc(), &e, &e);
}

fn pp_alias(ctx: &PrintCtx, attr: bool, doc: &mut Doc, al: &Vec<(Term, Term)>)
    requires
        forall|k: int| 0 <= k < al@.len() ==> wf_term((#[trigger] al@[k]).0) && wf_term(al@[k].1),
    ensures
        final(doc)@ == old(doc)@ + if al@.len() > 0 {
            crate::mlw_spec::hv(
                2,
                at("alias { "@) + crate::doc::join(
                    al@.map_values(|a: (Term, Term)| term_marked(*ctx, attr, a.0) + at(" with "@) + term_marked(*ctx, attr, a.1)),
                    at(","@) + crate::doc::sp(),
                ),
            ) + at(" }"@)
        } else {
            Seq::<Layout>::empty()
        },
{
    if al.len() == 0 {
        assert(doc@ =~= doc@ + Seq::<Layout>::empty());
        return ;
    }
    let mut parts: Vec<Doc> = Vec::new();
    let mut i: usize = 0;
    while i < al.len()
        invariant
            i <= al@.len(),
            forall|k: int| 0 <= k < al@.len() ==> wf_term((#[trigger] al@[k]).0) && wf_term(al@[k].1),
            views(parts@) == al@.take(i as int).map_values(|a: (Term, Term)| term_marked(*ctx, attr, a.0) + at(" with "@) + term_marked(*ctx, attr, a.1)),
        decreases al@.len() - i,
    {
        let mut x = new_doc();
        pp_term(ctx, attr, &mut x, &al[i].0);
        x.atom(" with ");
        pp_term(ctx, attr, &mut x, &al[i].1);
        let ghost p0 = views(parts@);
        parts.push(x);
        proof {
            assert(x@ =~= term_marked(*ctx, attr, al@[i as int].0) + at(" with "@) + term_marked(*ctx, attr, al@[i as int].1));
            assert(views(parts@) =~= p0.push(x@));
            assert(views(parts@) =~= al@.take(i + 1).map_values(|a: (Term, Term)| term_marked(*ctx, attr, a.0) + at(" with "@) + term_marked(*ctx, attr, a.1)));
        }
        i += 1;
    }
    assert(al@.take(i as int) =~= al@);
    let mut h = doc_of("alias { ");
    let mut sep = doc_of(",");
    sep.space();
    h.join_parts(parts, &sep);
    let mut d = new_doc();
    d.boxed(BoxKind::Hv, 2, h);
    d.atom(" }");
    proof {
        assert(d@ =~= crate::mlw_spec::hv(
            2,
            at("alias { "@) + crate::doc::join(
                al@.map_values(|a: (Term, Term)| term_marked(*ctx, attr, a.0) + at(" with "@) + term_marked(*ctx, attr, a.1)),
                at(","@) + crate::doc::sp(),
            ),
        ) + at(" }"@));
    }
    doc.extend(d);
}

fn pp_flag(doc: &mut Doc, b: bool, s: &str)
    ensures
        final(doc)@ == old(doc)@ + if b {
            crate::doc::sp() + at(s@)
        } else {
            Seq::<Layout>::empty()
        },
{
    if b {
        let mut d = space_doc();
        d.atom(s);
        doc.extend(d);
    } else {
        assert(doc@ =~= doc@ + Seq::<Layout>::empty());
    }
}

/// Prints a contract, whose result is bound by `rp`, with the preconditions
/// that `mode` selects and the given `partial` flag.
pub(crate) fn pp_spec(
    ctx: &PrintCtx,
    attr: bool,
    doc: &mut Doc,
    rp: &Pattern,
    s: &Spec,
    mode: &PreMode,
    partial: bool,
)
    requires
        mode is DropLast ==> s.pre@.len() > 0,
        wf_spec(*ctx, *rp, *s, select_pre(s.pre@, *mode)),
    ensures
        final(doc)@ == old(doc)@ + spec_layout(*ctx, attr, *rp, *s, select_pre(s.pre@, *mode), partial),
{
    let mut d = new_doc();
    pp_reads(ctx, attr, &mut d, &s.reads);
    pp_pre(ctx, attr, &mut d, &s.pre, mode);
    pp_writes(ctx, attr, &mut d, s);
    pp_posts(ctx, attr, &mut d, rp, &s.post);
    pp_xposts(ctx, attr, &mut d, &s.xpost);
    pp_alias(ctx, attr, &mut d, &s.alias);
    pp_variants(ctx, attr, &mut d, &s.variant);
    pp_flag(&mut d, s.diverge, "diverges");
    pp_flag(&mut d, partial, "partial");
    assert(d@ =~= spec_layout(*ctx, attr, *rp, *s, select_pre(s.pre@, *mode), partial));
    doc.extend(d);
}


// ------------------------------------------------ types with ghost masks

fn ref_split_exec(t: &Pty) -> (r: (&'static str, &Pty))
    ensures
        r.0@ == ref_split(*t).0,
        *r.1 == ref_split(*t).1,
{
    proof {
        reveal_strlit("ref ");
        reveal_strlit("");
    }
    match t {
        Pty::Ref(ps) => if ps.len() == 1 {
            ("ref ", &ps[0])
        } else {
            ("", t)
        },
        _ => ("", t),
    }
}

fn is_unit_pty(t: &Pty) -> (b: bool)
    ensures
        b == (*t matches Pty::Tuple(ts) && ts@.len() == 0),
{
    match t {
        Pty::Tuple(ts) => ts.len() == 0,
        _ => false,
    }
}

fn min_usize(a: usize, b: usize) -> (r: usize)
    ensures
        r == crate::number_spec::min(a as int, b as int),
{
    if a <= b {
        a
    } else {
        b
    }
}

/// Prints a type with its ghost mask, as in `(int, ghost bool)`.
pub(crate) fn pp_pty_mask(ctx: &PrintCtx, attr: bool, doc: &mut Doc, t: &Pty, m: &Mask)
    requires
        wf_pty_mask(*t, *m),
    ensures
        final(doc)@ == old(doc)@ + pty_mask_layout(*ctx, attr, *t, *m),
    decreases m, 1nat,
{
    match m {
        Mask::Visible => {
            if is_unit_pty(t) {
                assert(doc@ =~= doc@ + Seq::<Layout>::empty());
            } else {
                let (r, u) = ref_split_exec(t);
                doc.atom(r);
                pp_pty_raw(ctx, attr, doc, u);
            }
        },
        Mask::AllGhost => {
            doc.atom("ghost ");
            pp_pty_parens(ctx, attr, doc, t);
        },
        Mask::Tuple(ms) => {
            match t {
                Pty::Tuple(ts) => {
                    let n = min_usize(ts.len(), ms.len());
                    let parts = pp_pty_mask_parts(ctx, attr, ts, ms, n);
                    doc.atom("(");
                    let mut sep = doc_of(",");
                    sep.space();
                    doc.join_parts(parts, &sep);
                    doc.atom(")");
                },
                _ => {
                    assert(doc@ =~= doc@ + Seq::<Layout>::empty());
                },
            }
        },
    }
}

fn pp_pty_mask_parts(
    ctx: &PrintCtx,
    attr: bool,
    ts: &Vec<Pty>,
    ms: &Vec<Mask>,
    n: usize,
) -> (r: Vec<Doc>)
    requires
        n <= ts@.len(),
        n <= ms@.len(),
        forall|i: int| 0 <= i < ts@.len() && i < ms@.len() ==> wf_pty_mask(ts@[i], #[trigger] ms@[i]),
    ensures
        views(r@) == pty_mask_parts(*ctx, attr, ts@, ms@, n as nat),
    decreases ms, 0nat,
{
    let mut r: Vec<Doc> = Vec::new();
    let mut i: usize = 0;
    while i < n
        invariant
            i <= n,
            n <= ts@.len(),
            n <= ms@.len(),
            forall|k: int| 0 <= k < ts@.len() && k < ms@.len() ==> wf_pty_mask(ts@[k], #[trigger] ms@[k]),
            views(r@) == pty_mask_parts(*ctx, attr, ts@, ms@, i as nat),
        decreases n - i,
    {
        assert(decreases_to!(ms => ms@[i as int]));
        let mut d = new_doc();
        pp_pty_mask(ctx, attr, &mut d, &ts[i], &ms[i]);
        let ghost r0 = views(r@);
        r.push(d);
        proof {
            assert(d@ =~= pty_mask_layout(*ctx, attr, ts@[i as int], ms@[i as int]));
            assert(views(r@) =~= r0.push(d@));
        }
        i += 1;
    }
    r
}

fn pp_vis_ghost(doc: &mut Doc, m: &Mask)
    ensures
        final(doc)@ == old(doc)@ + vis_ghost(*m),
{
    match m {
        Mask::Visible => {
            assert(doc@ =~= doc@ + Seq::<Layout>::empty());
        },
        Mask::AllGhost => doc.atom("ghost "),
        Mask::Tuple(_) => doc.atom("TUPLE??"),
    }
}

/// Prints a result type with its binding pattern and ghost mask, as in
/// `(x: int)`.
pub(crate) fn pp_pty_pat_mask(
    ctx: &PrintCtx,
    attr: bool,
    doc: &mut Doc,
    closed: bool,
    t: &Pty,
    p: &Pattern,
    m: &Mask,
)
    requires
        wf_pty_pat_mask(*t, *p, *m),
    ensures
        final(doc)@ == old(doc)@ + pty_pat_mask_layout(*ctx, attr, closed, *t, *p, *m),
    decreases m, 1nat,
{
    let mut inner = new_doc();
    pp_maybe_marker(ctx, &mut inner, p.loc);
    proof {
        assert(inner@ =~= maybe_marker(*ctx, p.loc));
    }
    let ghost mm = inner@;
    match (t, &p.desc, m) {
        (Pty::Tuple(ts), PatDesc::Tuple(ps), Mask::Tuple(ms)) => {
            let n = min_usize(ts.len(), min_usize(ps.len(), ms.len()));
            let parts = pp_pty_pat_mask_parts(ctx, attr, ts, ps, ms, n);
            inner.atom("(");
            let mut sep = doc_of(",");
            sep.space();
            inner.join_parts(parts, &sep);
            inner.atom(")");
            proof {
                assert(inner@ =~= mm + (at("("@) + crate::doc::join(
                    pty_pat_mask_parts(*ctx, attr, ts@, ps@, ms@, n as nat),
                    comma(),
                ) + at(")"@)));
            }
        },
        (Pty::Tuple(ts), PatDesc::Wild, Mask::Tuple(ms)) => {
            let n = min_usize(ts.len(), ms.len());
            let parts = pp_pty_mask_parts(ctx, attr, ts, ms, n);
            inner.atom("(");
            let mut sep = doc_of(",");
            sep.space();
            inner.join_parts(parts, &sep);
            inner.atom(")");
            proof {
                assert(inner@ =~= mm + (at("("@) + crate::doc::join(
                    pty_mask_parts(*ctx, attr, ts@, ms@, n as nat),
                    comma(),
                ) + at(")"@)));
            }
        },
        (_, PatDesc::Wild, _) => {
            let (r, u) = ref_split_exec(t);
            pp_vis_ghost(&mut inner, m);
            inner.atom(r);
            pp_pty_parens(ctx, attr, &mut inner, u);
            proof {
                assert(inner@ =~= mm + (vis_ghost(*m) + at(ref_split(*t).0) + pty_closed(
                    *ctx,
                    attr,
                    ref_split(*t).1,
                )));
            }
        },
        (_, PatDesc::Var(id), _) => {
            let (r, u) = ref_split_exec(t);
            let mut d = new_doc();
            pp_vis_ghost(&mut d, m);
            proof {
                assert(d@ =~= vis_ghost(*m));
            }
            d.atom(r);
            pp_id(ctx, attr, &mut d, id);
            d.atom(" : ");
            pp_pty_raw(ctx, attr, &mut d, u);
            let ghost dd = d@;
            if closed {
                inner.atom("(");
                inner.extend(d);
                inner.atom(")");
                proof {
                    assert(inner@ =~= mm + (at("("@) + dd + at(")"@)));
                }
            } else {
                inner.extend(d);
            }
        },
        _ => {
            assert(inner@ =~= inner@ + Seq::<Layout>::empty());
        },
    }
    proof {
        assert(inner@ =~= maybe_marker(*ctx, p.loc) + match (*t, p.desc, *m) {
            (Pty::Tuple(ts), PatDesc::Tuple(ps), Mask::Tuple(ms)) => at("("@) + crate::doc::join(
                pty_pat_mask_parts(
                    *ctx,
                    attr,
                    ts@,
                    ps@,
                    ms@,
                    crate::number_spec::min(
                        ts@.len() as int,
                        crate::number_spec::min(ps@.len() as int, ms@.len() as int),
                    ) as nat,
                ),
                comma(),
            ) + at(")"@),
            (Pty::Tuple(ts), PatDesc::Wild, Mask::Tuple(ms)) => at("("@) + crate::doc::join(
                pty_mask_parts(
                    *ctx,
                    attr,
                    ts@,
                    ms@,
                    crate::number_spec::min(ts@.len() as int, ms@.len() as int) as nat,
                ),
                comma(),
            ) + at(")"@),
            (_, PatDesc::Wild, _) => vis_ghost(*m) + at(ref_split(*t).0) + pty_closed(*ctx, attr, ref_split(*t).1),
            (_, PatDesc::Var(id), _) => {
                let inner = vis_ghost(*m) + at(ref_split(*t).0) + ident(*ctx, attr, id) + at(" : "@) + pty_raw(
                    *ctx,
                    attr,
                    ref_split(*t).1,
                );
                if closed {
                    at("("@) + inner + at(")"@)
                } else {
                    inner
                }
            },
            _ => Seq::<Layout>::empty(),
        });
    }
    doc.boxed(BoxKind::S, 0, inner);
}

fn pp_pty_pat_mask_parts(
    ctx: &PrintCtx,
    attr: bool,
    ts: &Vec<Pty>,
    ps: &Vec<Pattern>,
    ms: &Vec<Mask>,
    n: usize,
) -> (r: Vec<Doc>)
    requires
        n <= ts@.len(),
        n <= ps@.len(),
        n <= ms@.len(),
        forall|i: int|
            0 <= i < ts@.len() && i < ps@.len() && i < ms@.len() ==> wf_pty_pat_mask(
                ts@[i],
                ps@[i],
                #[trigger] ms@[i],
            ),
    ensures
        views(r@) == pty_pat_mask_parts(*ctx, attr, ts@, ps@, ms@, n as nat),
    decreases ms, 0nat,
{
    let mut r: Vec<Doc> = Vec::new();
    let mut i: usize = 0;
    while i < n
        invariant
            i <= n,
            n <= ts@.len(),
            n <= ps@.len(),
            n <= ms@.len(),
            forall|k: int|
                0 <= k < ts@.len() && k < ps@.len() && k < ms@.len() ==> wf_pty_pat_mask(
                    ts@[k],
                    ps@[k],
                    #[trigger] ms@[k],
                ),
            views(r@) == pty_pat_mask_parts(*ctx, attr, ts@, ps@, ms@, i as nat),
        decreases n - i,
    {
        assert(decreases_to!(ms => ms@[i as int]));
        let mut d = new_doc();
        pp_pty_pat_mask(ctx, attr, &mut d, false, &ts[i], &ps[i], &ms[i]);
        let ghost r0 = views(r@);
        r.push(d);
        proof {
            assert(d@ =~= pty_pat_mask_layout(*ctx, attr, false, ts@[i as int], ps@[i as int], ms@[i as int]));
            assert(views(r@) =~= r0.push(d@));
        }
        i += 1;
    }
    r
}

/// Prints the result type of a function, after ` : `, if it has one.
pub(crate) fn pp_opt_result(
    ctx: &PrintCtx,
    attr: bool,
    doc: &mut Doc,
    t: &Option<Pty>,
    p: &Pattern,
    m: &Mask,
)
    requires
        wf_opt_result(*t, *p, *m),
    ensures
        final(doc)@ == old(doc)@ + opt_result_layout(*ctx, attr, *t, *p, *m),
{
    match t {
        Some(u) => {
            doc.atom(" : ");
            pp_pty_pat_mask(ctx, attr, doc, true, u, p, m);
        },
        None => {
            assert(doc@ =~= doc@ + Seq::<Layout>::empty());
        },
    }
}

/// Prints an exception declaration.
pub(crate) fn pp_exn(ctx: &PrintCtx, attr: bool, doc: &mut Doc, id: &Ident, t: &Pty, m: &Mask)
    requires
        wf_pty_mask(*t, *m),
    ensures
        final(doc)@ == old(doc)@ + exn_layout(*ctx, attr, *id, *t, *m),
{
    let mut h = doc_of("exception ");
    pp_id(ctx, attr, &mut h, id);
    if !is_unit_pty(t) {
        h.atom(" ");
    } else {
        assert(h@ =~= h@ + Seq::<Layout>::empty());
    }
    pp_pty_mask(ctx, attr, &mut h, t, m);
    doc.boxed(BoxKind::H, 0, h);
}

// ------------------------------------------------------------- parameters

fn pp_param(ctx: &PrintCtx, attr: bool, doc: &mut Doc, p: &Param)
    requires
        wf_pty_ref(p.3),
    ensures
        final(doc)@ == old(doc)@ + param_layout(*ctx, attr, *p),
{
    let (r, t) = ref_split_exec(&p.3);
    let is_ref = r.unicode_len() > 0;
    if p.2 || p.1.is_some() || is_ref {
        let mut d = new_doc();
        pp_maybe_marker(ctx, &mut d, p.0);
        proof {
            assert(d@ =~= maybe_marker(*ctx, p.0));
        }
        d.atom("(");
        if p.2 {
            d.atom("ghost ");
        } else {
            assert(d@ =~= d@ + ghost_layout(p.2));
        }
        d.atom(r);
        match &p.1 {
            Some(id) => {
                if is_ref {
                    pp_id_rm(ctx, attr, &mut d, id, Some("mlw:reference_var"));
                } else {
                    pp_id_rm(ctx, attr, &mut d, id, None);
                }
                d.atom(":");
            },
            None => {
                assert(d@ =~= d@ + Seq::<Layout>::empty());
            },
        }
        d.atom(" ");
        pp_pty_raw(ctx, attr, &mut d, t);
        assert(d@ =~= param_layout(*ctx, attr, *p));
        doc.extend(d);
    } else {
        assert(doc@ =~= doc@ + param_layout(*ctx, attr, *p));
    }
}

/// Prints parameters, each preceded by a space and separated by `sep`.
pub(crate) fn pp_params(ctx: &PrintCtx, attr: bool, doc: &mut Doc, ps: &Vec<Param>, sep: &str)
    requires
        wf_params(ps@),
    ensures
        final(doc)@ == old(doc)@ + params_layout(
            *ctx,
            attr,
            ps@,
            if sep@.len() == 0 {
                Seq::<Layout>::empty()
            } else {
                at(sep@)
            },
        ),
{
    let mut parts: Vec<Doc> = Vec::new();
    let mut i: usize = 0;
    while i < ps.len()
        invariant
            i <= ps@.len(),
            wf_params(ps@),
            views(parts@) == ps@.take(i as int).map_values(|p: Param| param_layout(*ctx, attr, p)),
        decreases ps@.len() - i,
    {
        let mut d = new_doc();
        pp_param(ctx, attr, &mut d, &ps[i]);
        let ghost p0 = views(parts@);
        parts.push(d);
        proof {
            assert(d@ =~= param_layout(*ctx, attr, ps@[i as int]));
            assert(views(parts@) =~= p0.push(d@));
            assert(views(parts@) =~= ps@.take(i + 1).map_values(|p: Param| param_layout(*ctx, attr, p)));
        }
        i += 1;
    }
    assert(ps@.take(i as int) =~= ps@);
    let e = new_doc();
    let sep_doc = if sep.unicode_len() == 0 {
        new_doc()
    } else {
        doc_of(sep)
    };
    doc.opt_list_parts(parts, &doc_of(" "), &e, &sep_doc, &e, &e);
}

} // verus!
