//! The printer of program expressions.

use vstd::prelude::*;

use crate::constant::print_def;
use crate::doc::{at, views, BoxKind, Doc, Layout};
use crate::expr::{AssertionKind, ForDirection, RsKind};
use crate::expr_spec::{
    any_result_pat, assert_default, assert_hyp, assert_keyword, assert_layout, assert_term,
    assign_lhs, assign_rhs, comma, dir_text, e_funlit, eapply_parts, ebranches, efl_body,
    efl_case, efl_elems, efl_fun, efl_ids, efl_vals, efl_var, einfix_tail, elet_layout, ends_with,
    erec_head, eseq_parts, exn_branches, expr_closed, expr_fields, expr_is_closed, expr_marked,
    expr_raw, exprs_args, exprs_closed, fun_layout, fundef_layout, fundefs_parts, has_ref_attr,
    hyp_name, is_exit_exn, is_let_any_witness, is_ref_expr, let_any_layout, let_fun_layout,
    raise_keyword, remove_witness_existence, single_ident, spec_full, spec_layout, try_cases,
    wf_assigns, wf_e_funlit, wf_ebranches, wf_efl_elems, wf_efl_vals, wf_exn_branches, wf_expr,
    wf_expr_fields, wf_exprs, wf_fundef, wf_fundefs, wf_let_any, wf_let_fun, wf_spec,
};
use crate::ity::Mask;
use crate::loc::Position;
use crate::mlw_printer::{
    app_shape_of, arg_is_marked, doc_of, has_marker, lemma_app_shape_arity, new_doc, pp_app,
    pp_attr_, pp_id, pp_id_rm, pp_maybe_marked, pp_maybe_marker, pp_opt_marker,
    pp_parens_unless, pp_pat_marked, pp_pty_parens, pp_qualid, pp_scope_parts, pp_tuple_parts,
    space_doc, PrintCtx, Shape,
};
use crate::mlw_spec::{
    attr_layout, ghost_layout, hv, ident, ident_rm, kind_layout, maybe_marker, partial_layout,
    pat_marked, pty_closed, qualid, unsupported_text, vb,
};
use crate::print_contract::{
    hyp_name_exec, is_witness_existence_exec, pp_exn, pp_invariants, pp_opt_result, pp_params,
    pp_pty_pat_mask, pp_spec, pp_variants, select_pre, PreMode,
};
use crate::print_term::{
    pp_binders, pp_branch_parts, pp_cast_parts, pp_field_parts, pp_if_parts, pp_infix_step,
    pp_innfix_parts, pp_match_parts, pp_not_parts, pp_record_parts, pp_term, pp_update_parts,
    same_ident_exec,
};
use crate::ptree::{
    Attr, Binder, Expr, ExprDesc, Fundef, Ident, Param, PatDesc, Pattern, Pty, Qualid, Spec,
};
use crate::term_spec::{binders_layout, is_funlit_attr, let_layout, same_ident, term_marked};
use crate::text;

verus! {

// ------------------------------------------------------------ small parts

fn pp_ghost_kw(doc: &mut Doc, g: bool)
    ensures
        final(doc)@ == old(doc)@ + ghost_layout(g),
{
    if g {
        doc.atom("ghost ");
    } else {
        assert(doc@ =~= doc@ + ghost_layout(g));
    }
}

fn pp_unsupported(doc: &mut Doc, s: &str)
    ensures
        final(doc)@ == old(doc)@ + unsupported_text(s@),
{
    let mut t = String::from_str("__TODO_MLW_PRINTER__ (* ");
    t.append(s);
    t.append(" *)");
    doc.atom_string(t);
}

/// Prints the kind of a routine symbol: `function `, `predicate `, `lemma `.
pub(crate) fn pp_kind(doc: &mut Doc, k: RsKind)
    ensures
        final(doc)@ == old(doc)@ + kind_layout(k),
{
    match k {
        RsKind::NonPure => {
            assert(doc@ =~= doc@ + kind_layout(k));
        },
        RsKind::Func => doc.atom("function "),
        RsKind::Pred => doc.atom("predicate "),
        RsKind::Lemma => doc.atom("lemma "),
        RsKind::Local => pp_unsupported(doc, "RKLOCAL"),
    }
}

pub(crate) fn is_visible(m: &Mask) -> (b: bool)
    ensures
        b == (*m is Visible),
{
    match m {
        Mask::Visible => true,
        _ => false,
    }
}

pub(crate) fn is_wild(p: &Pattern) -> (b: bool)
    ensures
        b == (p.desc is Wild),
{
    match &p.desc {
        PatDesc::Wild => true,
        _ => false,
    }
}

pub(crate) fn is_non_pure(k: RsKind) -> (b: bool)
    ensures
        b == (k is NonPure),
{
    match k {
        RsKind::NonPure => true,
        _ => false,
    }
}

fn expr_is_closed_exec(ctx: &PrintCtx, e: &Expr) -> (b: bool)
    ensures
        b == expr_is_closed(*ctx, *e),
{
    match &e.desc {
        ExprDesc::Ref | ExprDesc::True | ExprDesc::False | ExprDesc::Const(_) | ExprDesc::Ident(_)
        | ExprDesc::Tuple(_) | ExprDesc::Record(_) | ExprDesc::For(_, _, _, _, _, _)
        | ExprDesc::While(_, _, _, _) | ExprDesc::Assert(_, _) | ExprDesc::Absurd | ExprDesc::Scope(
            _,
            _,
        ) | ExprDesc::Innfix(_, _, _) => true,
        ExprDesc::Idapp(_, l) => l.len() == 0 || has_marker(ctx, e.loc),
        _ => has_marker(ctx, e.loc),
    }
}

fn raise_keyword_exec(q: &Qualid) -> (r: Option<&'static str>)
    ensures
        match raise_keyword(*q) {
            Some(k) => r matches Some(s) && s@ == k,
            None => r is None,
        },
{
    if q.0.len() == 1 {
        let s = q.0[0].str.as_str();
        if text::str_eq(s, "'Return") {
            Some("return")
        } else if text::str_eq(s, "'Break") {
            Some("break")
        } else if text::str_eq(s, "'Continue") {
            Some("continue")
        } else {
            None
        }
    } else {
        None
    }
}

fn ends_with_exec(s: &str, suffix: &str) -> (b: bool)
    ensures
        b == ends_with(s@, suffix@),
{
    let n = s.unicode_len();
    let k = suffix.unicode_len();
    if n >= k {
        proof {
            assert(s@.subrange(n - k, n as int) =~= s@.skip(n - k));
        }
        text::str_eq(s.substring_char(n - k, n), suffix)
    } else {
        false
    }
}

pub(crate) fn is_exit_exn_exec(ctx: &PrintCtx, id: &Ident) -> (b: bool)
    ensures
        b == is_exit_exn(*ctx, *id),
{
    let s = id.str.as_str();
    (ends_with_exec(s, "'Return") || ends_with_exec(s, "'Break") || ends_with_exec(s, "'Continue"))
        && !has_marker(ctx, id.loc)
}

fn has_ref_attr_exec(id: &Ident) -> (b: bool)
    ensures
        b == has_ref_attr(*id),
{
    let mut i: usize = 0;
    while i < id.ats.len()
        invariant
            i <= id.ats@.len(),
            forall|j: int|
                0 <= j < i ==> !(#[trigger] id.ats@[j] matches Attr::Str(a) && a.text()
                    == "mlw:reference_var"@),
        decreases id.ats@.len() - i,
    {
        match &id.ats[i] {
            Attr::Str(a) => {
                if text::str_eq(a.as_str(), "mlw:reference_var") {
                    return true;
                }
            },
            Attr::Pos(_) => {},
        }
        i += 1;
    }
    false
}

fn assert_keyword_str(k: AssertionKind) -> (s: &'static str)
    ensures
        s@ == assert_keyword(k),
{
    match k {
        AssertionKind::Assert => "assert",
        AssertionKind::Assume => "assume",
        AssertionKind::Check => "check",
    }
}

pub(crate) fn assert_hyp_str(k: AssertionKind) -> (s: &'static str)
    ensures
        s@ == assert_hyp(k),
{
    match k {
        AssertionKind::Assert => "hyp_name:Assert",
        AssertionKind::Assume => "hyp_name:Assume",
        AssertionKind::Check => "hyp_name:Check",
    }
}

fn pp_assert(ctx: &PrintCtx, attr: bool, doc: &mut Doc, k: AssertionKind, t: &crate::ptree::Term)
    requires
        crate::term_spec::wf_term(assert_term(k, *t)),
    ensures
        final(doc)@ == old(doc)@ + assert_layout(*ctx, attr, k, *t),
{
    let default = match &t.desc {
        crate::ptree::TermDesc::Attr(Attr::Str(a), u) => if text::str_eq(
            a.as_str(),
            assert_hyp_str(k),
        ) {
            Some(&**u)
        } else {
            None
        },
        _ => None,
    };
    match default {
        Some(u) => {
            assert(assert_default(k, *t) == Some(*u));
            let mut h = new_doc();
            let mut s = String::from_str(assert_keyword_str(k));
            s.append(" {");
            h.atom_string(s);
            h.space();
            pp_maybe_marker(ctx, &mut h, t.loc);
            pp_term(ctx, attr, &mut h, u);
            h.atom(" }");
            proof {
                assert(h@ =~= at(assert_keyword(k) + " {"@) + crate::doc::sp() + maybe_marker(
                    *ctx,
                    t.loc,
                ) + term_marked(*ctx, attr, *u) + at(" }"@));
            }
            doc.boxed(BoxKind::Hv, 2, h);
        },
        None => {
            assert(assert_default(k, *t) is None);
            let (oloc, s, u) = hyp_name_exec(t);
            let mut h = new_doc();
            let mut w = String::from_str(assert_keyword_str(k));
            w.append(s.as_str());
            w.append(" {");
            h.atom_string(w);
            h.space();
            pp_opt_marker(ctx, &mut h, oloc);
            pp_term(ctx, attr, &mut h, u);
            h.atom(" }");
            proof {
                let (ol, ss, uu) = hyp_name(*t);
                assert(h@ =~= at(assert_keyword(k) + ss + " {"@) + crate::doc::sp()
                    + crate::mlw_spec::opt_marker(*ctx, ol) + term_marked(*ctx, attr, uu) + at(
                    " }"@,
                ));
            }
            doc.boxed(BoxKind::Hv, 2, h);
        },
    }
}

} // verus!

verus! {

// --------------------------------------------------- lists of expressions

proof fn lemma_wf_exprs_index(c: PrintCtx, es: Seq<Expr>, i: int)
    requires
        wf_exprs(c, es),
        0 <= i < es.len(),
    ensures
        wf_expr(c, es[i]),
    decreases es.len(),
{
    if i < es.len() - 1 {
        lemma_wf_exprs_index(c, es.drop_last(), i);
    }
}

proof fn lemma_wf_expr_fields_index(c: PrintCtx, fs: Seq<(Qualid, Expr)>, i: int)
    requires
        wf_expr_fields(c, fs),
        0 <= i < fs.len(),
    ensures
        wf_expr(c, fs[i].1),
        fs[i].0.0@.len() > 0,
    decreases fs.len(),
{
    if i < fs.len() - 1 {
        lemma_wf_expr_fields_index(c, fs.drop_last(), i);
    }
}

proof fn lemma_wf_assigns_index(c: PrintCtx, l: Seq<(Expr, Option<Qualid>, Expr)>, i: int)
    requires
        wf_assigns(c, l),
        0 <= i < l.len(),
    ensures
        wf_expr(c, l[i].0),
        wf_expr(c, l[i].2),
        l[i].1 matches Some(q) ==> q.0@.len() > 0,
    decreases l.len(),
{
    if i < l.len() - 1 {
        lemma_wf_assigns_index(c, l.drop_last(), i);
    }
}

proof fn lemma_wf_ebranches_index(c: PrintCtx, bs: Seq<(Pattern, Expr)>, i: int)
    requires
        wf_ebranches(c, bs),
        0 <= i < bs.len(),
    ensures
        crate::mlw_spec::wf_pat(bs[i].0),
        wf_expr(c, bs[i].1),
    decreases bs.len(),
{
    if i < bs.len() - 1 {
        lemma_wf_ebranches_index(c, bs.drop_last(), i);
    }
}

proof fn lemma_wf_exn_branches_index(c: PrintCtx, xs: Seq<(Qualid, Option<Pattern>, Expr)>, i: int)
    requires
        wf_exn_branches(c, xs),
        0 <= i < xs.len(),
    ensures
        xs[i].0.0@.len() > 0,
        xs[i].1 matches Some(p) ==> crate::mlw_spec::wf_pat(p),
        wf_expr(c, xs[i].2),
    decreases xs.len(),
{
    if i < xs.len() - 1 {
        lemma_wf_exn_branches_index(c, xs.drop_last(), i);
    }
}

proof fn lemma_wf_fundefs_index(c: PrintCtx, ds: Seq<Fundef>, i: int)
    requires
        wf_fundefs(c, ds),
        0 <= i < ds.len(),
    ensures
        wf_fundef(c, ds[i]),
    decreases ds.len(),
{
    if i < ds.len() - 1 {
        lemma_wf_fundefs_index(c, ds.drop_last(), i);
    }
}

fn pp_exprs_closed(ctx: &PrintCtx, attr: bool, es: &Vec<Expr>) -> (r: Vec<Doc>)
    requires
        wf_exprs(*ctx, es@),
    ensures
        views(r@) == exprs_closed(*ctx, attr, es@),
    decreases es, 0nat,
{
    let mut r: Vec<Doc> = Vec::new();
    let mut i: usize = 0;
    while i < es.len()
        invariant
            i <= es@.len(),
            wf_exprs(*ctx, es@),
            views(r@) == exprs_closed(*ctx, attr, es@.take(i as int)),
        decreases es@.len() - i,
    {
        proof {
            lemma_wf_exprs_index(*ctx, es@, i as int);
            assert(es@.take(i + 1).drop_last() =~= es@.take(i as int));
        }
        assert(decreases_to!(es => es@[i as int]));
        let mut d = new_doc();
        pp_expr_parens(ctx, attr, &mut d, &es[i]);
        let ghost r0 = views(r@);
        r.push(d);
        proof {
            assert(views(r@) =~= r0.push(d@));
            assert(d@ =~= expr_closed(*ctx, attr, es@[i as int]));
        }
        i += 1;
    }
    proof {
        assert(es@.take(i as int) =~= es@);
    }
    r
}

fn pp_exprs_args(ctx: &PrintCtx, attr: bool, sh: &Shape, es: &Vec<Expr>) -> (r: Vec<Doc>)
    requires
        wf_exprs(*ctx, es@),
    ensures
        views(r@) == exprs_args(*ctx, attr, sh@, es@),
        r@.len() == es@.len(),
    decreases es, 0nat,
{
    let mut r: Vec<Doc> = Vec::new();
    let mut i: usize = 0;
    while i < es.len()
        invariant
            i <= es@.len(),
            r@.len() == i,
            wf_exprs(*ctx, es@),
            views(r@) == exprs_args(*ctx, attr, sh@, es@.take(i as int)),
        decreases es@.len() - i,
    {
        proof {
            lemma_wf_exprs_index(*ctx, es@, i as int);
            assert(es@.take(i + 1).drop_last() =~= es@.take(i as int));
        }
        assert(decreases_to!(es => es@[i as int]));
        let mut d = new_doc();
        if arg_is_marked(sh, i) {
            pp_expr_marked(ctx, attr, &mut d, &es[i]);
        } else {
            pp_expr_parens(ctx, attr, &mut d, &es[i]);
        }
        let ghost r0 = views(r@);
        r.push(d);
        proof {
            assert(views(r@) =~= r0.push(d@));
            assert(d@ =~= if crate::mlw_spec::arg_marked(sh@, i as int) {
                expr_marked(*ctx, attr, es@[i as int])
            } else {
                expr_closed(*ctx, attr, es@[i as int])
            });
        }
        i += 1;
    }
    proof {
        assert(es@.take(i as int) =~= es@);
    }
    r
}

fn pp_expr_fields(ctx: &PrintCtx, attr: bool, fs: &Vec<(Qualid, Expr)>) -> (r: Vec<Doc>)
    requires
        wf_expr_fields(*ctx, fs@),
    ensures
        views(r@) == expr_fields(*ctx, attr, fs@),
    decreases fs, 0nat,
{
    let mut r: Vec<Doc> = Vec::new();
    let mut i: usize = 0;
    while i < fs.len()
        invariant
            i <= fs@.len(),
            wf_expr_fields(*ctx, fs@),
            views(r@) == expr_fields(*ctx, attr, fs@.take(i as int)),
        decreases fs@.len() - i,
    {
        proof {
            lemma_wf_expr_fields_index(*ctx, fs@, i as int);
            assert(fs@.take(i + 1).drop_last() =~= fs@.take(i as int));
        }
        assert(decreases_to!(fs => fs@[i as int]));
        let mut q = new_doc();
        pp_qualid(ctx, attr, &mut q, &fs[i].0);
        let mut x = new_doc();
        pp_expr_parens(ctx, attr, &mut x, &fs[i].1);
        proof {
            assert(q@ =~= qualid(*ctx, attr, fs@[i as int].0));
            assert(x@ =~= expr_closed(*ctx, attr, fs@[i as int].1));
        }
        let d = pp_field_parts(q, x);
        let ghost r0 = views(r@);
        r.push(d);
        proof {
            assert(views(r@) =~= r0.push(d@));
        }
        i += 1;
    }
    proof {
        assert(fs@.take(i as int) =~= fs@);
    }
    r
}

fn pp_ebranches(ctx: &PrintCtx, attr: bool, bs: &Vec<(Pattern, Expr)>) -> (r: Vec<Doc>)
    requires
        wf_ebranches(*ctx, bs@),
    ensures
        views(r@) == ebranches(*ctx, attr, bs@),
    decreases bs, 0nat,
{
    let mut r: Vec<Doc> = Vec::new();
    let mut i: usize = 0;
    while i < bs.len()
        invariant
            i <= bs@.len(),
            wf_ebranches(*ctx, bs@),
            views(r@) == ebranches(*ctx, attr, bs@.take(i as int)),
        decreases bs@.len() - i,
    {
        proof {
            lemma_wf_ebranches_index(*ctx, bs@, i as int);
            assert(bs@.take(i + 1).drop_last() =~= bs@.take(i as int));
        }
        assert(decreases_to!(bs => bs@[i as int]));
        let mut p = new_doc();
        pp_pat_marked(ctx, attr, &mut p, &bs[i].0);
        let mut x = new_doc();
        pp_expr_marked(ctx, attr, &mut x, &bs[i].1);
        proof {
            assert(p@ =~= pat_marked(*ctx, attr, bs@[i as int].0));
            assert(x@ =~= expr_marked(*ctx, attr, bs@[i as int].1));
        }
        let d = pp_branch_parts(p, x);
        let ghost r0 = views(r@);
        r.push(d);
        proof {
            assert(views(r@) =~= r0.push(d@));
        }
        i += 1;
    }
    proof {
        assert(bs@.take(i as int) =~= bs@);
    }
    r
}

fn pp_exn_branches(ctx: &PrintCtx, attr: bool, xs: &Vec<(Qualid, Option<Pattern>, Expr)>) -> (r:
    Vec<Doc>)
    requires
        wf_exn_branches(*ctx, xs@),
    ensures
        views(r@) == exn_branches(*ctx, attr, xs@),
    decreases xs, 0nat,
{
    let mut r: Vec<Doc> = Vec::new();
    let mut i: usize = 0;
    while i < xs.len()
        invariant
            i <= xs@.len(),
            wf_exn_branches(*ctx, xs@),
            views(r@) == exn_branches(*ctx, attr, xs@.take(i as int)),
        decreases xs@.len() - i,
    {
        proof {
            lemma_wf_exn_branches_index(*ctx, xs@, i as int);
            assert(xs@.take(i + 1).drop_last() =~= xs@.take(i as int));
        }
        assert(decreases_to!(xs => xs@[i as int]));
        let mut h = new_doc();
        pp_qualid(ctx, attr, &mut h, &xs[i].0);
        proof {
            assert(h@ =~= qualid(*ctx, attr, xs@[i as int].0));
        }
        match &xs[i].1 {
            Some(p) => {
                pp_pat_marked(ctx, attr, &mut h, p);
                h.atom(" ");
            },
            None => {
                assert(h@ =~= h@ + Seq::<Layout>::empty());
            },
        }
        h.atom(" -> ");
        pp_expr_marked(ctx, attr, &mut h, &xs[i].2);
        let mut d = new_doc();
        d.boxed(BoxKind::Hv, 2, h);
        let ghost r0 = views(r@);
        r.push(d);
        proof {
            let x = xs@[i as int];
            assert(h@ =~= qualid(*ctx, attr, x.0) + match x.1 {
                Some(p) => pat_marked(*ctx, attr, p) + at(" "@),
                None => Seq::<Layout>::empty(),
            } + at(" -> "@) + expr_marked(*ctx, attr, x.2));
            assert(views(r@) =~= r0.push(d@));
        }
        i += 1;
    }
    proof {
        assert(xs@.take(i as int) =~= xs@);
    }
    r
}

fn pp_try_cases(ctx: &PrintCtx, attr: bool, xs: &Vec<(Qualid, Option<Pattern>, Expr)>) -> (r:
    Vec<Doc>)
    requires
        wf_exn_branches(*ctx, xs@),
    ensures
        views(r@) == try_cases(*ctx, attr, xs@),
    decreases xs, 0nat,
{
    let mut r: Vec<Doc> = Vec::new();
    let mut i: usize = 0;
    while i < xs.len()
        invariant
            i <= xs@.len(),
            wf_exn_branches(*ctx, xs@),
            views(r@) == try_cases(*ctx, attr, xs@.take(i as int)),
        decreases xs@.len() - i,
    {
        proof {
            lemma_wf_exn_branches_index(*ctx, xs@, i as int);
            assert(xs@.take(i + 1).drop_last() =~= xs@.take(i as int));
        }
        assert(decreases_to!(xs => xs@[i as int]));
        let mut h = new_doc();
        pp_qualid(ctx, attr, &mut h, &xs[i].0);
        proof {
            assert(h@ =~= qualid(*ctx, attr, xs@[i as int].0));
        }
        match &xs[i].1 {
            Some(p) => {
                pp_pat_marked(ctx, attr, &mut h, p);
            },
            None => {
                assert(h@ =~= h@ + Seq::<Layout>::empty());
            },
        }
        h.atom(" ->");
        h.space();
        pp_expr_marked(ctx, attr, &mut h, &xs[i].2);
        let ghost r0 = views(r@);
        r.push(h);
        proof {
            let x = xs@[i as int];
            assert(views(r@) =~= r0.push(h@));
            assert(h@ =~= qualid(*ctx, attr, x.0) + match x.1 {
                Some(p) => pat_marked(*ctx, attr, p),
                None => Seq::<Layout>::empty(),
            } + at(" ->"@) + crate::doc::sp() + expr_marked(*ctx, attr, x.2));
        }
        i += 1;
    }
    proof {
        assert(xs@.take(i as int) =~= xs@);
    }
    r
}

fn pp_assign_lhs(ctx: &PrintCtx, attr: bool, l: &Vec<(Expr, Option<Qualid>, Expr)>) -> (r: Vec<
    Doc,
>)
    requires
        wf_assigns(*ctx, l@),
    ensures
        views(r@) == assign_lhs(*ctx, attr, l@),
    decreases l, 0nat,
{
    let mut r: Vec<Doc> = Vec::new();
    let mut i: usize = 0;
    while i < l.len()
        invariant
            i <= l@.len(),
            wf_assigns(*ctx, l@),
            views(r@) == assign_lhs(*ctx, attr, l@.take(i as int)),
        decreases l@.len() - i,
    {
        proof {
            lemma_wf_assigns_index(*ctx, l@, i as int);
            assert(l@.take(i + 1).drop_last() =~= l@.take(i as int));
        }
        assert(decreases_to!(l => l@[i as int]));
        let mut h = new_doc();
        pp_expr_parens(ctx, attr, &mut h, &l[i].0);
        proof {
            assert(h@ =~= expr_closed(*ctx, attr, l@[i as int].0));
        }
        match &l[i].1 {
            Some(q) => {
                h.atom(".");
                pp_qualid(ctx, attr, &mut h, q);
            },
            None => {
                assert(h@ =~= h@ + Seq::<Layout>::empty());
            },
        }
        let ghost r0 = views(r@);
        r.push(h);
        proof {
            assert(views(r@) =~= r0.push(h@));
            assert(h@ =~= expr_closed(*ctx, attr, l@[i as int].0) + match l@[i as int].1 {
                Some(q) => at("."@) + qualid(*ctx, attr, q),
                None => Seq::<Layout>::empty(),
            });
        }
        i += 1;
    }
    proof {
        assert(l@.take(i as int) =~= l@);
    }
    r
}

fn pp_assign_rhs(ctx: &PrintCtx, attr: bool, l: &Vec<(Expr, Option<Qualid>, Expr)>) -> (r: Vec<
    Doc,
>)
    requires
        wf_assigns(*ctx, l@),
    ensures
        views(r@) == assign_rhs(*ctx, attr, l@),
    decreases l, 0nat,
{
    let mut r: Vec<Doc> = Vec::new();
    let mut i: usize = 0;
    while i < l.len()
        invariant
            i <= l@.len(),
            wf_assigns(*ctx, l@),
            views(r@) == assign_rhs(*ctx, attr, l@.take(i as int)),
        decreases l@.len() - i,
    {
        proof {
            lemma_wf_assigns_index(*ctx, l@, i as int);
            assert(l@.take(i + 1).drop_last() =~= l@.take(i as int));
        }
        assert(decreases_to!(l => l@[i as int]));
        let mut h = new_doc();
        pp_expr_parens(ctx, attr, &mut h, &l[i].2);
        let ghost r0 = views(r@);
        r.push(h);
        proof {
            assert(h@ =~= expr_closed(*ctx, attr, l@[i as int].2));
            assert(views(r@) =~= r0.push(h@));
        }
        i += 1;
    }
    proof {
        assert(l@.take(i as int) =~= l@);
    }
    r
}

fn pp_fundefs_parts(ctx: &PrintCtx, attr: bool, ds: &Vec<Fundef>) -> (r: Vec<Doc>)
    requires
        wf_fundefs(*ctx, ds@),
    ensures
        views(r@) == fundefs_parts(*ctx, attr, ds@),
        r@.len() == ds@.len(),
    decreases ds, 1nat,
{
    let mut r: Vec<Doc> = Vec::new();
    let mut i: usize = 0;
    while i < ds.len()
        invariant
            i <= ds@.len(),
            wf_fundefs(*ctx, ds@),
            r@.len() == i,
            views(r@) == fundefs_parts(*ctx, attr, ds@.take(i as int)),
        decreases ds@.len() - i,
    {
        proof {
            lemma_wf_fundefs_index(*ctx, ds@, i as int);
            assert(ds@.take(i + 1).drop_last() =~= ds@.take(i as int));
        }
        assert(decreases_to!(ds => ds@[i as int]));
        let mut d = new_doc();
        pp_fundef(ctx, attr, &mut d, &ds[i]);
        let ghost r0 = views(r@);
        r.push(d);
        proof {
            assert(d@ =~= fundef_layout(*ctx, attr, ds@[i as int]));
            assert(views(r@) =~= r0.push(d@));
        }
        i += 1;
    }
    proof {
        assert(ds@.take(i as int) =~= ds@);
    }
    r
}

/// Prints a function definition of `let rec`.
pub(crate) fn pp_fundef(ctx: &PrintCtx, attr: bool, doc: &mut Doc, d: &Fundef)
    requires
        wf_fundef(*ctx, *d),
    ensures
        final(doc)@ == old(doc)@ + fundef_layout(*ctx, attr, *d),
    decreases d, 0nat,
{
    let mut h = new_doc();
    pp_ghost_kw(&mut h, d.1);
    proof {
        assert(h@ =~= ghost_layout(d.1));
    }
    pp_kind(&mut h, d.2);
    pp_id(ctx, attr, &mut h, &d.0);
    pp_binders(ctx, attr, &mut h, &d.3);
    pp_opt_result(ctx, attr, &mut h, &d.4, &d.5, &d.6);
    pp_spec(ctx, attr, &mut h, &d.5, &d.7, &PreMode::All, d.7.partial);
    h.atom(" =");
    h.space();
    pp_expr_marked(ctx, attr, &mut h, &d.8);
    doc.extend(h);
}

} // verus!

verus! {

// ------------------------------------------------------------ expressions

fn pp_expr_raw(ctx: &PrintCtx, attr: bool, doc: &mut Doc, e: &Expr)
    requires
        wf_expr(*ctx, *e),
    ensures
        final(doc)@ == old(doc)@ + expr_raw(*ctx, attr, *e),
    decreases e, 1nat,
{
    match &e.desc {
        ExprDesc::Ref | ExprDesc::True | ExprDesc::False | ExprDesc::Const(_) | ExprDesc::Ident(_) | ExprDesc::Asref(_) => pp_expr_atoms(ctx, attr, doc, e),
        ExprDesc::Idapp(_, _) | ExprDesc::Apply(_, _) | ExprDesc::Infix(_, _, _) | ExprDesc::Innfix(_, _, _) => pp_expr_apps(ctx, attr, doc, e),
        ExprDesc::Let(_, _, _, _, _) => pp_expr_let(ctx, attr, doc, e),
        ExprDesc::Rec(_, _) | ExprDesc::Fun(_, _, _, _, _, _) => pp_expr_rec_fun(ctx, attr, doc, e),
        ExprDesc::Any(_, _, _, _, _, _) => pp_expr_any(ctx, attr, doc, e),
        ExprDesc::Tuple(_) | ExprDesc::Record(_) | ExprDesc::Update(_, _) | ExprDesc::Assign(_) => pp_expr_records(ctx, attr, doc, e),
        ExprDesc::Sequence(_, _) | ExprDesc::If(_, _, _) | ExprDesc::While(_, _, _, _) => pp_expr_seq(ctx, attr, doc, e),
        ExprDesc::And(_, _) | ExprDesc::Or(_, _) | ExprDesc::Not(_) => pp_expr_bool(ctx, attr, doc, e),
        ExprDesc::Match(_, _, _) | ExprDesc::Absurd | ExprDesc::Pure(_) | ExprDesc::Idpur(_) => pp_expr_match(ctx, attr, doc, e),
        ExprDesc::Raise(_, _) | ExprDesc::Exn(_, _, _, _) | ExprDesc::Optexn(_, _, _) | ExprDesc::For(_, _, _, _, _, _) => pp_expr_exn(ctx, attr, doc, e),
        ExprDesc::Assert(_, _) | ExprDesc::Scope(_, _) | ExprDesc::Label(_, _) | ExprDesc::Cast(_, _) | ExprDesc::GhostExpr(_) | ExprDesc::Attr(_, _) => pp_expr_misc(ctx, attr, doc, e),
    }
}

fn pp_expr_atoms(ctx: &PrintCtx, attr: bool, doc: &mut Doc, e: &Expr)
    requires
        wf_expr(*ctx, *e),
        e.desc is Ref || e.desc is True || e.desc is False || e.desc is Const || e.desc is Ident || e.desc is Asref,
    ensures
        final(doc)@ == old(doc)@ + expr_raw(*ctx, attr, *e),
    decreases e, 0nat,
{
    match &e.desc {
        ExprDesc::Ref => doc.atom("ref"),
        ExprDesc::True => doc.atom("true"),
        ExprDesc::False => doc.atom("false"),
        ExprDesc::Const(k) => print_def(doc, k),
        ExprDesc::Ident(q) => pp_qualid(ctx, attr, doc, q),
        ExprDesc::Asref(q) => pp_qualid(ctx, attr, doc, q),
        _ => {},
    }
}

fn pp_expr_apps(ctx: &PrintCtx, attr: bool, doc: &mut Doc, e: &Expr)
    requires
        wf_expr(*ctx, *e),
        e.desc is Idapp || e.desc is Apply || e.desc is Infix || e.desc is Innfix,
    ensures
        final(doc)@ == old(doc)@ + expr_raw(*ctx, attr, *e),
    decreases e, 0nat,
{
    match &e.desc {
        ExprDesc::Idapp(q, es) => {
            let sh = app_shape_of(q, es.len());
            proof {
                lemma_app_shape_arity(q.0@, es@.len());
            }
            let xs = pp_exprs_args(ctx, attr, &sh, es);
            pp_app(ctx, attr, doc, q, sh, xs);
        },
        ExprDesc::Apply(a, b) => {
            let mut parts = pp_eapply_parts(ctx, attr, a);
            let mut d = new_doc();
            pp_expr_parens(ctx, attr, &mut d, b);
            proof {
                assert(d@ =~= expr_closed(*ctx, attr, **b));
            }
            let ghost p0 = views(parts@);
            parts.push(d);
            proof {
                assert(views(parts@) =~= p0.push(d@));
            }
            let mut inner = new_doc();
            inner.join_parts(parts, &space_doc());
            proof {
                assert(inner@ =~= crate::doc::join(views(parts@), crate::doc::sp()));
            }
            doc.boxed(BoxKind::Hv, 2, inner);
        },
        ExprDesc::Infix(a, op, b) => {
            pp_expr_parens(ctx, attr, doc, a);
            doc.space();
            pp_einfix_tail(ctx, attr, doc, op, b);
        },
        ExprDesc::Innfix(a, op, b) => {
            let mut x1 = new_doc();
            pp_expr_parens(ctx, attr, &mut x1, a);
            let mut x2 = new_doc();
            pp_expr_parens(ctx, attr, &mut x2, b);
            proof {
                assert(x1@ =~= expr_closed(*ctx, attr, **a));
                assert(x2@ =~= expr_closed(*ctx, attr, **b));
            }
            pp_innfix_parts(ctx, doc, op, x1, x2);
        },
        _ => {},
    }
}

#[verifier::rlimit(60)]
fn pp_expr_let(ctx: &PrintCtx, attr: bool, doc: &mut Doc, e: &Expr)
    requires
        wf_expr(*ctx, *e),
        e.desc is Let,
    ensures
        final(doc)@ == old(doc)@ + expr_raw(*ctx, attr, *e),
    decreases e, 0nat,
{
    match &e.desc {
        ExprDesc::Let(id, g, k, a, b) => {
            let mut v = new_doc();
            match &a.desc {
                ExprDesc::Fun(bs, t, p, m, s, body) => {
                    pp_let_fun(ctx, attr, &mut v, a.loc, id, *g, *k, bs, t, p, m, s, body);
                    v.atom(" in");
                    v.space();
                    pp_expr_marked(ctx, attr, &mut v, b);
                    doc.boxed(BoxKind::V, 0, v);
                },
                ExprDesc::Any(ps, k2, t, p, m, s) => {
                    pp_let_any(ctx, attr, &mut v, a.loc, id, *g, *k, ps, *k2, t, p, m, s);
                    v.atom(" in");
                    v.space();
                    pp_expr_marked(ctx, attr, &mut v, b);
                    doc.boxed(BoxKind::V, 0, v);
                },
                _ => {
                    let mut l = new_doc();
                    pp_elet(ctx, attr, &mut l, id, *g, *k, a);
                    v.boxed(BoxKind::V, 2, l);
                    v.atom(" in");
                    v.space();
                    pp_expr_marked(ctx, attr, &mut v, b);
                    doc.boxed(BoxKind::Hv, 0, v);
                },
            }
        },
        _ => {},
    }
}

#[verifier::rlimit(60)]
fn pp_expr_rec_fun(ctx: &PrintCtx, attr: bool, doc: &mut Doc, e: &Expr)
    requires
        wf_expr(*ctx, *e),
        e.desc is Rec || e.desc is Fun,
    ensures
        final(doc)@ == old(doc)@ + expr_raw(*ctx, attr, *e),
    decreases e, 0nat,
{
    match &e.desc {
        ExprDesc::Rec(ds, b) => {
            let parts = pp_fundefs_parts(ctx, attr, ds);
            let mut h = new_doc();
            pp_erec_head(&mut h, parts);
            doc.boxed(BoxKind::V, 0, h);
            doc.space();
            pp_expr_marked(ctx, attr, doc, b);
        },
        ExprDesc::Fun(bs, t, p, m, s, body) => {
            if bs.len() == 0 && t.is_none() && is_wild(p) && is_visible(m) {
                let unit = match &body.desc {
                    ExprDesc::Tuple(xs) => xs.len() == 0,
                    _ => false,
                };
                let mut v = new_doc();
                pp_maybe_marker(ctx, &mut v, p.loc);
                proof {
                    assert(v@ =~= maybe_marker(*ctx, p.loc));
                }
                v.atom("begin");
                if unit {
                    v.space();
                    pp_maybe_marker(ctx, &mut v, body.loc);
                    pp_spec(ctx, attr, &mut v, p, s, &PreMode::All, s.partial);
                } else {
                    pp_spec(ctx, attr, &mut v, p, s, &PreMode::All, s.partial);
                    v.space();
                    pp_expr_marked(ctx, attr, &mut v, body);
                }
                let mut h = new_doc();
                h.boxed(BoxKind::V, 2, v);
                h.space();
                h.atom("end");
                doc.boxed(BoxKind::V, 0, h);
            } else {
                pp_fun(ctx, attr, doc, bs, t, p, m, s, body);
            }
        },
        _ => {},
    }
}

#[verifier::rlimit(60)]
fn pp_expr_any(ctx: &PrintCtx, attr: bool, doc: &mut Doc, e: &Expr)
    requires
        wf_expr(*ctx, *e),
        e.desc is Any,
    ensures
        final(doc)@ == old(doc)@ + expr_raw(*ctx, attr, *e),
    decreases e, 0nat,
{
    match &e.desc {
        ExprDesc::Any(ps, _, t, p, m, s) => {
            match t {
                Some(u) => {
                    if ps.len() == 0 {
                        let p2 = any_result_pat_exec(p, s);
                        let mut h = doc_of("any ");
                        pp_pty_pat_mask(ctx, attr, &mut h, true, u, p2, m);
                        pp_spec(ctx, attr, &mut h, p2, s, &PreMode::NoWitness, s.partial);
                        doc.boxed(BoxKind::Hv, 2, h);
                    } else {
                        pp_unsupported(doc, "EANY");
                    }
                },
                None => pp_unsupported(doc, "EANY"),
            }
        },
        _ => {},
    }
}

#[verifier::rlimit(60)]
fn pp_expr_records(ctx: &PrintCtx, attr: bool, doc: &mut Doc, e: &Expr)
    requires
        wf_expr(*ctx, *e),
        e.desc is Tuple || e.desc is Record || e.desc is Update || e.desc is Assign,
    ensures
        final(doc)@ == old(doc)@ + expr_raw(*ctx, attr, *e),
    decreases e, 0nat,
{
    match &e.desc {
        ExprDesc::Tuple(es) => {
            let parts = pp_exprs_closed(ctx, attr, es);
            pp_tuple_parts(doc, parts);
        },
        ExprDesc::Record(fs) => {
            let parts = pp_expr_fields(ctx, attr, fs);
            pp_record_parts(doc, parts);
        },
        ExprDesc::Update(x, fs) => {
            let mut d = new_doc();
            pp_expr_parens(ctx, attr, &mut d, x);
            proof {
                assert(d@ =~= expr_closed(*ctx, attr, **x));
            }
            let parts = pp_expr_fields(ctx, attr, fs);
            pp_update_parts(doc, d, parts);
        },
        ExprDesc::Assign(l) => {
            if l.len() == 1 {
                proof {
                    lemma_wf_assigns_index(*ctx, l@, 0);
                }
                let mut h = new_doc();
                pp_expr_parens(ctx, attr, &mut h, &l[0].0);
                proof {
                    assert(h@ =~= expr_closed(*ctx, attr, l@[0].0));
                }
                match &l[0].1 {
                    Some(q) => {
                        h.atom(".");
                        pp_qualid(ctx, attr, &mut h, q);
                    },
                    None => {
                        assert(h@ =~= h@ + Seq::<Layout>::empty());
                    },
                }
                let ghost h0 = h@;
                h.atom(" <-");
                h.space();
                pp_expr_parens(ctx, attr, &mut h, &l[0].2);
                proof {
                    assert(h0 =~= expr_closed(*ctx, attr, l@[0].0) + match l@[0].1 {
                        Some(q) => at("."@) + qualid(*ctx, attr, q),
                        None => Seq::<Layout>::empty(),
                    });
                }
                doc.boxed(BoxKind::Hv, 2, h);
            } else {
                let lhs = pp_assign_lhs(ctx, attr, l);
                let rhs = pp_assign_rhs(ctx, attr, l);
                let mut sep = doc_of(",");
                sep.space();
                let mut h = doc_of("(");
                h.join_parts(lhs, &sep);
                h.atom(") <-");
                h.space();
                h.atom("(");
                h.join_parts(rhs, &sep);
                h.atom(")");
                proof {
                    assert(h@ =~= at("("@) + crate::doc::join(assign_lhs(*ctx, attr, l@), comma()) + at(
                        ") <-"@,
                    ) + crate::doc::sp() + at("("@) + crate::doc::join(assign_rhs(*ctx, attr, l@), comma())
                        + at(")"@));
                }
                doc.boxed(BoxKind::Hv, 2, h);
            }
        },
        _ => {},
    }
}

#[verifier::rlimit(60)]
fn pp_expr_seq(ctx: &PrintCtx, attr: bool, doc: &mut Doc, e: &Expr)
    requires
        wf_expr(*ctx, *e),
        e.desc is Sequence || e.desc is If || e.desc is While,
    ensures
        final(doc)@ == old(doc)@ + expr_raw(*ctx, attr, *e),
    decreases e, 0nat,
{
    match &e.desc {
        ExprDesc::Sequence(a, b) => {
            let mut d = new_doc();
            pp_expr_parens(ctx, attr, &mut d, a);
            proof {
                assert(d@ =~= expr_closed(*ctx, attr, **a));
            }
            let mut parts: Vec<Doc> = Vec::new();
            parts.push(d);
            let mut more = pp_eseq_parts(ctx, attr, b);
            let ghost p0 = views(parts@);
            let ghost m0 = views(more@);
            parts.append(&mut more);
            proof {
                assert(views(parts@) =~= p0 + m0);
                assert(p0 =~= seq![expr_closed(*ctx, attr, **a)]);
            }
            let mut sep = doc_of(";");
            sep.space();
            doc.join_parts(parts, &sep);
        },
        ExprDesc::If(a, b, c) => {
            let mut x1 = new_doc();
            pp_expr_parens(ctx, attr, &mut x1, a);
            let mut x2 = new_doc();
            pp_expr_parens(ctx, attr, &mut x2, b);
            let mut x3 = new_doc();
            pp_expr_parens(ctx, attr, &mut x3, c);
            proof {
                assert(x1@ =~= expr_closed(*ctx, attr, **a));
                assert(x2@ =~= expr_closed(*ctx, attr, **b));
                assert(x3@ =~= expr_closed(*ctx, attr, **c));
            }
            pp_if_parts(doc, x1, x2, x3);
        },
        ExprDesc::While(a, invs, vs, b) => {
            let mut v = doc_of("while ");
            pp_expr_marked(ctx, attr, &mut v, a);
            v.atom(" do");
            pp_variants(ctx, attr, &mut v, vs);
            pp_invariants(ctx, attr, &mut v, invs);
            v.space();
            pp_expr_marked(ctx, attr, &mut v, b);
            let mut h = new_doc();
            h.boxed(BoxKind::V, 2, v);
            h.space();
            h.atom("done");
            doc.boxed(BoxKind::V, 0, h);
        },
        _ => {},
    }
}

fn pp_expr_bool(ctx: &PrintCtx, attr: bool, doc: &mut Doc, e: &Expr)
    requires
        wf_expr(*ctx, *e),
        e.desc is And || e.desc is Or || e.desc is Not,
    ensures
        final(doc)@ == old(doc)@ + expr_raw(*ctx, attr, *e),
    decreases e, 0nat,
{
    match &e.desc {
        ExprDesc::And(a, b) => {
            let mut x = new_doc();
            pp_expr_parens(ctx, attr, &mut x, a);
            proof {
                assert(x@ =~= expr_closed(*ctx, attr, **a));
            }
            let mut y = doc_of(" &&");
            y.space();
            pp_expr_parens(ctx, attr, &mut y, b);
            let mut h = new_doc();
            h.boxed(BoxKind::Hv, 2, x);
            h.space();
            h.boxed(BoxKind::Hv, 2, y);
            proof {
                assert(h@ =~= hv(2, expr_closed(*ctx, attr, **a)) + crate::doc::sp() + hv(
                    2,
                    at(" &&"@) + crate::doc::sp() + expr_closed(*ctx, attr, **b),
                ));
            }
            doc.boxed(BoxKind::S, 0, h);
        },
        ExprDesc::Or(a, b) => {
            let mut x = new_doc();
            pp_expr_parens(ctx, attr, &mut x, a);
            proof {
                assert(x@ =~= expr_closed(*ctx, attr, **a));
            }
            let mut y = doc_of(" ||");
            y.space();
            pp_expr_parens(ctx, attr, &mut y, b);
            let mut h = new_doc();
            h.boxed(BoxKind::Hv, 2, x);
            h.space();
            h.boxed(BoxKind::Hv, 2, y);
            proof {
                assert(h@ =~= hv(2, expr_closed(*ctx, attr, **a)) + crate::doc::sp() + hv(
                    2,
                    at(" ||"@) + crate::doc::sp() + expr_closed(*ctx, attr, **b),
                ));
            }
            doc.boxed(BoxKind::S, 0, h);
        },
        ExprDesc::Not(a) => {
            let mut x = new_doc();
            pp_expr_parens(ctx, attr, &mut x, a);
            proof {
                assert(x@ =~= expr_closed(*ctx, attr, **a));
            }
            pp_not_parts(doc, x);
        },
        _ => {},
    }
}

#[verifier::rlimit(60)]
fn pp_expr_match(ctx: &PrintCtx, attr: bool, doc: &mut Doc, e: &Expr)
    requires
        wf_expr(*ctx, *e),
        e.desc is Match || e.desc is Absurd || e.desc is Pure || e.desc is Idpur,
    ensures
        final(doc)@ == old(doc)@ + expr_raw(*ctx, attr, *e),
    decreases e, 0nat,
{
    match &e.desc {
        ExprDesc::Match(x, cases, xcases) => {
            if cases.len() == 0 {
                let mut a = doc_of("try");
                a.space();
                pp_expr_marked(ctx, attr, &mut a, x);
                let parts = pp_try_cases(ctx, attr, xcases);
                let mut b = doc_of("with");
                b.space();
                let mut sep = space_doc();
                sep.atom("| ");
                b.join_parts(parts, &sep);
                let mut h = new_doc();
                h.boxed(BoxKind::Hv, 2, a);
                h.space();
                h.boxed(BoxKind::Hv, 2, b);
                h.space();
                h.atom("end");
                doc.boxed(BoxKind::Hv, 0, h);
            } else {
                let mut d = new_doc();
                pp_expr_marked(ctx, attr, &mut d, x);
                proof {
                    assert(d@ =~= expr_marked(*ctx, attr, **x));
                }
                let bs = pp_ebranches(ctx, attr, cases);
                let xs = pp_exn_branches(ctx, attr, xcases);
                pp_match_parts(doc, d, bs, xs);
            }
        },
        ExprDesc::Absurd => doc.atom("absurd"),
        ExprDesc::Pure(t) => {
            let mut h = doc_of("pure {");
            h.space();
            pp_term(ctx, attr, &mut h, t);
            h.atom(" }");
            let mut s = new_doc();
            s.boxed(BoxKind::Hv, 2, h);
            s.atom(" }");
            doc.boxed(BoxKind::S, 0, s);
        },
        ExprDesc::Idpur(q) => {
            let mut h = doc_of("{ ");
            pp_qualid(ctx, attr, &mut h, q);
            h.atom(" }");
            doc.boxed(BoxKind::H, 0, h);
        },
        _ => {},
    }
}

#[verifier::rlimit(60)]
fn pp_expr_exn(ctx: &PrintCtx, attr: bool, doc: &mut Doc, e: &Expr)
    requires
        wf_expr(*ctx, *e),
        e.desc is Raise || e.desc is Exn || e.desc is Optexn || e.desc is For,
    ensures
        final(doc)@ == old(doc)@ + expr_raw(*ctx, attr, *e),
    decreases e, 0nat,
{
    match &e.desc {
        ExprDesc::Raise(q, oa) => {
            let mut arg = new_doc();
            match oa {
                Some(a) => {
                    arg.atom(" ");
                    pp_expr_parens(ctx, attr, &mut arg, a);
                },
                None => {},
            }
            proof {
                assert(arg@ =~= match *oa {
                    Some(a) => at(" "@) + expr_closed(*ctx, attr, *a),
                    None => Seq::<Layout>::empty(),
                });
            }
            match raise_keyword_exec(q) {
                Some(kw) => {
                    let mut h = new_doc();
                    pp_maybe_marker(ctx, &mut h, q.0[0].loc);
                    proof {
                        assert(h@ =~= maybe_marker(*ctx, q.0@[0].loc));
                    }
                    h.atom(kw);
                    h.extend(arg);
                    doc.boxed(BoxKind::Hv, 2, h);
                },
                None => {
                    doc.atom("raise ");
                    pp_qualid(ctx, attr, doc, q);
                    doc.extend(arg);
                },
            }
        },
        ExprDesc::Exn(id, t, m, x) => {
            let mut h = new_doc();
            pp_exn(ctx, attr, &mut h, id, t, m);
            proof {
                assert(h@ =~= crate::expr_spec::exn_layout(*ctx, attr, *id, *t, *m));
            }
            h.atom(" in");
            h.space();
            pp_expr_marked(ctx, attr, &mut h, x);
            doc.boxed(BoxKind::S, 0, h);
        },
        ExprDesc::Optexn(id, m, x) => {
            if is_exit_exn_exec(ctx, id) {
                pp_expr_marked(ctx, attr, doc, x);
            } else if !is_visible(m) {
                pp_unsupported(doc, "OPTEXN mask<>visible");
            } else {
                let mut h = doc_of("exception ");
                pp_id(ctx, attr, &mut h, id);
                h.atom(" in");
                h.space();
                pp_expr_marked(ctx, attr, &mut h, x);
                doc.boxed(BoxKind::V, 0, h);
            }
        },
        ExprDesc::For(id, a, d, b, invs, body) => {
            let mut v = doc_of("for ");
            pp_id(ctx, attr, &mut v, id);
            v.atom(" = ");
            pp_expr_marked(ctx, attr, &mut v, a);
            let dir = match d {
                ForDirection::To => " to ",
                ForDirection::DownTo => " downto ",
            };
            proof {
                reveal_strlit(" to ");
                reveal_strlit(" downto ");
                reveal_strlit(" ");
                reveal_strlit("to");
                reveal_strlit("downto");
                assert(dir@ =~= " "@ + dir_text(*d) + " "@);
            }
            v.atom(dir);
            pp_expr_marked(ctx, attr, &mut v, b);
            v.atom(" do");
            pp_invariants(ctx, attr, &mut v, invs);
            v.space();
            pp_expr_marked(ctx, attr, &mut v, body);
            let mut h = new_doc();
            h.boxed(BoxKind::V, 2, v);
            h.space();
            h.atom("done");
            doc.boxed(BoxKind::V, 0, h);
        },
        _ => {},
    }
}

#[verifier::rlimit(60)]
fn pp_expr_misc(ctx: &PrintCtx, attr: bool, doc: &mut Doc, e: &Expr)
    requires
        wf_expr(*ctx, *e),
        e.desc is Assert || e.desc is Scope || e.desc is Label || e.desc is Cast || e.desc is GhostExpr || e.desc is Attr,
    ensures
        final(doc)@ == old(doc)@ + expr_raw(*ctx, attr, *e),
    decreases e, 0nat,
{
    match &e.desc {
        ExprDesc::Assert(k, t) => pp_assert(ctx, attr, doc, *k, t),
        ExprDesc::Scope(q, x) => {
            let mut d = new_doc();
            pp_expr_marked(ctx, attr, &mut d, x);
            proof {
                assert(d@ =~= expr_marked(*ctx, attr, **x));
            }
            pp_scope_parts(ctx, attr, doc, q, d);
        },
        ExprDesc::Label(id, x) => {
            let mut h = doc_of("label ");
            pp_id(ctx, attr, &mut h, id);
            h.atom(" in");
            h.space();
            pp_expr_marked(ctx, attr, &mut h, x);
            doc.boxed(BoxKind::Hv, 2, h);
        },
        ExprDesc::Cast(x, t) => {
            let mut d = new_doc();
            pp_expr_parens(ctx, attr, &mut d, x);
            let mut u = new_doc();
            pp_pty_parens(ctx, attr, &mut u, t);
            proof {
                assert(d@ =~= expr_closed(*ctx, attr, **x));
                assert(u@ =~= pty_closed(*ctx, attr, *t));
            }
            pp_cast_parts(doc, d, u);
        },
        ExprDesc::GhostExpr(x) => {
            doc.atom("ghost ");
            pp_expr_parens(ctx, attr, doc, x);
        },
        ExprDesc::Attr(a, x) => {
            if is_funlit_attr_exec(a) {
                pp_e_funlit(ctx, attr, doc, x);
            } else {
                let mut h = new_doc();
                pp_attr_(ctx, &mut h, a);
                proof {
                    assert(h@ =~= attr_layout(*ctx, *a));
                }
                pp_expr_marked(ctx, attr, &mut h, x);
                doc.boxed(BoxKind::S, 0, h);
            }
        },
        _ => {},
    }
}




pub(crate) fn any_result_pat_exec<'a>(p: &'a Pattern, s: &'a Spec) -> (r: &'a Pattern)
    ensures
        *r == any_result_pat(*p, *s),
{
    if !is_wild(p) {
        p
    } else if s.post.len() > 0 && s.post[0].1.len() > 0 {
        &s.post[0].1[0].0
    } else {
        p
    }
}

fn pp_erec_head(doc: &mut Doc, fs: Vec<Doc>)
    requires
        fs@.len() > 0,
    ensures
        final(doc)@ == old(doc)@ + erec_head(views(fs@)),
{
    let ghost vs = views(fs@);
    let n = fs.len();
    let mut fs = fs;
    if n == 1 {
        let f = fs.pop().unwrap();
        let mut h = doc_of("let rec ");
        h.extend(f);
        h.atom(" in");
        doc.boxed(BoxKind::V, 2, h);
        return ;
    }
    let ghost f0 = fs@;
    let last = fs.pop().unwrap();
    let ghost f1 = fs@;
    let first = fs.remove(0);
    let ghost mid = vs.subrange(1, vs.len() - 1);
    proof {
        assert(f1 =~= f0.drop_last());
        assert(fs@ =~= f1.subrange(1, f1.len() as int));
        assert(views(fs@) =~= mid);
        assert(first@ == vs[0]);
        assert(last@ == vs.last());
    }
    let mut h = doc_of("let rec ");
    h.extend(first);
    doc.boxed(BoxKind::V, 2, h);
    doc.space();
    let ghost start = doc@;
    let m = fs.len();
    let mut i: usize = 0;
    while fs.len() > 0
        invariant
            i + fs@.len() == m,
            m == mid.len(),
            views(fs@) =~= mid.subrange(i as int, m as int),
            doc@ == start + concat_withs(mid.take(i as int)),
        decreases fs@.len(),
    {
        let ghost before = fs@;
        let d = fs.remove(0);
        proof {
            assert(fs@ =~= before.subrange(1, before.len() as int));
            assert(views(fs@) =~= views(before).subrange(1, before.len() as int));
            assert(d@ == views(before)[0]);
            assert(d@ == mid[i as int]);
            assert(views(fs@) =~= mid.subrange(i + 1, m as int));
            assert(mid.take(i + 1).drop_last() =~= mid.take(i as int));
        }
        let mut w = doc_of("with ");
        w.extend(d);
        doc.boxed(BoxKind::Hv, 2, w);
        i += 1;
    }
    proof {
        assert(mid.take(i as int) =~= mid);
        lemma_concat_withs(mid);
    }
    let mut w = doc_of("with ");
    w.extend(last);
    w.atom(" in");
    doc.boxed(BoxKind::Hv, 2, w);
}

spec fn concat_withs(fs: Seq<Seq<Layout>>) -> Seq<Layout>
    decreases fs.len(),
{
    if fs.len() == 0 {
        seq![]
    } else {
        concat_withs(fs.drop_last()) + hv(2, at("with "@) + fs.last())
    }
}

proof fn lemma_concat_withs(fs: Seq<Seq<Layout>>)
    ensures
        concat_withs(fs) == crate::expr_spec::concat(
            fs.map_values(|f: Seq<Layout>| hv(2, at("with "@) + f)),
        ),
    decreases fs.len(),
{
    if fs.len() > 0 {
        lemma_concat_withs(fs.drop_last());
        assert(fs.map_values(|f: Seq<Layout>| hv(2, at("with "@) + f)).drop_last() =~= fs.drop_last().map_values(
            |f: Seq<Layout>| hv(2, at("with "@) + f),
        ));
    }
}

} // verus!

verus! {


} // verus!

verus! {



fn is_funlit_attr_exec(a: &Attr) -> (b: bool)
    ensures
        b == is_funlit_attr(*a),
{
    match a {
        Attr::Str(s) => text::str_eq(s.as_str(), "funlit"),
        Attr::Pos(_) => false,
    }
}

fn pp_expr_marked(ctx: &PrintCtx, attr: bool, doc: &mut Doc, e: &Expr)
    requires
        wf_expr(*ctx, *e),
    ensures
        final(doc)@ == old(doc)@ + expr_marked(*ctx, attr, *e),
    decreases e, 2nat,
{
    let mut d = new_doc();
    pp_expr_raw(ctx, attr, &mut d, e);
    proof {
        assert(d@ =~= expr_raw(*ctx, attr, *e));
    }
    pp_maybe_marked(ctx, doc, e.loc, d);
}

fn pp_expr_parens(ctx: &PrintCtx, attr: bool, doc: &mut Doc, e: &Expr)
    requires
        wf_expr(*ctx, *e),
    ensures
        final(doc)@ == old(doc)@ + expr_closed(*ctx, attr, *e),
    decreases e, 3nat,
{
    let mut d = new_doc();
    pp_expr_marked(ctx, attr, &mut d, e);
    proof {
        assert(d@ =~= expr_marked(*ctx, attr, *e));
    }
    pp_parens_unless(doc, expr_is_closed_exec(ctx, e), d);
}

fn pp_eapply_parts(ctx: &PrintCtx, attr: bool, e: &Expr) -> (r: Vec<Doc>)
    requires
        wf_expr(*ctx, *e),
    ensures
        views(r@) == eapply_parts(*ctx, attr, *e),
    decreases e, 4nat,
{
    match &e.desc {
        ExprDesc::Apply(a, b) => {
            let mut r = pp_eapply_parts(ctx, attr, a);
            let mut d = new_doc();
            pp_expr_parens(ctx, attr, &mut d, b);
            let ghost r0 = views(r@);
            r.push(d);
            proof {
                assert(d@ =~= expr_closed(*ctx, attr, **b));
                assert(views(r@) =~= r0.push(d@));
            }
            r
        },
        _ => {
            let mut d = new_doc();
            pp_expr_parens(ctx, attr, &mut d, e);
            let mut r: Vec<Doc> = Vec::new();
            r.push(d);
            proof {
                assert(d@ =~= expr_closed(*ctx, attr, *e));
                assert(views(r@) =~= seq![d@]);
            }
            r
        },
    }
}

fn pp_einfix_tail(ctx: &PrintCtx, attr: bool, doc: &mut Doc, op: &Ident, e: &Expr)
    requires
        wf_expr(*ctx, *e),
        crate::mlw_spec::is_infix_ident(*op),
    ensures
        final(doc)@ == old(doc)@ + einfix_tail(*ctx, attr, *op, *e),
    decreases e, 4nat,
{
    match &e.desc {
        ExprDesc::Infix(a, op2, b) => {
            let mut x = new_doc();
            pp_expr_parens(ctx, attr, &mut x, a);
            proof {
                assert(x@ =~= expr_closed(*ctx, attr, **a));
            }
            pp_infix_step(ctx, doc, op, x);
            doc.space();
            pp_einfix_tail(ctx, attr, doc, op2, b);
        },
        _ => {
            let mut x = new_doc();
            pp_expr_parens(ctx, attr, &mut x, e);
            proof {
                assert(x@ =~= expr_closed(*ctx, attr, *e));
            }
            pp_infix_step(ctx, doc, op, x);
        },
    }
}

fn pp_eseq_parts(ctx: &PrintCtx, attr: bool, e: &Expr) -> (r: Vec<Doc>)
    requires
        wf_expr(*ctx, *e),
    ensures
        views(r@) == eseq_parts(*ctx, attr, *e),
    decreases e, 4nat,
{
    let mut d = new_doc();
    match &e.desc {
        ExprDesc::Sequence(a, b) => {
            pp_expr_parens(ctx, attr, &mut d, a);
            let mut r: Vec<Doc> = Vec::new();
            r.push(d);
            let mut more = pp_eseq_parts(ctx, attr, b);
            let ghost r0 = views(r@);
            let ghost m0 = views(more@);
            r.append(&mut more);
            proof {
                assert(d@ =~= expr_closed(*ctx, attr, **a));
                assert(r0 =~= seq![d@]);
                assert(views(r@) =~= r0 + m0);
            }
            r
        },
        _ => {
            pp_expr_parens(ctx, attr, &mut d, e);
            let mut r: Vec<Doc> = Vec::new();
            r.push(d);
            proof {
                assert(d@ =~= expr_closed(*ctx, attr, *e));
                assert(views(r@) =~= seq![d@]);
            }
            r
        },
    }
}

} // verus!

verus! {

/// Prints `let f (x: int) : int requires { .. } = e`, the definition of a
/// function.
pub(crate) fn pp_let_fun(
    ctx: &PrintCtx,
    attr: bool,
    doc: &mut Doc,
    loc: Position,
    id: &Ident,
    g: bool,
    k: RsKind,
    bs: &Vec<Binder>,
    t: &Option<Pty>,
    p: &Pattern,
    m: &Mask,
    s: &Spec,
    body: &Expr,
)
    requires
        wf_let_fun(*ctx, bs@, *t, *p, *m, *s),
        wf_expr(*ctx, *body),
    ensures
        final(doc)@ == old(doc)@ + let_fun_layout(
            *ctx,
            attr,
            loc,
            *id,
            g,
            k,
            bs@,
            *t,
            *p,
            *m,
            *s,
            *body,
        ),
    decreases body, 5nat,
{
    let mut v = doc_of("let ");
    pp_ghost_kw(&mut v, g);
    v.atom("partial ");
    pp_kind(&mut v, k);
    pp_id(ctx, attr, &mut v, id);
    let ghost head = v@;
    proof {
        assert(head =~= at("let "@) + ghost_layout(g) + partial_layout(s.partial) + kind_layout(k)
            + ident(*ctx, attr, *id));
    }
    if bs.len() == 0 && t.is_none() && is_visible(m) && is_wild(p) {
        v.atom(" = ");
        pp_maybe_marker(ctx, &mut v, loc);
        pp_maybe_marker(ctx, &mut v, p.loc);
        v.atom("begin");
        v.space();
        pp_spec(ctx, attr, &mut v, p, s, &PreMode::All, false);
        v.space();
        pp_expr_marked(ctx, attr, &mut v, body);
        let mut h = new_doc();
        h.boxed(BoxKind::V, 2, v);
        h.space();
        h.atom("end");
        doc.boxed(BoxKind::Hv, 0, h);
    } else {
        pp_binders(ctx, attr, &mut v, bs);
        pp_opt_result(ctx, attr, &mut v, t, p, m);
        pp_maybe_marker(ctx, &mut v, loc);
        pp_spec(ctx, attr, &mut v, p, s, &PreMode::All, false);
        let mut w = doc_of("= ");
        pp_expr_marked(ctx, attr, &mut w, body);
        let mut h = new_doc();
        h.boxed(BoxKind::V, 2, v);
        h.newline();
        h.boxed(BoxKind::V, 2, w);
        doc.boxed(BoxKind::S, 0, h);
    }
}

fn pp_fun(
    ctx: &PrintCtx,
    attr: bool,
    doc: &mut Doc,
    bs: &Vec<Binder>,
    t: &Option<Pty>,
    p: &Pattern,
    m: &Mask,
    s: &Spec,
    body: &Expr,
)
    requires
        wf_let_fun(*ctx, bs@, *t, *p, *m, *s),
        wf_expr(*ctx, *body),
    ensures
        final(doc)@ == old(doc)@ + fun_layout(*ctx, attr, bs@, *t, *p, *m, *s, *body),
    decreases body, 5nat,
{
    if bs.len() == 0 && t.is_none() && is_visible(m) && is_wild(p) {
        let mut v = new_doc();
        pp_maybe_marker(ctx, &mut v, p.loc);
        proof {
            assert(v@ =~= maybe_marker(*ctx, p.loc));
        }
        v.atom("begin");
        v.space();
        pp_spec(ctx, attr, &mut v, p, s, &PreMode::All, s.partial);
        pp_expr_marked(ctx, attr, &mut v, body);
        let mut h = new_doc();
        h.boxed(BoxKind::V, 2, v);
        h.space();
        h.atom("end");
        doc.boxed(BoxKind::Hv, 0, h);
    } else {
        let mut h = doc_of("fun ");
        pp_binders(ctx, attr, &mut h, bs);
        pp_opt_result(ctx, attr, &mut h, t, p, m);
        pp_spec(ctx, attr, &mut h, p, s, &PreMode::All, s.partial);
        h.atom(" ->");
        h.space();
        let mut b = new_doc();
        pp_expr_marked(ctx, attr, &mut b, body);
        proof {
            assert(b@ =~= expr_marked(*ctx, attr, *body));
        }
        h.boxed(BoxKind::S, 0, b);
        doc.boxed(BoxKind::Hv, 2, h);
    }
}

/// Prints `let x = e`, or `let ref x = e`.
pub(crate) fn pp_elet(ctx: &PrintCtx, attr: bool, doc: &mut Doc, id: &Ident, g: bool, k: RsKind, e: &Expr)
    requires
        wf_expr(*ctx, *e),
    ensures
        final(doc)@ == old(doc)@ + elet_layout(*ctx, attr, *id, g, k, *e),
    decreases e, 5nat,
{
    let by_ref = match &e.desc {
        ExprDesc::Apply(a, _) => match &a.desc {
            ExprDesc::Ref => true,
            _ => false,
        },
        _ => false,
    };
    if by_ref && has_ref_attr_exec(id) {
        match &e.desc {
            ExprDesc::Apply(_, x) => {
                let mut h = doc_of("let ");
                pp_ghost_kw(&mut h, g);
                h.atom("ref ");
                pp_kind(&mut h, k);
                pp_id_rm(ctx, attr, &mut h, id, Some("mlw:reference_var"));
                h.atom(" =");
                h.space();
                pp_maybe_marker(ctx, &mut h, e.loc);
                pp_expr_marked(ctx, attr, &mut h, x);
                doc.boxed(BoxKind::Hv, 2, h);
            },
            _ => {},
        }
    } else {
        let mut h = doc_of("let ");
        pp_ghost_kw(&mut h, g);
        pp_kind(&mut h, k);
        pp_id(ctx, attr, &mut h, id);
        h.atom(" =");
        h.space();
        pp_expr_marked(ctx, attr, &mut h, e);
        doc.boxed(BoxKind::Hv, 2, h);
    }
}

/// Prints `val f (x: int) : int requires { .. }`, or `let x = any t ..`, the
/// declaration of an abstract value.
pub(crate) fn pp_let_any(
    ctx: &PrintCtx,
    attr: bool,
    doc: &mut Doc,
    loc: Position,
    id: &Ident,
    g: bool,
    k: RsKind,
    ps: &Vec<Param>,
    k2: RsKind,
    t: &Option<Pty>,
    p: &Pattern,
    m: &Mask,
    s: &Spec,
)
    requires
        wf_let_any(*ctx, ps@, k2, *t, *p, *m, *s),
    ensures
        final(doc)@ == old(doc)@ + let_any_layout(
            *ctx,
            attr,
            loc,
            *id,
            g,
            k,
            ps@,
            k2,
            *t,
            *p,
            *m,
            *s,
        ),
{
    proof {
        reveal_strlit("");
    }
    if !is_non_pure(k2) {
        pp_unsupported(doc, "LET-ANY kind<>RKnone");
        return ;
    }
    let witness = t.is_some() && is_wild(p) && is_visible(m) && s.pre.len() > 0
        && is_witness_existence_exec(&s.pre[s.pre.len() - 1]);
    if witness {
        let mut a = doc_of("let ");
        pp_maybe_marker(ctx, &mut a, loc);
        pp_ghost_kw(&mut a, g);
        a.atom("partial ");
        pp_kind(&mut a, k);
        pp_id(ctx, attr, &mut a, id);
        pp_params(ctx, attr, &mut a, ps, "");
        a.space();
        let mut b = doc_of("any ");
        match t {
            Some(u) => pp_pty_parens(ctx, attr, &mut b, u),
            None => {},
        }
        b.atom(" ");
        pp_spec(ctx, attr, &mut b, p, s, &PreMode::DropLast, s.partial);
        let mut h = new_doc();
        h.boxed(BoxKind::Hv, 2, a);
        h.atom("=");
        h.space();
        h.boxed(BoxKind::Hv, 2, b);
        doc.boxed(BoxKind::Hv, 0, h);
    } else {
        let mut v = doc_of("val ");
        pp_maybe_marker(ctx, &mut v, loc);
        pp_ghost_kw(&mut v, g);
        v.atom("partial ");
        pp_kind(&mut v, k);
        pp_id(ctx, attr, &mut v, id);
        pp_params(ctx, attr, &mut v, ps, "");
        pp_opt_result(ctx, attr, &mut v, t, p, m);
        pp_spec(ctx, attr, &mut v, p, s, &PreMode::All, false);
        doc.boxed(BoxKind::V, 2, v);
    }
}

/// Prints an expression, with the marker's message before it if it is at the
/// expression's location.
pub fn pp_expr(ctx: &PrintCtx, attr: bool, doc: &mut Doc, e: &Expr)
    requires
        wf_expr(*ctx, *e),
    ensures
        final(doc)@ == old(doc)@ + expr_marked(*ctx, attr, *e),
{
    pp_expr_marked(ctx, attr, doc, e);
}

/// Prints an expression, in parentheses unless it is closed.
pub fn pp_expr_closed(ctx: &PrintCtx, attr: bool, doc: &mut Doc, e: &Expr)
    requires
        wf_expr(*ctx, *e),
    ensures
        final(doc)@ == old(doc)@ + expr_closed(*ctx, attr, *e),
{
    pp_expr_parens(ctx, attr, doc, e);
}

} // verus!

verus! {

// ------------------------------------------------------ function literals

pub(crate) open spec fn deref_ids(s: Seq<&Ident>) -> Seq<Ident> {
    s.map_values(|r: &Ident| *r)
}

proof fn lemma_efl_lens(c: PrintCtx, attr: bool, e: Expr)
    ensures
        efl_ids(e).len() == efl_vals(c, attr, e).len(),
    decreases e,
{
    match e.desc {
        ExprDesc::Let(_, false, RsKind::NonPure, _, b) => lemma_efl_lens(c, attr, *b),
        _ => {},
    }
}

fn pp_efl_collect<'a>(
    ctx: &PrintCtx,
    attr: bool,
    e: &'a Expr,
    ids: &mut Vec<&'a Ident>,
    vals: &mut Vec<Doc>,
) -> (r: &'a Expr)
    requires
        wf_efl_vals(*ctx, *e),
    ensures
        deref_ids(final(ids)@) == deref_ids(old(ids)@) + efl_ids(*e),
        views(final(vals)@) == views(old(vals)@) + efl_vals(*ctx, attr, *e),
        *r == efl_fun(*e),
    decreases e, 4nat,
{
    match &e.desc {
        ExprDesc::Let(id, g, k, a, b) => {
            if !*g && is_non_pure(*k) {
                let ghost i0 = deref_ids(ids@);
                let ghost v0 = views(vals@);
                ids.push(id);
                let mut d = new_doc();
                pp_expr_marked(ctx, attr, &mut d, a);
                vals.push(d);
                proof {
                    assert(deref_ids(ids@) =~= i0.push(*id));
                    assert(views(vals@) =~= v0.push(d@));
                    assert(d@ =~= expr_marked(*ctx, attr, **a));
                }
                let ghost i1 = deref_ids(ids@);
                let ghost v1 = views(vals@);
                let r = pp_efl_collect(ctx, attr, b, ids, vals);
                proof {
                    assert(deref_ids(ids@) =~= i0 + efl_ids(*e));
                    assert(views(vals@) =~= v0 + efl_vals(*ctx, attr, *e));
                }
                r
            } else {
                proof {
                    assert(deref_ids(ids@) =~= deref_ids(ids@) + efl_ids(*e));
                    assert(views(vals@) =~= views(vals@) + efl_vals(*ctx, attr, *e));
                }
                e
            }
        },
        _ => {
            proof {
                assert(deref_ids(ids@) =~= deref_ids(ids@) + efl_ids(*e));
                assert(views(vals@) =~= views(vals@) + efl_vals(*ctx, attr, *e));
            }
            e
        },
    }
}

pub(crate) fn single_ident_exec(e: &Expr) -> (r: Option<&Ident>)
    ensures
        match single_ident(*e) {
            Some(id) => r matches Some(x) && *x == id,
            None => r is None,
        },
{
    match &e.desc {
        ExprDesc::Ident(q) => if q.0.len() == 1 {
            Some(&q.0[0])
        } else {
            None
        },
        _ => None,
    }
}

pub(crate) fn efl_case_exec<'a>(var: &Ident, e: &'a Expr, ids: &Vec<&Ident>, n: usize) -> (r: Option<&'a Expr>)
    requires
        n <= ids@.len(),
    ensures
        match efl_case(*var, *e, deref_ids(ids@).take(n as int)) {
            Some(rest) => r matches Some(x) && *x == rest,
            None => r is None,
        },
{
    let ghost l = deref_ids(ids@).take(n as int);
    match &e.desc {
        ExprDesc::If(x, v2, rest) => match &x.desc {
            ExprDesc::Infix(v, _, k) => {
                let sv = single_ident_exec(v);
                let sk = single_ident_exec(k);
                let sv2 = single_ident_exec(v2);
                match (sv, sk, sv2) {
                    (Some(a), Some(b), Some(c)) => {
                        if n >= 2 && same_ident_exec(var, a) && same_ident_exec(b, ids[n - 2])
                            && same_ident_exec(c, ids[n - 1]) {
                            proof {
                                assert(l[n - 2] == *ids@[n - 2]);
                                assert(l[n - 1] == *ids@[n - 1]);
                            }
                            Some(&**rest)
                        } else {
                            proof {
                                if n >= 2 {
                                    assert(l[n - 2] == *ids@[n - 2]);
                                    assert(l[n - 1] == *ids@[n - 1]);
                                }
                            }
                            None
                        }
                    },
                    _ => None,
                }
            },
            _ => None,
        },
        _ => None,
    }
}

fn pp_efl_elems(doc: &mut Doc, var: &Ident, e: &Expr, ids: &Vec<&Ident>, n: usize, vals: Vec<Doc>)
    requires
        n <= ids@.len(),
        vals@.len() == n,
        wf_efl_elems(*var, *e, deref_ids(ids@).take(n as int)),
    ensures
        final(doc)@ == old(doc)@ + efl_elems(*var, *e, deref_ids(ids@).take(n as int), views(vals@)),
    decreases e,
{
    let ghost l = deref_ids(ids@).take(n as int);
    let ghost vs = views(vals@);
    match efl_case_exec(var, e, ids, n) {
        Some(rest) => {
            let mut vals = vals;
            let v1 = vals.pop().unwrap();
            let v0 = vals.pop().unwrap();
            proof {
                assert(v1@ == vs[n - 1]);
                assert(v0@ == vs[n - 2]);
                assert(views(vals@) =~= vs.take(n - 2));
                assert(deref_ids(ids@).take(n - 2) =~= l.take(n - 2));
            }
            doc.extend(v0);
            doc.atom(" => ");
            doc.extend(v1);
            doc.atom(";");
            match &e.desc {
                ExprDesc::If(_, _, r) => {
                    pp_efl_elems(doc, var, r, ids, n - 2, vals);
                },
                _ => {},
            }
        },
        None => {
            if n == 1 {
                let mut vals = vals;
                let v = vals.pop().unwrap();
                doc.atom("_ => ");
                doc.extend(v);
            } else {
                assert(doc@ =~= doc@ + Seq::<Layout>::empty());
            }
        },
    }
}

fn pp_e_funlit(ctx: &PrintCtx, attr: bool, doc: &mut Doc, x: &Expr)
    requires
        wf_e_funlit(*ctx, *x),
    ensures
        final(doc)@ == old(doc)@ + e_funlit(*ctx, attr, *x),
    decreases x, 5nat,
{
    let mut ids: Vec<&Ident> = Vec::new();
    let mut vals: Vec<Doc> = Vec::new();
    proof {
        assert(deref_ids(ids@) =~= Seq::<Ident>::empty());
        assert(views(vals@) =~= Seq::<Seq<Layout>>::empty());
    }
    let f = pp_efl_collect(ctx, attr, x, &mut ids, &mut vals);
    proof {
        lemma_efl_lens(*ctx, attr, *x);
        assert(deref_ids(ids@) =~= efl_ids(*x));
        assert(views(vals@) =~= efl_vals(*ctx, attr, *x));
        assert(deref_ids(ids@).take(ids@.len() as int) =~= efl_ids(*x));
    }
    let mut d = doc_of("[|");
    match &f.desc {
        ExprDesc::Fun(bs, _, _, _, _, body) => {
            if bs.len() == 1 {
                match &bs[0].1 {
                    Some(var) => {
                        let n = ids.len();
                        pp_efl_elems(&mut d, var, body, &ids, n, vals);
                    },
                    None => {},
                }
            }
        },
        _ => {},
    }
    d.atom("|]");
    doc.extend(d);
}

} // verus!
