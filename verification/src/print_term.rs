//! The printer of terms, binders and match branches.

use vstd::prelude::*;

use crate::constant::print_def;
use crate::doc::{at, views, BoxKind, Doc, Layout};
use crate::dterm::{Dbinop, Dquant};
use crate::expr::RsKind;
use crate::mlw_printer::{
    app_shape_of, arg_is_marked, doc_of, has_marker, lemma_app_shape_arity, new_doc, pp_app,
    pp_attr_, pp_id, pp_id_rm, pp_maybe_marked, pp_maybe_marker, pp_parens_unless,
    pp_pat_marked, pp_pty_parens, pp_pty_raw, pp_qualid, pp_scope_parts, pp_tuple_parts,
    space_doc, PrintCtx, Shape,
};
use crate::mlw_spec::{
    attr_layout, cast_layout, ghost_layout, ident, if_layout, infix_op, innfix_layout,
    is_infix_ident, kind_layout, maybe_marker, not_layout, pat_marked, pty_closed, pty_raw,
    qualid, ref_split, scope_layout, tuple_layout, wf_pat, wf_pty, wf_pty_ref,
};
use crate::ptree::{Attr, Binder, Ident, Pattern, Pty, Qualid, Term, TermDesc};
use crate::term_spec::{
    binder_layout, binder_ref, binders_layout, binders_parts, binop_text, branch_layout,
    comma_binder_layout, comma_binders_layout, comma_binders_parts, infix_step, is_any_function,
    is_funlit_attr, let_layout, match_layout, opt_id_layout, quant_binders, quant_keyword, quant_sep,
    record_layout, same_ident, t_funlit, tapply_parts, tbinop_tail, tbranches, term_closed,
    term_fields, term_is_closed, term_marked, term_raw, terms_args, terms_closed, terms_marked,
    tfunlit_elems, tfunlit_key, tinfix_tail, trigger_parts, triggers_layout, update_layout,
    wf_binder, wf_binders, wf_t_funlit, wf_tbranches, wf_term, wf_term_fields, wf_terms,
    wf_tfunlit_elems, wf_triggers,
};
use crate::text;

verus! {

// ------------------------------------------------------------- identities

fn same_attr_exec(a: &Attr, b: &Attr) -> (r: bool)
    ensures
        r == match (*a, *b) {
            (Attr::Str(x), Attr::Str(y)) => x.text() == y.text(),
            (Attr::Pos(x), Attr::Pos(y)) => x == y,
            _ => false,
        },
{
    match (a, b) {
        (Attr::Str(x), Attr::Str(y)) => text::str_eq(x.as_str(), y.as_str()),
        (Attr::Pos(x), Attr::Pos(y)) => *x == *y,
        _ => false,
    }
}

/// Whether two identifiers are the same: same name, attributes and location.
pub fn same_ident_exec(a: &Ident, b: &Ident) -> (r: bool)
    ensures
        r == same_ident(*a, *b),
{
    if !text::str_eq(a.str.as_str(), b.str.as_str()) || a.ats.len() != b.ats.len() || a.loc
        != b.loc {
        return false;
    }
    let mut i: usize = 0;
    while i < a.ats.len()
        invariant
            i <= a.ats@.len(),
            a.ats@.len() == b.ats@.len(),
            forall|j: int|
                0 <= j < i ==> match (#[trigger] a.ats@[j], b.ats@[j]) {
                    (Attr::Str(x), Attr::Str(y)) => x.text() == y.text(),
                    (Attr::Pos(x), Attr::Pos(y)) => x == y,
                    _ => false,
                },
        decreases a.ats@.len() - i,
    {
        if !same_attr_exec(&a.ats[i], &b.ats[i]) {
            return false;
        }
        i += 1;
    }
    true
}

// ------------------------------------------------------------ binders

fn ref_prefix(opty: &Option<Pty>) -> (r: (&'static str, Option<&Pty>))
    ensures
        r.0@ == binder_ref(*opty),
        match *opty {
            Some(t) => r.1 matches Some(u) && *u == ref_split(t).1,
            None => r.1 is None,
        },
{
    proof {
        reveal_strlit("ref ");
        reveal_strlit("");
    }
    match opty {
        Some(Pty::Ref(ps)) => if ps.len() == 1 {
            ("ref ", Some(&ps[0]))
        } else {
            ("", opty.as_ref())
        },
        Some(t) => ("", Some(t)),
        None => ("", None),
    }
}

fn pp_opt_id(ctx: &PrintCtx, attr: bool, doc: &mut Doc, oid: &Option<Ident>, rm: Option<&str>)
    ensures
        final(doc)@ == old(doc)@ + opt_id_layout(*ctx, attr, *oid, crate::mlw_printer::opt_view(rm)),
{
    match oid {
        Some(id) => pp_id_rm(ctx, attr, doc, id, rm),
        None => doc.atom("_"),
    }
}

fn pp_binder_pty(ctx: &PrintCtx, attr: bool, doc: &mut Doc, t: Option<&Pty>)
    requires
        t matches Some(u) ==> wf_pty(*u),
    ensures
        final(doc)@ == old(doc)@ + match t {
            Some(u) => at(" : "@) + pty_raw(*ctx, attr, *u),
            None => Seq::<Layout>::empty(),
        },
{
    match t {
        Some(u) => {
            doc.atom(" : ");
            pp_pty_raw(ctx, attr, doc, u);
        },
        None => {
            assert(doc@ =~= doc@ + Seq::<Layout>::empty());
        },
    }
}

fn pp_ghost(doc: &mut Doc, g: bool)
    ensures
        final(doc)@ == old(doc)@ + ghost_layout(g),
{
    if g {
        doc.atom("ghost ");
    } else {
        assert(doc@ =~= doc@ + ghost_layout(g));
    }
}

/// Prints a binder, as in `let f (x: int) (ghost y) _ = ...`.
pub fn pp_binder(ctx: &PrintCtx, attr: bool, doc: &mut Doc, b: &Binder)
    requires
        wf_binder(*b),
    ensures
        final(doc)@ == old(doc)@ + binder_layout(*ctx, attr, *b),
{
    let (r, t) = ref_prefix(&b.3);
    let mut d = new_doc();
    pp_maybe_marker(ctx, &mut d, b.0);
    proof {
        assert(d@ =~= maybe_marker(*ctx, b.0));
    }
    if b.2 || b.3.is_some() {
        d.atom("(");
        pp_ghost(&mut d, b.2);
        d.atom(r);
        pp_opt_id(ctx, attr, &mut d, &b.1, Some("mlw:reference_var"));
        pp_binder_pty(ctx, attr, &mut d, t);
        d.atom(")");
    } else {
        pp_opt_id(ctx, attr, &mut d, &b.1, None);
    }
    doc.extend(d);
}

/// Prints a binder of a quantifier, as in `forall x: int, ghost y.`.
pub fn pp_comma_binder(ctx: &PrintCtx, attr: bool, doc: &mut Doc, b: &Binder)
    requires
        wf_binder(*b),
    ensures
        final(doc)@ == old(doc)@ + comma_binder_layout(*ctx, attr, *b),
{
    let (r, t) = ref_prefix(&b.3);
    let mut d = new_doc();
    pp_maybe_marker(ctx, &mut d, b.0);
    proof {
        assert(d@ =~= maybe_marker(*ctx, b.0));
    }
    pp_ghost(&mut d, b.2);
    d.atom(r);
    pp_opt_id(ctx, attr, &mut d, &b.1, None);
    pp_binder_pty(ctx, attr, &mut d, t);
    doc.extend(d);
}

/// Prints binders, each preceded by a space.
pub fn pp_binders(ctx: &PrintCtx, attr: bool, doc: &mut Doc, bs: &Vec<Binder>)
    requires
        wf_binders(bs@),
    ensures
        final(doc)@ == old(doc)@ + binders_layout(*ctx, attr, bs@),
{
    let mut parts: Vec<Doc> = Vec::new();
    let mut i: usize = 0;
    while i < bs.len()
        invariant
            i <= bs@.len(),
            wf_binders(bs@),
            views(parts@) == binders_parts(*ctx, attr, bs@.take(i as int)),
        decreases bs@.len() - i,
    {
        let mut d = new_doc();
        pp_binder(ctx, attr, &mut d, &bs[i]);
        let ghost old_parts = parts@;
        parts.push(d);
        proof {
            assert(bs@.take(i + 1).drop_last() =~= bs@.take(i as int));
            assert(d@ =~= binder_layout(*ctx, attr, bs@[i as int]));
            assert(views(parts@) =~= views(old_parts).push(d@));
        }
        i += 1;
    }
    assert(bs@.take(i as int) =~= bs@);
    let e = new_doc();
    doc.opt_list_parts(parts, &doc_of(" "), &e, &e, &e, &e);
}

/// Prints binders of a quantifier, after a space and separated by commas.
pub fn pp_comma_binders(ctx: &PrintCtx, attr: bool, doc: &mut Doc, bs: &Vec<Binder>)
    requires
        wf_binders(bs@),
    ensures
        final(doc)@ == old(doc)@ + comma_binders_layout(*ctx, attr, bs@),
{
    let mut parts: Vec<Doc> = Vec::new();
    let mut i: usize = 0;
    while i < bs.len()
        invariant
            i <= bs@.len(),
            wf_binders(bs@),
            views(parts@) == comma_binders_parts(*ctx, attr, bs@.take(i as int)),
        decreases bs@.len() - i,
    {
        let mut d = new_doc();
        pp_comma_binder(ctx, attr, &mut d, &bs[i]);
        let ghost old_parts = parts@;
        parts.push(d);
        proof {
            assert(bs@.take(i + 1).drop_last() =~= bs@.take(i as int));
            assert(d@ =~= comma_binder_layout(*ctx, attr, bs@[i as int]));
            assert(views(parts@) =~= views(old_parts).push(d@));
        }
        i += 1;
    }
    assert(bs@.take(i as int) =~= bs@);
    let e = new_doc();
    doc.opt_list_parts(parts, &doc_of(" "), &e, &doc_of(", "), &e, &e);
}

// ------------------------------------------------------ shared layouts

/// Prints a `match` from its laid out scrutinee and branches.
pub(crate) fn pp_match_parts(doc: &mut Doc, x: Doc, cases: Vec<Doc>, xcases: Vec<Doc>)
    ensures
        final(doc)@ == old(doc)@ + match_layout(x@, views(cases@), views(xcases@)),
{
    let mut head = doc_of("match ");
    head.extend(x);
    head.atom(" with");
    let mut inner = new_doc();
    inner.boxed(BoxKind::Hv, 2, head);
    proof {
        assert(inner@ =~= crate::mlw_spec::hv(2, at("match "@) + x@ + at(" with"@)));
    }
    let e = new_doc();
    let mut bar = space_doc();
    bar.atom("| ");
    inner.opt_list_parts(cases, &bar, &e, &bar, &e, &e);
    let mut xbar = space_doc();
    xbar.atom("| exception ");
    inner.opt_list_parts(xcases, &xbar, &e, &xbar, &e, &e);
    inner.space();
    inner.atom("end");
    doc.boxed(BoxKind::V, 0, inner);
}

pub(crate) fn pp_branch_parts(p: Doc, x: Doc) -> (d: Doc)
    ensures
        d@ == branch_layout(p@, x@),
{
    let mut inner = p;
    inner.atom(" ->");
    inner.space();
    inner.extend(x);
    let mut d = new_doc();
    d.boxed(BoxKind::Hv, 2, inner);
    assert(d@ =~= branch_layout(p@, x@));
    d
}

pub(crate) fn pp_record_parts(doc: &mut Doc, fs: Vec<Doc>)
    ensures
        final(doc)@ == old(doc)@ + record_layout(views(fs@)),
{
    let mut h = doc_of("{ ");
    let mut sep = doc_of(" ;");
    sep.space();
    h.join_parts(fs, &sep);
    let mut inner = new_doc();
    inner.boxed(BoxKind::Hv, 2, h);
    inner.atom(" }");
    proof {
        assert(inner@ =~= crate::mlw_spec::hv(2, at("{ "@) + crate::doc::join(views(fs@), at(" ;"@) + crate::doc::sp())) + at(" }"@));
    }
    doc.boxed(BoxKind::S, 0, inner);
}

pub(crate) fn pp_update_parts(doc: &mut Doc, x: Doc, fs: Vec<Doc>)
    ensures
        final(doc)@ == old(doc)@ + update_layout(x@, views(fs@)),
{
    let mut h = doc_of("{ ");
    h.extend(x);
    h.atom(" with");
    h.space();
    let mut sep = doc_of(" ;");
    sep.space();
    h.join_parts(fs, &sep);
    h.atom(" }");
    doc.boxed(BoxKind::Hv, 2, h);
}

pub(crate) fn pp_field_parts(q: Doc, x: Doc) -> (d: Doc)
    ensures
        d@ == crate::mlw_spec::field_layout(q@, x@),
{
    let mut inner = q;
    inner.atom(" =");
    inner.space();
    inner.extend(x);
    let mut d = new_doc();
    d.boxed(BoxKind::Hv, 2, inner);
    assert(d@ =~= crate::mlw_spec::field_layout(q@, x@));
    d
}

pub(crate) fn pp_if_parts(doc: &mut Doc, x1: Doc, x2: Doc, x3: Doc)
    ensures
        final(doc)@ == old(doc)@ + if_layout(x1@, x2@, x3@),
{
    let mut a = doc_of("if ");
    a.extend(x1);
    a.atom(" then");
    a.space();
    a.extend(x2);
    let mut b = doc_of("else");
    b.space();
    b.extend(x3);
    let mut inner = new_doc();
    inner.boxed(BoxKind::Hv, 2, a);
    inner.space();
    inner.boxed(BoxKind::Hv, 2, b);
    proof {
        assert(inner@ =~= crate::mlw_spec::hv(2, at("if "@) + x1@ + at(" then"@) + crate::doc::sp() + x2@) + crate::doc::sp() + crate::mlw_spec::hv(2, at("else"@) + crate::doc::sp() + x3@));
    }
    doc.boxed(BoxKind::V, 0, inner);
}

pub(crate) fn pp_cast_parts(doc: &mut Doc, x: Doc, ty: Doc)
    ensures
        final(doc)@ == old(doc)@ + cast_layout(x@, ty@),
{
    let mut inner = x;
    inner.atom(" :");
    inner.space();
    inner.extend(ty);
    doc.boxed(BoxKind::Hv, 2, inner);
}

pub(crate) fn pp_not_parts(doc: &mut Doc, x: Doc)
    ensures
        final(doc)@ == old(doc)@ + not_layout(x@),
{
    let mut inner = doc_of("not");
    inner.space();
    inner.extend(x);
    doc.boxed(BoxKind::H, 0, inner);
}

/// Prints `(x1 op x2)` for an infix operator, with the marker of the operator
/// before.
pub(crate) fn pp_innfix_parts(ctx: &PrintCtx, doc: &mut Doc, op: &Ident, x1: Doc, x2: Doc)
    requires
        is_infix_ident(*op),
    ensures
        final(doc)@ == old(doc)@ + innfix_layout(*ctx, *op, x1@, x2@),
{
    pp_maybe_marker(ctx, doc, op.loc);
    let s = infix_symbol(op);
    let mut inner = doc_of("(");
    inner.extend(x1);
    inner.space();
    inner.atom_string(text::concat(s.as_str(), " "));
    inner.extend(x2);
    inner.atom(")");
    doc.boxed(BoxKind::Hv, 3, inner);
}

pub(crate) fn infix_symbol(op: &Ident) -> (s: String)
    requires
        is_infix_ident(*op),
    ensures
        s@ == infix_op(*op),
{
    match crate::ident::sn_decode(op.str.as_str()) {
        crate::ident::Notation::Infix(s) => s,
        _ => String::new(),
    }
}

pub(crate) fn pp_infix_step(ctx: &PrintCtx, doc: &mut Doc, op: &Ident, x: Doc)
    requires
        is_infix_ident(*op),
    ensures
        final(doc)@ == old(doc)@ + infix_step(*ctx, *op, x@),
{
    pp_maybe_marker(ctx, doc, op.loc);
    doc.atom_string(infix_symbol(op));
    doc.space();
    doc.extend(x);
}

} // verus!

verus! {

// ------------------------------------------------------------------ terms

proof fn lemma_wf_terms_index(ts: Seq<Term>, i: int)
    requires
        wf_terms(ts),
        0 <= i < ts.len(),
    ensures
        wf_term(ts[i]),
    decreases ts.len(),
{
    if i < ts.len() - 1 {
        lemma_wf_terms_index(ts.drop_last(), i);
    }
}

proof fn lemma_wf_triggers_index(trs: Seq<Vec<Term>>, i: int)
    requires
        wf_triggers(trs),
        0 <= i < trs.len(),
    ensures
        wf_terms(trs[i]@),
    decreases trs.len(),
{
    if i < trs.len() - 1 {
        lemma_wf_triggers_index(trs.drop_last(), i);
    }
}

proof fn lemma_wf_term_fields_index(fs: Seq<(Qualid, Term)>, i: int)
    requires
        wf_term_fields(fs),
        0 <= i < fs.len(),
    ensures
        wf_term(fs[i].1),
        fs[i].0.0@.len() > 0,
    decreases fs.len(),
{
    if i < fs.len() - 1 {
        lemma_wf_term_fields_index(fs.drop_last(), i);
    }
}

proof fn lemma_wf_tbranches_index(bs: Seq<(Pattern, Term)>, i: int)
    requires
        wf_tbranches(bs),
        0 <= i < bs.len(),
    ensures
        wf_pat(bs[i].0),
        wf_term(bs[i].1),
    decreases bs.len(),
{
    if i < bs.len() - 1 {
        lemma_wf_tbranches_index(bs.drop_last(), i);
    }
}

fn term_is_closed_exec(ctx: &PrintCtx, t: &Term) -> (b: bool)
    ensures
        b == term_is_closed(*ctx, *t),
{
    match &t.desc {
        TermDesc::True | TermDesc::False | TermDesc::Const(_) | TermDesc::Ident(_)
        | TermDesc::Update(_, _) | TermDesc::Record(_) | TermDesc::Tuple(_) | TermDesc::Scope(
            _,
            _,
        ) | TermDesc::Innfix(_, _, _) | TermDesc::Binnop(_, _, _) => true,
        TermDesc::Idapp(_, l) => l.len() == 0 || has_marker(ctx, t.loc),
        _ => has_marker(ctx, t.loc),
    }
}

fn binop_str(op: Dbinop) -> (s: &'static str)
    ensures
        s@ == binop_text(op),
{
    match op {
        Dbinop::And => "/\\",
        Dbinop::AndAsym => "&&",
        Dbinop::Or => "\\/",
        Dbinop::OrAsym => "||",
        Dbinop::Implies => "->",
        Dbinop::Iff => "<->",
        Dbinop::By => "by",
        Dbinop::So => "so",
    }
}

fn quant_keyword_str(q: Dquant) -> (s: &'static str)
    ensures
        s@ == quant_keyword(q),
{
    match q {
        Dquant::Forall => "forall",
        Dquant::Exists => "exists",
        Dquant::Lambda => "fun",
    }
}

fn quant_sep_str(q: Dquant) -> (s: &'static str)
    ensures
        s@ == quant_sep(q),
{
    match q {
        Dquant::Lambda => "->",
        _ => ".",
    }
}

pub(crate) fn is_funlit_attr_exec(a: &Attr) -> (b: bool)
    ensures
        b == is_funlit_attr(*a),
{
    match a {
        Attr::Str(s) => text::str_eq(s.as_str(), "funlit"),
        Attr::Pos(_) => false,
    }
}

fn pp_term_raw(ctx: &PrintCtx, attr: bool, doc: &mut Doc, t: &Term)
    requires
        wf_term(*t),
    ensures
        final(doc)@ == old(doc)@ + term_raw(*ctx, attr, *t),
    decreases t, 1nat,
{
    match &t.desc {
        TermDesc::True | TermDesc::False | TermDesc::Const(_) | TermDesc::Ident(_)
        | TermDesc::Asref(_) | TermDesc::Idapp(_, _) | TermDesc::Apply(_, _) | TermDesc::Infix(
            _,
            _,
            _,
        ) | TermDesc::Innfix(_, _, _) => pp_term_apps(ctx, attr, doc, t),
        TermDesc::Binop(_, _, _) | TermDesc::Binnop(_, _, _) | TermDesc::Not(_) | TermDesc::If(
            _,
            _,
            _,
        ) | TermDesc::Quant(_, _, _, _) | TermDesc::Eps(_, _, _) | TermDesc::Attr(_, _) =>
            pp_term_logic(ctx, attr, doc, t),
        _ => pp_term_structs(ctx, attr, doc, t),
    }
}

fn pp_term_apps(ctx: &PrintCtx, attr: bool, doc: &mut Doc, t: &Term)
    requires
        wf_term(*t),
        t.desc is True || t.desc is False || t.desc is Const || t.desc is Ident || t.desc is Asref || t.desc is Idapp || t.desc is Apply || t.desc is Infix || t.desc is Innfix,
    ensures
        final(doc)@ == old(doc)@ + term_raw(*ctx, attr, *t),
    decreases t, 0nat,
{
    match &t.desc {
        TermDesc::True => doc.atom("true"),
        TermDesc::False => doc.atom("false"),
        TermDesc::Const(k) => print_def(doc, k),
        TermDesc::Ident(q) => pp_qualid(ctx, attr, doc, q),
        TermDesc::Asref(q) => pp_qualid(ctx, attr, doc, q),
        TermDesc::Idapp(q, ts) => {
            let sh = app_shape_of(q, ts.len());
            proof {
                lemma_app_shape_arity(q.0@, ts@.len());
            }
            let xs = pp_terms_args(ctx, attr, &sh, ts);
            pp_app(ctx, attr, doc, q, sh, xs);
        },
        TermDesc::Apply(a, b) => {
            let mut parts = pp_tapply_parts(ctx, attr, a);
            let mut d = new_doc();
            pp_term_parens(ctx, attr, &mut d, b);
            proof {
                assert(d@ =~= term_closed(*ctx, attr, **b));
            }
            let ghost p0 = views(parts@);
            parts.push(d);
            proof {
                assert(views(parts@) =~= p0.push(d@));
            }
            let mut inner = new_doc();
            inner.join_parts(parts, &space_doc());
            proof {
                assert(inner@ =~= crate::doc::join(views(parts@), crate::doc::sp()));
            }
            doc.boxed(BoxKind::Hv, 2, inner);
        },
        TermDesc::Infix(a, op, b) => {
            pp_term_parens(ctx, attr, doc, a);
            doc.space();
            pp_tinfix_tail(ctx, attr, doc, op, b);
        },
        TermDesc::Innfix(a, op, b) => {
            let mut x1 = new_doc();
            pp_term_parens(ctx, attr, &mut x1, a);
            let mut x2 = new_doc();
            pp_term_parens(ctx, attr, &mut x2, b);
            proof {
                assert(x1@ =~= term_closed(*ctx, attr, **a));
                assert(x2@ =~= term_closed(*ctx, attr, **b));
            }
            pp_innfix_parts(ctx, doc, op, x1, x2);
        },
        _ => {},
    }
}

fn pp_term_logic(ctx: &PrintCtx, attr: bool, doc: &mut Doc, t: &Term)
    requires
        wf_term(*t),
        t.desc is Binop || t.desc is Binnop || t.desc is Not || t.desc is If || t.desc is Quant || t.desc is Eps || t.desc is Attr,
    ensures
        final(doc)@ == old(doc)@ + term_raw(*ctx, attr, *t),
    decreases t, 0nat,
{
    match &t.desc {
        TermDesc::Binop(a, op, b) => {
            let mut inner = new_doc();
            pp_term_parens(ctx, attr, &mut inner, a);
            proof {
                assert(inner@ =~= term_closed(*ctx, attr, **a));
            }
            inner.space();
            pp_tbinop_tail(ctx, attr, &mut inner, *op, b);
            doc.boxed(BoxKind::Hv, 2, inner);
        },
        TermDesc::Binnop(a, op, b) => {
            let mut inner = doc_of("(");
            pp_term_parens(ctx, attr, &mut inner, a);
            inner.atom(" ");
            inner.atom(binop_str(*op));
            inner.space();
            pp_term_parens(ctx, attr, &mut inner, b);
            inner.atom(")");
            doc.boxed(BoxKind::Hv, 3, inner);
        },
        TermDesc::Not(a) => {
            let mut x = new_doc();
            pp_term_parens(ctx, attr, &mut x, a);
            proof {
                assert(x@ =~= term_closed(*ctx, attr, **a));
            }
            pp_not_parts(doc, x);
        },
        TermDesc::If(a, b, c) => {
            let mut x1 = new_doc();
            pp_term_parens(ctx, attr, &mut x1, a);
            let mut x2 = new_doc();
            pp_term_parens(ctx, attr, &mut x2, b);
            let mut x3 = new_doc();
            pp_term_parens(ctx, attr, &mut x3, c);
            proof {
                assert(x1@ =~= term_closed(*ctx, attr, **a));
                assert(x2@ =~= term_closed(*ctx, attr, **b));
                assert(x3@ =~= term_closed(*ctx, attr, **c));
            }
            pp_if_parts(doc, x1, x2, x3);
        },
        TermDesc::Quant(q, bs, trs, body) => {
            let mut h = new_doc();
            match q {
                Dquant::Lambda => pp_binders(ctx, attr, &mut h, bs),
                _ => pp_comma_binders(ctx, attr, &mut h, bs),
            }
            pp_triggers(ctx, attr, &mut h, trs);
            proof {
                assert(h@ =~= quant_binders(*ctx, attr, *q, bs@) + triggers_layout(
                    *ctx,
                    attr,
                    trs@,
                ));
            }
            let mut inner = doc_of(quant_keyword_str(*q));
            inner.boxed(BoxKind::Hv, 0, h);
            inner.atom(quant_sep_str(*q));
            inner.space();
            pp_term_marked(ctx, attr, &mut inner, body);
            doc.boxed(BoxKind::Hv, 2, inner);
        },
        TermDesc::Eps(id, ty, f) => {
            let mut inner = doc_of("epsilon ");
            pp_id(ctx, attr, &mut inner, id);
            inner.atom(":");
            pp_pty_raw(ctx, attr, &mut inner, ty);
            inner.atom(".");
            inner.space();
            pp_term_marked(ctx, attr, &mut inner, f);
            doc.boxed(BoxKind::Hv, 2, inner);
        },
        TermDesc::Attr(a, b) => {
            if is_funlit_attr_exec(a) {
                pp_t_funlit(ctx, attr, doc, b);
            } else {
                let mut inner = new_doc();
                pp_attr_(ctx, &mut inner, a);
                proof {
                    assert(inner@ =~= attr_layout(*ctx, *a));
                }
                pp_term_marked(ctx, attr, &mut inner, b);
                doc.boxed(BoxKind::S, 0, inner);
            }
        },
        _ => {},
    }
}

#[verifier::rlimit(40)]
fn pp_term_structs(ctx: &PrintCtx, attr: bool, doc: &mut Doc, t: &Term)
    requires
        wf_term(*t),
        t.desc is Let || t.desc is Case || t.desc is Cast || t.desc is Tuple || t.desc is Record || t.desc is Update || t.desc is Scope || t.desc is At,
    ensures
        final(doc)@ == old(doc)@ + term_raw(*ctx, attr, *t),
    decreases t, 0nat,
{
    match &t.desc {
        TermDesc::Let(id, a, b) => {
            let mut l = doc_of("let ");
            pp_id(ctx, attr, &mut l, id);
            l.atom(" =");
            l.space();
            pp_term_marked(ctx, attr, &mut l, a);
            let mut inner = new_doc();
            inner.boxed(BoxKind::Hv, 2, l);
            proof {
                assert(ghost_layout(false) =~= Seq::<Layout>::empty());
                assert(kind_layout(RsKind::NonPure) =~= Seq::<Layout>::empty());
                assert(inner@ =~= let_layout(
                    *ctx,
                    attr,
                    *id,
                    false,
                    RsKind::NonPure,
                    term_marked(*ctx, attr, **a),
                ));
            }
            inner.atom(" in");
            inner.space();
            pp_term_marked(ctx, attr, &mut inner, b);
            doc.boxed(BoxKind::V, 0, inner);
        },
        TermDesc::Case(x, cases) => {
            let mut d = new_doc();
            pp_term_marked(ctx, attr, &mut d, x);
            proof {
                assert(d@ =~= term_marked(*ctx, attr, **x));
            }
            let bs = pp_tbranches(ctx, attr, cases);
            let none: Vec<Doc> = Vec::new();
            proof {
                assert(views(none@) =~= Seq::<Seq<Layout>>::empty());
            }
            pp_match_parts(doc, d, bs, none);
        },
        TermDesc::Cast(x, ty) => {
            let mut d = new_doc();
            pp_term_parens(ctx, attr, &mut d, x);
            let mut e = new_doc();
            pp_pty_parens(ctx, attr, &mut e, ty);
            proof {
                assert(d@ =~= term_closed(*ctx, attr, **x));
                assert(e@ =~= pty_closed(*ctx, attr, *ty));
            }
            pp_cast_parts(doc, d, e);
        },
        TermDesc::Tuple(ts) => {
            let parts = pp_terms_closed(ctx, attr, ts);
            pp_tuple_parts(doc, parts);
        },
        TermDesc::Record(fs) => {
            let parts = pp_term_fields(ctx, attr, fs);
            pp_record_parts(doc, parts);
        },
        TermDesc::Update(x, fs) => {
            let mut d = new_doc();
            pp_term_parens(ctx, attr, &mut d, x);
            proof {
                assert(d@ =~= term_closed(*ctx, attr, **x));
            }
            let parts = pp_term_fields(ctx, attr, fs);
            pp_update_parts(doc, d, parts);
        },
        TermDesc::Scope(q, x) => {
            let mut d = new_doc();
            pp_term_marked(ctx, attr, &mut d, x);
            proof {
                assert(d@ =~= term_marked(*ctx, attr, **x));
            }
            pp_scope_parts(ctx, attr, doc, q, d);
        },
        TermDesc::At(x, id) => {
            if text::str_eq(id.str.as_str(), "Old") {
                pp_maybe_marker(ctx, doc, id.loc);
                doc.atom("old ");
                pp_term_parens(ctx, attr, doc, x);
            } else {
                pp_term_parens(ctx, attr, doc, x);
                doc.atom(" at ");
                pp_id(ctx, attr, doc, id);
            }
        },
        _ => {},
    }
}

fn pp_term_marked(ctx: &PrintCtx, attr: bool, doc: &mut Doc, t: &Term)
    requires
        wf_term(*t),
    ensures
        final(doc)@ == old(doc)@ + term_marked(*ctx, attr, *t),
    decreases t, 2nat,
{
    let mut d = new_doc();
    pp_term_raw(ctx, attr, &mut d, t);
    proof {
        assert(d@ =~= term_raw(*ctx, attr, *t));
    }
    pp_maybe_marked(ctx, doc, t.loc, d);
}

fn pp_term_parens(ctx: &PrintCtx, attr: bool, doc: &mut Doc, t: &Term)
    requires
        wf_term(*t),
    ensures
        final(doc)@ == old(doc)@ + term_closed(*ctx, attr, *t),
    decreases t, 3nat,
{
    let mut d = new_doc();
    pp_term_marked(ctx, attr, &mut d, t);
    proof {
        assert(d@ =~= term_marked(*ctx, attr, *t));
    }
    pp_parens_unless(doc, term_is_closed_exec(ctx, t), d);
}

fn pp_tapply_parts(ctx: &PrintCtx, attr: bool, t: &Term) -> (r: Vec<Doc>)
    requires
        wf_term(*t),
    ensures
        views(r@) == tapply_parts(*ctx, attr, *t),
    decreases t, 4nat,
{
    match &t.desc {
        TermDesc::Apply(a, b) => {
            let mut r = pp_tapply_parts(ctx, attr, a);
            let mut d = new_doc();
            pp_term_parens(ctx, attr, &mut d, b);
            let ghost r0 = views(r@);
            r.push(d);
            proof {
                assert(d@ =~= term_closed(*ctx, attr, **b));
                assert(views(r@) =~= r0.push(d@));
            }
            r
        },
        _ => {
            let mut d = new_doc();
            pp_term_parens(ctx, attr, &mut d, t);
            let mut r: Vec<Doc> = Vec::new();
            r.push(d);
            proof {
                assert(d@ =~= term_closed(*ctx, attr, *t));
                assert(views(r@) =~= seq![d@]);
            }
            r
        },
    }
}

fn pp_tinfix_tail(ctx: &PrintCtx, attr: bool, doc: &mut Doc, op: &Ident, t: &Term)
    requires
        wf_term(*t),
        is_infix_ident(*op),
    ensures
        final(doc)@ == old(doc)@ + tinfix_tail(*ctx, attr, *op, *t),
    decreases t, 4nat,
{
    match &t.desc {
        TermDesc::Infix(a, op2, b) => {
            let mut x = new_doc();
            pp_term_parens(ctx, attr, &mut x, a);
            proof {
                assert(x@ =~= term_closed(*ctx, attr, **a));
            }
            pp_infix_step(ctx, doc, op, x);
            doc.space();
            pp_tinfix_tail(ctx, attr, doc, op2, b);
        },
        _ => {
            let mut x = new_doc();
            pp_term_parens(ctx, attr, &mut x, t);
            proof {
                assert(x@ =~= term_closed(*ctx, attr, *t));
            }
            pp_infix_step(ctx, doc, op, x);
        },
    }
}

fn pp_tbinop_tail(ctx: &PrintCtx, attr: bool, doc: &mut Doc, op: Dbinop, t: &Term)
    requires
        wf_term(*t),
    ensures
        final(doc)@ == old(doc)@ + tbinop_tail(*ctx, attr, op, *t),
    decreases t, 4nat,
{
    match &t.desc {
        TermDesc::Binop(a, op2, b) => {
            doc.atom(binop_str(op));
            doc.space();
            pp_term_parens(ctx, attr, doc, a);
            doc.space();
            pp_tbinop_tail(ctx, attr, doc, *op2, b);
        },
        _ => {
            doc.atom(binop_str(op));
            doc.space();
            pp_term_parens(ctx, attr, doc, t);
        },
    }
}

fn pp_t_funlit(ctx: &PrintCtx, attr: bool, doc: &mut Doc, t: &Term)
    requires
        wf_t_funlit(*t),
    ensures
        final(doc)@ == old(doc)@ + t_funlit(*ctx, attr, *t),
    decreases t, 5nat,
{
    match &t.desc {
        TermDesc::Quant(_, bs, _, body) => {
            match &bs[0].1 {
                Some(var) => {
                    doc.atom("[|");
                    pp_tfunlit_elems(ctx, attr, doc, var, body);
                    doc.atom("|]");
                },
                None => {},
            }
        },
        _ => {},
    }
}

pub(crate) fn is_any_function_exec(t: &Term) -> (b: bool)
    ensures
        b == is_any_function(*t),
{
    match &t.desc {
        TermDesc::Idapp(q, _) => q.0.len() == 1 && text::str_eq(
            q.0[0].str.as_str(),
            "any function",
        ),
        _ => false,
    }
}

pub(crate) fn tfunlit_key_exec(var: &Ident, t: &Term) -> (b: bool)
    ensures
        b == tfunlit_key(*var, *t) is Some,
{
    match &t.desc {
        TermDesc::If(x, _, _) => match &x.desc {
            TermDesc::Infix(v, _, _) => match &v.desc {
                TermDesc::Ident(q) => q.0.len() == 1 && same_ident_exec(var, &q.0[0]),
                _ => false,
            },
            _ => false,
        },
        _ => false,
    }
}

fn pp_tfunlit_elems(ctx: &PrintCtx, attr: bool, doc: &mut Doc, var: &Ident, t: &Term)
    requires
        wf_tfunlit_elems(*var, *t),
    ensures
        final(doc)@ == old(doc)@ + tfunlit_elems(*ctx, attr, *var, *t),
    decreases t, 4nat,
{
    let key = tfunlit_key_exec(var, t);
    match &t.desc {
        TermDesc::If(x, t2, t3) => {
            if key {
                match &x.desc {
                    TermDesc::Infix(_, _, k) => {
                        pp_term_marked(ctx, attr, doc, k);
                        doc.atom(" => ");
                        pp_term_marked(ctx, attr, doc, t2);
                        doc.atom(";");
                        pp_tfunlit_elems(ctx, attr, doc, var, t3);
                    },
                    _ => {},
                }
            } else {
                doc.atom("_ => ");
                pp_term_marked(ctx, attr, doc, t);
            }
        },
        _ => {
            if is_any_function_exec(t) {
                assert(doc@ =~= doc@ + Seq::<Layout>::empty());
            } else {
                doc.atom("_ => ");
                pp_term_marked(ctx, attr, doc, t);
            }
        },
    }
}

fn pp_triggers(ctx: &PrintCtx, attr: bool, doc: &mut Doc, trs: &Vec<Vec<Term>>)
    requires
        wf_triggers(trs@),
    ensures
        final(doc)@ == old(doc)@ + triggers_layout(*ctx, attr, trs@),
    decreases trs, 1nat,
{
    let parts = pp_trigger_parts(ctx, attr, trs);
    let mut pre = space_doc();
    pre.atom("[");
    let mut sep = space_doc();
    sep.atom(" | ");
    let mut suf = space_doc();
    suf.atom("]");
    let e = new_doc();
    doc.opt_list_parts(parts, &pre, &e, &sep, &suf, &e);
}

fn pp_trigger_parts(ctx: &PrintCtx, attr: bool, trs: &Vec<Vec<Term>>) -> (r: Vec<Doc>)
    requires
        wf_triggers(trs@),
    ensures
        views(r@) == trigger_parts(*ctx, attr, trs@),
    decreases trs, 0nat,
{
    let mut r: Vec<Doc> = Vec::new();
    let mut i: usize = 0;
    while i < trs.len()
        invariant
            i <= trs@.len(),
            wf_triggers(trs@),
            views(r@) == trigger_parts(*ctx, attr, trs@.take(i as int)),
        decreases trs@.len() - i,
    {
        proof {
            lemma_wf_triggers_index(trs@, i as int);
            assert(trs@.take(i + 1).drop_last() =~= trs@.take(i as int));
        }
        assert(decreases_to!(trs => trs@[i as int]));
        let ts = pp_terms_marked(ctx, attr, &trs[i]);
        let mut d = new_doc();
        d.join_parts(ts, &doc_of(", "));
        let ghost old_r = r@;
        r.push(d);
        proof {
            assert(views(r@) =~= views(old_r).push(d@));
            assert(d@ =~= crate::doc::join(terms_marked(*ctx, attr, trs@[i as int]@), at(", "@)));
        }
        i += 1;
    }
    proof {
        assert(trs@.take(i as int) =~= trs@);
    }
    r
}

fn pp_terms_marked(ctx: &PrintCtx, attr: bool, ts: &Vec<Term>) -> (r: Vec<Doc>)
    requires
        wf_terms(ts@),
    ensures
        views(r@) == terms_marked(*ctx, attr, ts@),
    decreases ts, 0nat,
{
    let mut r: Vec<Doc> = Vec::new();
    let mut i: usize = 0;
    while i < ts.len()
        invariant
            i <= ts@.len(),
            wf_terms(ts@),
            views(r@) == terms_marked(*ctx, attr, ts@.take(i as int)),
        decreases ts@.len() - i,
    {
        proof {
            lemma_wf_terms_index(ts@, i as int);
            assert(ts@.take(i + 1).drop_last() =~= ts@.take(i as int));
        }
        assert(decreases_to!(ts => ts@[i as int]));
        let mut d = new_doc();
        pp_term_marked(ctx, attr, &mut d, &ts[i]);
        let ghost old_r = r@;
        r.push(d);
        proof {
            assert(views(r@) =~= views(old_r).push(d@));
            assert(d@ =~= term_marked(*ctx, attr, ts@[i as int]));
        }
        i += 1;
    }
    proof {
        assert(ts@.take(i as int) =~= ts@);
    }
    r
}

fn pp_terms_closed(ctx: &PrintCtx, attr: bool, ts: &Vec<Term>) -> (r: Vec<Doc>)
    requires
        wf_terms(ts@),
    ensures
        views(r@) == terms_closed(*ctx, attr, ts@),
    decreases ts, 0nat,
{
    let mut r: Vec<Doc> = Vec::new();
    let mut i: usize = 0;
    while i < ts.len()
        invariant
            i <= ts@.len(),
            wf_terms(ts@),
            views(r@) == terms_closed(*ctx, attr, ts@.take(i as int)),
        decreases ts@.len() - i,
    {
        proof {
            lemma_wf_terms_index(ts@, i as int);
            assert(ts@.take(i + 1).drop_last() =~= ts@.take(i as int));
        }
        assert(decreases_to!(ts => ts@[i as int]));
        let mut d = new_doc();
        pp_term_parens(ctx, attr, &mut d, &ts[i]);
        let ghost old_r = r@;
        r.push(d);
        proof {
            assert(views(r@) =~= views(old_r).push(d@));
            assert(d@ =~= term_closed(*ctx, attr, ts@[i as int]));
        }
        i += 1;
    }
    proof {
        assert(ts@.take(i as int) =~= ts@);
    }
    r
}

fn pp_terms_args(ctx: &PrintCtx, attr: bool, sh: &Shape, ts: &Vec<Term>) -> (r: Vec<Doc>)
    requires
        wf_terms(ts@),
    ensures
        views(r@) == terms_args(*ctx, attr, sh@, ts@),
        r@.len() == ts@.len(),
    decreases ts, 0nat,
{
    let mut r: Vec<Doc> = Vec::new();
    let mut i: usize = 0;
    while i < ts.len()
        invariant
            i <= ts@.len(),
            r@.len() == i,
            wf_terms(ts@),
            views(r@) == terms_args(*ctx, attr, sh@, ts@.take(i as int)),
        decreases ts@.len() - i,
    {
        proof {
            lemma_wf_terms_index(ts@, i as int);
            assert(ts@.take(i + 1).drop_last() =~= ts@.take(i as int));
        }
        assert(decreases_to!(ts => ts@[i as int]));
        let mut d = new_doc();
        if arg_is_marked(sh, i) {
            pp_term_marked(ctx, attr, &mut d, &ts[i]);
        } else {
            pp_term_parens(ctx, attr, &mut d, &ts[i]);
        }
        let ghost old_r = r@;
        r.push(d);
        proof {
            assert(views(r@) =~= views(old_r).push(d@));
            assert(d@ =~= if crate::mlw_spec::arg_marked(sh@, i as int) {
                term_marked(*ctx, attr, ts@[i as int])
            } else {
                term_closed(*ctx, attr, ts@[i as int])
            });
        }
        i += 1;
    }
    proof {
        assert(ts@.take(i as int) =~= ts@);
    }
    r
}

fn pp_term_fields(ctx: &PrintCtx, attr: bool, fs: &Vec<(Qualid, Term)>) -> (r: Vec<Doc>)
    requires
        wf_term_fields(fs@),
    ensures
        views(r@) == term_fields(*ctx, attr, fs@),
    decreases fs, 0nat,
{
    let mut r: Vec<Doc> = Vec::new();
    let mut i: usize = 0;
    while i < fs.len()
        invariant
            i <= fs@.len(),
            wf_term_fields(fs@),
            views(r@) == term_fields(*ctx, attr, fs@.take(i as int)),
        decreases fs@.len() - i,
    {
        proof {
            lemma_wf_term_fields_index(fs@, i as int);
            assert(fs@.take(i + 1).drop_last() =~= fs@.take(i as int));
        }
        assert(decreases_to!(fs => fs@[i as int]));
        let mut q = new_doc();
        pp_qualid(ctx, attr, &mut q, &fs[i].0);
        let mut x = new_doc();
        pp_term_parens(ctx, attr, &mut x, &fs[i].1);
        proof {
            assert(q@ =~= qualid(*ctx, attr, fs@[i as int].0));
            assert(x@ =~= term_closed(*ctx, attr, fs@[i as int].1));
        }
        let d = pp_field_parts(q, x);
        let ghost old_r = r@;
        r.push(d);
        proof {
            assert(views(r@) =~= views(old_r).push(d@));
        }
        i += 1;
    }
    proof {
        assert(fs@.take(i as int) =~= fs@);
    }
    r
}

fn pp_tbranches(ctx: &PrintCtx, attr: bool, bs: &Vec<(Pattern, Term)>) -> (r: Vec<Doc>)
    requires
        wf_tbranches(bs@),
    ensures
        views(r@) == tbranches(*ctx, attr, bs@),
    decreases bs, 0nat,
{
    let mut r: Vec<Doc> = Vec::new();
    let mut i: usize = 0;
    while i < bs.len()
        invariant
            i <= bs@.len(),
            wf_tbranches(bs@),
            views(r@) == tbranches(*ctx, attr, bs@.take(i as int)),
        decreases bs@.len() - i,
    {
        proof {
            lemma_wf_tbranches_index(bs@, i as int);
            assert(bs@.take(i + 1).drop_last() =~= bs@.take(i as int));
        }
        assert(decreases_to!(bs => bs@[i as int]));
        let mut p = new_doc();
        pp_pat_marked(ctx, attr, &mut p, &bs[i].0);
        let mut x = new_doc();
        pp_term_marked(ctx, attr, &mut x, &bs[i].1);
        proof {
            assert(p@ =~= pat_marked(*ctx, attr, bs@[i as int].0));
            assert(x@ =~= term_marked(*ctx, attr, bs@[i as int].1));
        }
        let d = pp_branch_parts(p, x);
        let ghost old_r = r@;
        r.push(d);
        proof {
            assert(views(r@) =~= views(old_r).push(d@));
        }
        i += 1;
    }
    proof {
        assert(bs@.take(i as int) =~= bs@);
    }
    r
}

/// Prints a term, with the marker's message before it if it is at the term's
/// location.
pub fn pp_term(ctx: &PrintCtx, attr: bool, doc: &mut Doc, t: &Term)
    requires
        wf_term(*t),
    ensures
        final(doc)@ == old(doc)@ + term_marked(*ctx, attr, *t),
{
    pp_term_marked(ctx, attr, doc, t);
}

/// Prints a term, in parentheses unless it is closed.
pub fn pp_term_closed(ctx: &PrintCtx, attr: bool, doc: &mut Doc, t: &Term)
    requires
        wf_term(*t),
    ensures
        final(doc)@ == old(doc)@ + term_closed(*ctx, attr, *t),
{
    pp_term_parens(ctx, attr, doc, t);
}

} // verus!
