//! Executable tests of the conditions under which the printers lay a tree
//! out, for callers that cannot prove them.

use vstd::prelude::*;

use crate::big_int::{
    int_value, integer_from_isize, integer_lt, integer_sub, integer_unsigned_abs_u64,
    integer_unsigned_abs_usize, RemN,
};
use crate::constant::Constant;
use crate::mlw_printer::{app_shape_of, Shape};
use crate::print_expr::{
    any_result_pat_exec, assert_hyp_str, deref_ids, efl_case_exec, is_exit_exn_exec, is_visible,
    is_wild, single_ident_exec,
};
use crate::print_term::same_ident_exec;
use crate::expr::AssertionKind;
use crate::expr_spec::{
    any_result_pat, assert_default, assert_term, efl_body, efl_case, efl_fun, efl_ids, efl_var,
    is_exit_exn, single_ident, wf_assigns, wf_e_funlit, wf_ebranches, wf_efl_elems, wf_efl_vals,
    wf_exn_branches, wf_expr, wf_expr_fields, wf_exprs, wf_fundef, wf_fundefs,
};
use crate::term_spec::same_ident;
use crate::ptree::{
    Attr, CloneSubst, Decl, Expr, ExprDesc, Fundef, IndDecl, LogicDecl, Metarg, MlwFile, TypeDecl,
    TypeDef, Visibility,
};
use crate::decl_spec::{
    is_bare_record, wf_decl, wf_decls, wf_ind_decl, wf_logic_decl, wf_metarg, wf_mlw_file, wf_subst,
    wf_substs, wf_type_decl,
};
use crate::mlw_spec::{app_shape, wf_pat, wf_pat_fields, wf_pats, wf_pty, wf_ptys, AppShape};
use crate::number::{print_real_constant, RealConstant, RealLiteralKind};
use crate::constant::print_def;
use crate::doc::Doc;
use crate::number_spec::{const_layout, real_literal_layout};
use crate::number_spec::{hex_exponent, min, real_printable, wf_const};
use crate::dterm::Dquant;
use crate::ident::{sn_decode, Notation};
use crate::mlw_spec::{is_infix_ident, wf_pty_ref};
use crate::print_term::{is_any_function_exec, is_funlit_attr_exec, tfunlit_key_exec};
use crate::expr_spec::{
    ensures_term, invariant_term, is_ensures_post, is_let_any_witness, is_witness_existence,
    remove_witness_existence,
    requires_term, wf_invariants, wf_let_any, wf_let_fun, wf_opt_result, wf_params, wf_post,
    wf_pty_mask, wf_pty_pat_mask, wf_spec, wf_variants, wf_xpost,
};
use crate::expr::RsKind;
use crate::ity::Mask;
use crate::mlw_printer::PrintCtx;
use crate::print_contract::{
    hyp_name_exec, is_ensures_exec, is_witness_existence_exec, pat_has_marker_exec,
    remove_term_attr_exec,
};
use crate::ptree::{
    Binder, Ident, Param, PatDesc, Pattern, Post, Pty, Qualid, Spec, Term, TermDesc, Xpost,
};
use crate::term_spec::{
    is_any_function, tfunlit_key, wf_binder, wf_binders, wf_t_funlit, wf_tbranches, wf_term,
    wf_term_fields, wf_terms, wf_tfunlit_elems, wf_triggers,
};

verus! {

fn fits_u64(d: &malachite::Integer) -> (b: bool)
    requires
        int_value(*d) >= 0,
    ensures
        b == (int_value(*d) <= u64::MAX),
{
    integer_unsigned_abs_u64(d).is_some()
}

fn below_usize_max(d: &malachite::Integer) -> (b: bool)
    requires
        int_value(*d) >= 0,
    ensures
        b == (int_value(*d) < usize::MAX),
{
    match integer_unsigned_abs_usize(d) {
        Some(x) => x < usize::MAX,
        None => false,
    }
}

fn integer_min(a: &malachite::Integer, b: &malachite::Integer) -> (r: malachite::Integer)
    ensures
        int_value(r) == min(int_value(*a), int_value(*b)),
{
    if integer_lt(b, a) {
        b.clone()
    } else {
        a.clone()
    }
}

/// Whether a real literal of the given kind and value exponents can be
/// printed: [`real_printable`].
pub fn is_real_printable(kind: RealLiteralKind, p2: &malachite::Integer, p5: &malachite::Integer) -> (b: bool)
    ensures
        b == real_printable(kind, int_value(*p2), int_value(*p5)),
{
    match kind {
        RealLiteralKind::Dec(k) => {
            let ki = integer_from_isize(k);
            let m = integer_min(p2, p5);
            let e = integer_min(&m, &ki);
            fits_u64(&integer_sub(p2, &e)) && fits_u64(&integer_sub(p5, &e)) && below_usize_max(
                &integer_sub(&ki, &e),
            )
        },
        RealLiteralKind::Hex(k) => {
            let ki = integer_from_isize(k);
            let four = integer_from_isize(4);
            let e = if integer_lt(p2, &ki) {
                let m = integer_sub(p2, &ki).euclidean_mod(&four);
                integer_sub(p2, &m)
            } else {
                ki.clone()
            };
            assert(int_value(e) == hex_exponent(k as int, int_value(*p2)));
            let zero = integer_from_isize(0);
            !integer_lt(p5, &zero) && fits_u64(p5) && fits_u64(&integer_sub(p2, &e))
                && below_usize_max(&integer_sub(&ki, &e))
        },
        RealLiteralKind::Unk => {
            let e = integer_min(p2, p5);
            let zero = integer_from_isize(0);
            let two = integer_from_isize(2);
            let k = if !integer_lt(&e, &zero) && !integer_lt(&two, &e) {
                zero
            } else {
                e.clone()
            };
            let e2 = integer_min(&e, &k);
            fits_u64(&integer_sub(p2, &e2)) && fits_u64(&integer_sub(p5, &e2)) && below_usize_max(
                &integer_sub(&k, &e2),
            )
        },
    }
}

/// Whether a constant can be printed: [`wf_const`].
pub fn is_wf_const(k: &Constant) -> (b: bool)
    ensures
        b == wf_const(*k),
{
    match k {
        Constant::Real(r) => is_real_printable(r.kind, &r.real.pow2, &r.real.pow5),
        _ => true,
    }
}

/// Prints a real constant if it can be printed, and says whether it did;
/// prints nothing otherwise.
pub fn print_real_constant_checked(doc: &mut Doc, r: &RealConstant) -> (printed: bool)
    ensures
        printed == real_printable(r.kind, int_value(r.real.pow2), int_value(r.real.pow5)),
        printed ==> final(doc)@ == old(doc)@ + real_literal_layout(
            r.kind,
            int_value(r.real.sig),
            int_value(r.real.pow2),
            int_value(r.real.pow5),
        ),
        !printed ==> final(doc)@ == old(doc)@,
{
    if is_real_printable(r.kind, &r.real.pow2, &r.real.pow5) {
        print_real_constant(doc, r);
        true
    } else {
        false
    }
}

/// Prints a constant with full support if it can be printed, and says
/// whether it did; prints nothing otherwise.
pub fn print_def_checked(doc: &mut Doc, x: &Constant) -> (printed: bool)
    ensures
        printed == wf_const(*x),
        printed ==> final(doc)@ == old(doc)@ + const_layout(*x),
        !printed ==> final(doc)@ == old(doc)@,
{
    if is_wf_const(x) {
        print_def(doc, x);
        true
    } else {
        false
    }
}

fn shape_is_bad(q: &Qualid, n: usize) -> (b: bool)
    requires
        q.0@.len() > 0,
    ensures
        b == (app_shape(q.0@, n as nat) is Bad),
{
    match app_shape_of(q, n) {
        Shape::Bad => true,
        _ => false,
    }
}

/// Whether the printers lay the type out: [`wf_pty`].
pub fn is_wf_pty(t: &Pty) -> (b: bool)
    ensures
        b == wf_pty(*t),
    decreases t, 1nat,
{
    match t {
        Pty::Tyvar(_) => true,
        Pty::Tyapp(q, ps) => q.0.len() > 0 && are_wf_ptys(ps),
        Pty::Tuple(ps) => are_wf_ptys(ps),
        Pty::Ref(_) => false,
        Pty::Arrow(a, b) => is_wf_pty(a) && is_wf_pty(b),
        Pty::Scope(q, p) => q.0.len() > 0 && is_wf_pty(p),
        Pty::Paren(p) => is_wf_pty(p),
        Pty::Pure(p) => is_wf_pty(p),
    }
}

fn are_wf_ptys(ps: &Vec<Pty>) -> (b: bool)
    ensures
        b == wf_ptys(ps@),
    decreases ps, 0nat,
{
    let mut i: usize = 0;
    while i < ps.len()
        invariant
            i <= ps@.len(),
            wf_ptys(ps@.take(i as int)),
        decreases ps@.len() - i,
    {
        assert(decreases_to!(ps => ps@[i as int]));
        assert(ps@.take(i + 1).drop_last() =~= ps@.take(i as int));
        if !is_wf_pty(&ps[i]) {
            proof {
                lemma_wf_ptys_prefix(ps@, i + 1);
            }
            return false;
        }
        i += 1;
    }
    assert(ps@.take(i as int) =~= ps@);
    true
}

proof fn lemma_wf_ptys_prefix(ps: Seq<Pty>, n: int)
    requires
        0 < n <= ps.len(),
        !wf_pty(ps[n - 1]),
    ensures
        !wf_ptys(ps),
    decreases ps.len(),
{
    if n < ps.len() {
        lemma_wf_ptys_prefix(ps.drop_last(), n);
    }
}

/// Whether the printers lay the pattern out: [`wf_pat`].
pub fn is_wf_pat(p: &Pattern) -> (b: bool)
    ensures
        b == wf_pat(*p),
    decreases p, 1nat,
{
    match &p.desc {
        PatDesc::Wild => true,
        PatDesc::Var(_) => true,
        PatDesc::App(q, ps) => q.0.len() > 0 && !shape_is_bad(q, ps.len()) && are_wf_pats(ps),
        PatDesc::Rec(fs) => are_wf_pat_fields(fs),
        PatDesc::Tuple(ps) => are_wf_pats(ps),
        PatDesc::As(q, _, _) => is_wf_pat(q),
        PatDesc::Or(a, b) => is_wf_pat(a) && is_wf_pat(b),
        PatDesc::Cast(q, t) => is_wf_pat(q) && is_wf_pty(t),
        PatDesc::Scope(q, x) => q.0.len() > 0 && is_wf_pat(x),
        PatDesc::Paren(x) => is_wf_pat(x),
        PatDesc::GhostPat(x) => is_wf_pat(x),
    }
}

proof fn lemma_wf_pats_prefix(ps: Seq<Pattern>, n: int)
    requires
        0 < n <= ps.len(),
        !wf_pat(ps[n - 1]),
    ensures
        !wf_pats(ps),
    decreases ps.len(),
{
    if n < ps.len() {
        lemma_wf_pats_prefix(ps.drop_last(), n);
    }
}

fn are_wf_pats(ps: &Vec<Pattern>) -> (b: bool)
    ensures
        b == wf_pats(ps@),
    decreases ps, 0nat,
{
    let mut i: usize = 0;
    while i < ps.len()
        invariant
            i <= ps@.len(),
            wf_pats(ps@.take(i as int)),
        decreases ps@.len() - i,
    {
        assert(decreases_to!(ps => ps@[i as int]));
        assert(ps@.take(i + 1).drop_last() =~= ps@.take(i as int));
        if !is_wf_pat(&ps[i]) {
            proof {
                lemma_wf_pats_prefix(ps@, i + 1);
            }
            return false;
        }
        i += 1;
    }
    assert(ps@.take(i as int) =~= ps@);
    true
}

proof fn lemma_wf_pat_fields_prefix(fs: Seq<(Qualid, Pattern)>, n: int)
    requires
        0 < n <= fs.len(),
        !(fs[n - 1].0.0@.len() > 0 && wf_pat(fs[n - 1].1)),
    ensures
        !wf_pat_fields(fs),
    decreases fs.len(),
{
    if n < fs.len() {
        lemma_wf_pat_fields_prefix(fs.drop_last(), n);
    }
}

fn are_wf_pat_fields(fs: &Vec<(Qualid, Pattern)>) -> (b: bool)
    ensures
        b == wf_pat_fields(fs@),
    decreases fs, 0nat,
{
    let mut i: usize = 0;
    while i < fs.len()
        invariant
            i <= fs@.len(),
            wf_pat_fields(fs@.take(i as int)),
        decreases fs@.len() - i,
    {
        assert(decreases_to!(fs => fs@[i as int]));
        assert(fs@.take(i + 1).drop_last() =~= fs@.take(i as int));
        if !(fs[i].0.0.len() > 0 && is_wf_pat(&fs[i].1)) {
            proof {
                lemma_wf_pat_fields_prefix(fs@, i + 1);
            }
            return false;
        }
        i += 1;
    }
    assert(fs@.take(i as int) =~= fs@);
    true
}

// ------------------------------------------------------------------ terms

fn is_infix_ident_exec(op: &Ident) -> (b: bool)
    ensures
        b == is_infix_ident(*op),
{
    match sn_decode(op.str.as_str()) {
        Notation::Infix(_) => true,
        _ => false,
    }
}

fn is_wf_pty_ref(t: &Pty) -> (b: bool)
    ensures
        b == wf_pty_ref(*t),
{
    match t {
        Pty::Ref(ps) => if ps.len() == 1 {
            is_wf_pty(&ps[0])
        } else {
            is_wf_pty(t)
        },
        _ => is_wf_pty(t),
    }
}

fn are_wf_binders(bs: &Vec<Binder>) -> (b: bool)
    ensures
        b == wf_binders(bs@),
{
    let mut i: usize = 0;
    while i < bs.len()
        invariant
            i <= bs@.len(),
            forall|j: int| 0 <= j < i ==> wf_binder(#[trigger] bs@[j]),
        decreases bs@.len() - i,
    {
        let ok = match &bs[i].3 {
            Some(t) => is_wf_pty_ref(t),
            None => true,
        };
        if !ok {
            assert(!wf_binder(bs@[i as int]));
            return false;
        }
        i += 1;
    }
    true
}

/// Whether the printers lay the term out: [`wf_term`].
pub fn is_wf_term(t: &Term) -> (b: bool)
    ensures
        b == wf_term(*t),
    decreases t, 0nat,
{
    match &t.desc {
        TermDesc::True | TermDesc::False => true,
        TermDesc::Const(k) => is_wf_const(k),
        TermDesc::Ident(q) | TermDesc::Asref(q) => q.0.len() > 0,
        TermDesc::Idapp(q, ts) => q.0.len() > 0 && !shape_is_bad(q, ts.len()) && are_wf_terms(ts),
        TermDesc::Apply(a, b) => is_wf_term(a) && is_wf_term(b),
        TermDesc::Infix(a, op, b) | TermDesc::Innfix(a, op, b) => is_infix_ident_exec(op)
            && is_wf_term(a) && is_wf_term(b),
        TermDesc::Binop(a, _, b) | TermDesc::Binnop(a, _, b) => is_wf_term(a) && is_wf_term(b),
        TermDesc::Not(a) => is_wf_term(a),
        TermDesc::If(a, b, d) => is_wf_term(a) && is_wf_term(b) && is_wf_term(d),
        TermDesc::Quant(_, bs, trs, body) => are_wf_binders(bs) && are_wf_triggers(trs)
            && is_wf_term(body),
        TermDesc::Eps(_, ty, f) => is_wf_pty(ty) && is_wf_term(f),
        TermDesc::Attr(a, b) => if is_funlit_attr_exec(a) {
            is_wf_t_funlit(b)
        } else {
            (match &b.desc {
                TermDesc::Attr(_, _) => true,
                _ => false,
            }) && is_wf_term(b)
        },
        TermDesc::Let(_, a, b) => is_wf_term(a) && is_wf_term(b),
        TermDesc::Case(x, cases) => is_wf_term(x) && are_wf_tbranches(cases),
        TermDesc::Cast(x, ty) => is_wf_term(x) && is_wf_pty(ty),
        TermDesc::Tuple(ts) => are_wf_terms(ts),
        TermDesc::Record(fs) => are_wf_term_fields(fs),
        TermDesc::Update(x, fs) => is_wf_term(x) && are_wf_term_fields(fs),
        TermDesc::Scope(q, x) => q.0.len() > 0 && is_wf_term(x),
        TermDesc::At(x, _) => is_wf_term(x),
    }
}

fn is_wf_t_funlit(t: &Term) -> (b: bool)
    ensures
        b == wf_t_funlit(*t),
    decreases t, 2nat,
{
    match &t.desc {
        TermDesc::Quant(Dquant::Lambda, bs, _, body) => if bs.len() == 1 {
            match &bs[0].1 {
                Some(var) => is_wf_tfunlit_elems(var, body),
                None => false,
            }
        } else {
            false
        },
        _ => false,
    }
}

fn is_wf_tfunlit_elems(var: &Ident, t: &Term) -> (b: bool)
    ensures
        b == wf_tfunlit_elems(*var, *t),
    decreases t, 1nat,
{
    match &t.desc {
        TermDesc::If(x, t2, t3) => if tfunlit_key_exec(var, t) {
            match &x.desc {
                TermDesc::Infix(_, _, k) => is_wf_term(k) && is_wf_term(t2)
                    && is_wf_tfunlit_elems(var, t3),
                _ => false,
            }
        } else {
            is_wf_term(t)
        },
        _ => is_any_function_exec(t) || is_wf_term(t),
    }
}

proof fn lemma_wf_terms_prefix(ts: Seq<Term>, n: int)
    requires
        0 < n <= ts.len(),
        !wf_term(ts[n - 1]),
    ensures
        !wf_terms(ts),
    decreases ts.len(),
{
    if n < ts.len() {
        lemma_wf_terms_prefix(ts.drop_last(), n);
    }
}

fn are_wf_terms(ts: &Vec<Term>) -> (b: bool)
    ensures
        b == wf_terms(ts@),
    decreases ts, 0nat,
{
    let mut i: usize = 0;
    while i < ts.len()
        invariant
            i <= ts@.len(),
            wf_terms(ts@.take(i as int)),
        decreases ts@.len() - i,
    {
        assert(decreases_to!(ts => ts@[i as int]));
        assert(ts@.take(i + 1).drop_last() =~= ts@.take(i as int));
        if !is_wf_term(&ts[i]) {
            proof {
                lemma_wf_terms_prefix(ts@, i + 1);
            }
            return false;
        }
        i += 1;
    }
    assert(ts@.take(i as int) =~= ts@);
    true
}

proof fn lemma_wf_triggers_prefix(trs: Seq<Vec<Term>>, n: int)
    requires
        0 < n <= trs.len(),
        !wf_terms(trs[n - 1]@),
    ensures
        !wf_triggers(trs),
    decreases trs.len(),
{
    if n < trs.len() {
        lemma_wf_triggers_prefix(trs.drop_last(), n);
    }
}

fn are_wf_triggers(trs: &Vec<Vec<Term>>) -> (b: bool)
    ensures
        b == wf_triggers(trs@),
    decreases trs, 0nat,
{
    let mut i: usize = 0;
    while i < trs.len()
        invariant
            i <= trs@.len(),
            wf_triggers(trs@.take(i as int)),
        decreases trs@.len() - i,
    {
        assert(decreases_to!(trs => trs@[i as int]));
        assert(trs@.take(i + 1).drop_last() =~= trs@.take(i as int));
        if !are_wf_terms(&trs[i]) {
            proof {
                lemma_wf_triggers_prefix(trs@, i + 1);
            }
            return false;
        }
        i += 1;
    }
    assert(trs@.take(i as int) =~= trs@);
    true
}

proof fn lemma_wf_term_fields_prefix(fs: Seq<(Qualid, Term)>, n: int)
    requires
        0 < n <= fs.len(),
        !(fs[n - 1].0.0@.len() > 0 && wf_term(fs[n - 1].1)),
    ensures
        !wf_term_fields(fs),
    decreases fs.len(),
{
    if n < fs.len() {
        lemma_wf_term_fields_prefix(fs.drop_last(), n);
    }
}

fn are_wf_term_fields(fs: &Vec<(Qualid, Term)>) -> (b: bool)
    ensures
        b == wf_term_fields(fs@),
    decreases fs, 0nat,
{
    let mut i: usize = 0;
    while i < fs.len()
        invariant
            i <= fs@.len(),
            wf_term_fields(fs@.take(i as int)),
        decreases fs@.len() - i,
    {
        assert(decreases_to!(fs => fs@[i as int]));
        assert(fs@.take(i + 1).drop_last() =~= fs@.take(i as int));
        if !(fs[i].0.0.len() > 0 && is_wf_term(&fs[i].1)) {
            proof {
                lemma_wf_term_fields_prefix(fs@, i + 1);
            }
            return false;
        }
        i += 1;
    }
    assert(fs@.take(i as int) =~= fs@);
    true
}

proof fn lemma_wf_tbranches_prefix(bs: Seq<(Pattern, Term)>, n: int)
    requires
        0 < n <= bs.len(),
        !(wf_pat(bs[n - 1].0) && wf_term(bs[n - 1].1)),
    ensures
        !wf_tbranches(bs),
    decreases bs.len(),
{
    if n < bs.len() {
        lemma_wf_tbranches_prefix(bs.drop_last(), n);
    }
}

fn are_wf_tbranches(bs: &Vec<(Pattern, Term)>) -> (b: bool)
    ensures
        b == wf_tbranches(bs@),
    decreases bs, 0nat,
{
    let mut i: usize = 0;
    while i < bs.len()
        invariant
            i <= bs@.len(),
            wf_tbranches(bs@.take(i as int)),
        decreases bs@.len() - i,
    {
        assert(decreases_to!(bs => bs@[i as int]));
        assert(bs@.take(i + 1).drop_last() =~= bs@.take(i as int));
        if !(is_wf_pat(&bs[i].0) && is_wf_term(&bs[i].1)) {
            proof {
                lemma_wf_tbranches_prefix(bs@, i + 1);
            }
            return false;
        }
        i += 1;
    }
    assert(bs@.take(i as int) =~= bs@);
    true
}

// -------------------------------------------------------------- contracts

fn requires_term_exec(t: &Term) -> (r: &Term)
    ensures
        *r == requires_term(*t),
{
    hyp_name_exec(remove_term_attr_exec("hyp_name:Requires", t)).2
}

fn ensures_term_exec(t: &Term) -> (r: &Term)
    ensures
        *r == ensures_term(*t),
{
    hyp_name_exec(remove_term_attr_exec("hyp_name:Ensures", t)).2
}

fn invariant_term_exec(t: &Term) -> (r: &Term)
    ensures
        *r == invariant_term(*t),
{
    remove_term_attr_exec(
        "hyp_name:LoopInvariant",
        remove_term_attr_exec("hyp_name:TypeInvariant", hyp_name_exec(t).2),
    )
}

/// Whether the first `n` preconditions print.
fn requires_ok(pre: &Vec<Term>, n: usize) -> (b: bool)
    requires
        n <= pre@.len(),
    ensures
        b == forall|i: int|
            0 <= i < pre@.take(n as int).len() ==> wf_term(
                requires_term(#[trigger] pre@.take(n as int)[i]),
            ),
{
    let ghost q = pre@.take(n as int);
    let mut i: usize = 0;
    while i < n
        invariant
            n <= pre@.len(),
            q == pre@.take(n as int),
            i <= n,
            forall|j: int| 0 <= j < i ==> wf_term(requires_term(#[trigger] q[j])),
        decreases n - i,
    {
        assert(q[i as int] == pre@[i as int]);
        if !is_wf_term(requires_term_exec(&pre[i])) {
            return false;
        }
        i += 1;
    }
    true
}

proof fn lemma_remove_witness(pre: Seq<Term>)
    ensures
        (forall|i: int|
            0 <= i < remove_witness_existence(pre).len() ==> wf_term(
                requires_term(#[trigger] remove_witness_existence(pre)[i]),
            )) <==> (forall|i: int|
            0 <= i < pre.len() && !is_witness_existence(pre[i]) ==> wf_term(
                requires_term(#[trigger] pre[i]),
            )),
    decreases pre.len(),
{
    if pre.len() > 0 {
        let q = pre.drop_last();
        lemma_remove_witness(q);
        let r = remove_witness_existence(pre);
        let rq = remove_witness_existence(q);
        if !is_witness_existence(pre.last()) {
            assert(r == rq.push(pre.last()));
        }
        if (forall|i: int| 0 <= i < pre.len() && !is_witness_existence(pre[i]) ==> wf_term(
            requires_term(#[trigger] pre[i]),
        )) {
            assert forall|i: int| 0 <= i < q.len() && !is_witness_existence(q[i]) implies wf_term(
                requires_term(#[trigger] q[i]),
            ) by {
                assert(q[i] == pre[i]);
            }
            assert forall|i: int| 0 <= i < r.len() implies wf_term(
                requires_term(#[trigger] r[i]),
            ) by {
                if i == rq.len() && !is_witness_existence(pre.last()) {
                    assert(r[i] == pre.last());
                } else {
                    assert(r[i] == rq[i]);
                }
            }
        }
        if (forall|i: int| 0 <= i < r.len() ==> wf_term(requires_term(#[trigger] r[i]))) {
            assert forall|i: int| 0 <= i < rq.len() implies wf_term(requires_term(#[trigger] rq[i]))
                by {
                assert(r[i] == rq[i]);
            }
            assert forall|i: int| 0 <= i < pre.len() && !is_witness_existence(pre[i]) implies wf_term(
                requires_term(#[trigger] pre[i]),
            ) by {
                if i < q.len() {
                    assert(q[i] == pre[i]);
                } else {
                    assert(r[rq.len() as int] == pre.last());
                }
            }
        }
    }
}

/// Whether the preconditions but those labelled `expl:witness existence` print.
#[verifier::loop_isolation(false)]
fn requires_ok_but_witness(pre: &Vec<Term>) -> (b: bool)
    ensures
        b == forall|i: int|
            0 <= i < remove_witness_existence(pre@).len() ==> wf_term(
                requires_term(#[trigger] remove_witness_existence(pre@)[i]),
            ),
{
    proof {
        lemma_remove_witness(pre@);
    }
    let mut i: usize = 0;
    while i < pre.len()
        invariant
            i <= pre@.len(),
            forall|j: int|
                0 <= j < i && !is_witness_existence(pre@[j]) ==> wf_term(
                    requires_term(#[trigger] pre@[j]),
                ),
        decreases pre@.len() - i,
    {
        if !is_witness_existence_exec(&pre[i]) && !is_wf_term(requires_term_exec(&pre[i])) {
            return false;
        }
        i += 1;
    }
    true
}

fn is_wf_post(ctx: &PrintCtx, rp: &Pattern, p: &Post) -> (b: bool)
    ensures
        b == wf_post(*ctx, *rp, *p),
{
    let ens = p.1.len() == 1 && is_ensures_exec(rp, &p.1[0].0) && !pat_has_marker_exec(
        ctx,
        &p.1[0].0,
    );
    assert(ens == is_ensures_post(*ctx, *rp, *p));
    if ens {
        let r = is_wf_term(ensures_term_exec(&p.1[0].1));
        assert(r == wf_term(ensures_term(p.1@[0].1)));
        r
    } else {
        let mut i: usize = 0;
        while i < p.1.len()
            invariant
                i <= p.1@.len(),
                !is_ensures_post(*ctx, *rp, *p),
                forall|j: int| #![trigger p.1@[j]] 0 <= j < i ==> wf_pat(p.1@[j].0) && wf_term(p.1@[j].1),
            decreases p.1@.len() - i,
        {
            let a = is_wf_pat(&p.1[i].0);
            if !a {
                return false;
            }
            let b = is_wf_term(&p.1[i].1);
            if !b {
                return false;
            }
            assert(wf_pat(p.1@[i as int].0) && wf_term(p.1@[i as int].1));
            i += 1;
        }
        assert(forall|j: int| 0 <= j < p.1@.len() ==> wf_pat(#[trigger] p.1@[j].0) && wf_term(p.1@[j].1));
        true
    }
}

fn is_wf_xpost(x: &Xpost) -> (b: bool)
    ensures
        b == wf_xpost(*x),
{
    let mut i: usize = 0;
    while i < x.1.len()
        invariant
            i <= x.1@.len(),
            forall|j: int|
                0 <= j < i ==> (#[trigger] x.1@[j]).0.0@.len() > 0 && match x.1@[j].1 {
                    Some((p, t)) => wf_pat(p) && wf_term(t),
                    None => true,
                },
        decreases x.1@.len() - i,
    {
        let ok = x.1[i].0.0.len() > 0 && match &x.1[i].1 {
            Some((p, t)) => is_wf_pat(p) && is_wf_term(t),
            None => true,
        };
        if !ok {
            return false;
        }
        i += 1;
    }
    true
}

fn are_wf_variants(vs: &Vec<(Term, Option<Qualid>)>) -> (b: bool)
    ensures
        b == wf_variants(vs@),
{
    let mut i: usize = 0;
    while i < vs.len()
        invariant
            i <= vs@.len(),
            forall|j: int|
                0 <= j < i ==> wf_term((#[trigger] vs@[j]).0) && match vs@[j].1 {
                    Some(q) => q.0@.len() > 0,
                    None => true,
                },
        decreases vs@.len() - i,
    {
        let ok = is_wf_term(&vs[i].0) && match &vs[i].1 {
            Some(q) => q.0.len() > 0,
            None => true,
        };
        if !ok {
            return false;
        }
        i += 1;
    }
    true
}

fn are_wf_invariants(invs: &Vec<Term>) -> (b: bool)
    ensures
        b == wf_invariants(invs@),
{
    let mut i: usize = 0;
    while i < invs.len()
        invariant
            i <= invs@.len(),
            forall|j: int| 0 <= j < i ==> wf_term(invariant_term(#[trigger] invs@[j])),
        decreases invs@.len() - i,
    {
        if !is_wf_term(invariant_term_exec(&invs[i])) {
            return false;
        }
        i += 1;
    }
    true
}

/// Whether the contract prints, its preconditions aside.
fn spec_rest_ok(ctx: &PrintCtx, rp: &Pattern, s: &Spec) -> (b: bool)
    ensures
        b == wf_spec(*ctx, *rp, *s, Seq::empty()),
{
    let mut i: usize = 0;
    while i < s.reads.len()
        invariant
            i <= s.reads@.len(),
            forall|j: int| 0 <= j < i ==> (#[trigger] s.reads@[j]).0@.len() > 0,
        decreases s.reads@.len() - i,
    {
        if s.reads[i].0.len() == 0 {
            return false;
        }
        i += 1;
    }
    let mut i: usize = 0;
    while i < s.writes.len()
        invariant
            i <= s.writes@.len(),
            forall|j: int| 0 <= j < i ==> wf_term(#[trigger] s.writes@[j]),
        decreases s.writes@.len() - i,
    {
        if !is_wf_term(&s.writes[i]) {
            return false;
        }
        i += 1;
    }
    let mut i: usize = 0;
    while i < s.post.len()
        invariant
            i <= s.post@.len(),
            forall|j: int| 0 <= j < i ==> wf_post(*ctx, *rp, #[trigger] s.post@[j]),
        decreases s.post@.len() - i,
    {
        if !is_wf_post(ctx, rp, &s.post[i]) {
            return false;
        }
        i += 1;
    }
    let mut i: usize = 0;
    while i < s.xpost.len()
        invariant
            i <= s.xpost@.len(),
            forall|j: int| 0 <= j < i ==> wf_xpost(#[trigger] s.xpost@[j]),
        decreases s.xpost@.len() - i,
    {
        if !is_wf_xpost(&s.xpost[i]) {
            return false;
        }
        i += 1;
    }
    let mut i: usize = 0;
    while i < s.alias.len()
        invariant
            i <= s.alias@.len(),
            forall|j: int| 0 <= j < i ==> wf_term((#[trigger] s.alias@[j]).0) && wf_term(s.alias@[j].1),
        decreases s.alias@.len() - i,
    {
        if !(is_wf_term(&s.alias[i].0) && is_wf_term(&s.alias[i].1)) {
            return false;
        }
        i += 1;
    }
    are_wf_variants(&s.variant)
}

#[verifier::loop_isolation(false)]
fn is_wf_pty_mask(t: &Pty, m: &Mask) -> (b: bool)
    ensures
        b == wf_pty_mask(*t, *m),
    decreases m,
{
    match m {
        Mask::Visible => (match t {
            Pty::Tuple(ts) => ts.len() == 0,
            _ => false,
        }) || is_wf_pty_ref(t),
        Mask::AllGhost => is_wf_pty(t),
        Mask::Tuple(ms) => match t {
            Pty::Tuple(ts) => {
                let mut i: usize = 0;
                while i < ts.len() && i < ms.len()
                    invariant
                        i <= ts@.len(),
                        i <= ms@.len(),
                        forall|j: int| 0 <= j < i ==> wf_pty_mask(ts@[j], #[trigger] ms@[j]),
                    decreases ts@.len() - i,
                {
                    assert(decreases_to!(m => ms));
                    assert(decreases_to!(ms => ms@[i as int]));
                    if !is_wf_pty_mask(&ts[i], &ms[i]) {
                        return false;
                    }
                    i += 1;
                }
                true
            },
            _ => false,
        },
    }
}

#[verifier::loop_isolation(false)]
fn is_wf_pty_pat_mask(t: &Pty, p: &Pattern, m: &Mask) -> (b: bool)
    ensures
        b == wf_pty_pat_mask(*t, *p, *m),
    decreases m,
{
    match (t, &p.desc, m) {
        (Pty::Tuple(ts), PatDesc::Tuple(ps), Mask::Tuple(ms)) => {
            let mut i: usize = 0;
            while i < ts.len() && i < ps.len() && i < ms.len()
                invariant
                    i <= ts@.len(),
                    i <= ps@.len(),
                    i <= ms@.len(),
                    forall|j: int| 0 <= j < i ==> wf_pty_pat_mask(ts@[j], ps@[j], #[trigger] ms@[j]),
                decreases ts@.len() - i,
            {
                assert(decreases_to!(m => ms));
                assert(decreases_to!(ms => ms@[i as int]));
                if !is_wf_pty_pat_mask(&ts[i], &ps[i], &ms[i]) {
                    return false;
                }
                i += 1;
            }
            true
        },
        (Pty::Tuple(ts), PatDesc::Wild, Mask::Tuple(ms)) => {
            let mut i: usize = 0;
            while i < ts.len() && i < ms.len()
                invariant
                    i <= ts@.len(),
                    i <= ms@.len(),
                    forall|j: int| 0 <= j < i ==> wf_pty_mask(ts@[j], #[trigger] ms@[j]),
                decreases ts@.len() - i,
            {
                if !is_wf_pty_mask(&ts[i], &ms[i]) {
                    return false;
                }
                i += 1;
            }
            true
        },
        (_, PatDesc::Wild, _) => is_wf_pty_ref(t),
        (_, PatDesc::Var(_), _) => is_wf_pty_ref(t),
        _ => false,
    }
}

fn is_wf_opt_result(t: &Option<Pty>, p: &Pattern, m: &Mask) -> (b: bool)
    ensures
        b == wf_opt_result(*t, *p, *m),
{
    match t {
        Some(u) => is_wf_pty_pat_mask(u, p, m),
        None => true,
    }
}

fn are_wf_params(ps: &Vec<Param>) -> (b: bool)
    ensures
        b == wf_params(ps@),
{
    let mut i: usize = 0;
    while i < ps.len()
        invariant
            i <= ps@.len(),
            forall|j: int| 0 <= j < i ==> wf_pty_ref((#[trigger] ps@[j]).3),
        decreases ps@.len() - i,
    {
        if !is_wf_pty_ref(&ps[i].3) {
            return false;
        }
        i += 1;
    }
    true
}

fn is_wf_let_fun(ctx: &PrintCtx, bs: &Vec<Binder>, t: &Option<Pty>, p: &Pattern, m: &Mask, s: &Spec) -> (b: bool)
    ensures
        b == wf_let_fun(*ctx, bs@, *t, *p, *m, *s),
{
    proof {
        assert(s.pre@.take(s.pre@.len() as int) =~= s.pre@);
    }
    are_wf_binders(bs) && is_wf_opt_result(t, p, m) && spec_rest_ok(ctx, p, s) && requires_ok(
        &s.pre,
        s.pre.len(),
    )
}

fn is_wf_let_any(
    ctx: &PrintCtx,
    ps: &Vec<Param>,
    k2: RsKind,
    t: &Option<Pty>,
    p: &Pattern,
    m: &Mask,
    s: &Spec,
) -> (b: bool)
    ensures
        b == wf_let_any(*ctx, ps@, k2, *t, *p, *m, *s),
{
    let non_pure = match k2 {
        RsKind::NonPure => true,
        _ => false,
    };
    if !non_pure {
        return true;
    }
    if !are_wf_params(ps) {
        return false;
    }
    let witness = t.is_some() && is_wild(p) && is_visible(m) && s.pre.len() > 0
        && is_witness_existence_exec(&s.pre[s.pre.len() - 1]);
    assert(witness == is_let_any_witness(*t, *p, *m, *s));
    if witness {
        match t {
            Some(u) => {
                let a = is_wf_pty(u);
                let b = spec_rest_ok(ctx, p, s);
                let c = requires_ok(&s.pre, s.pre.len() - 1);
                proof {
                    assert(s.pre@.drop_last() =~= s.pre@.take(s.pre@.len() - 1));
                }
                a && b && c
            },
            None => false,
        }
    } else {
        proof {
            assert(s.pre@.take(s.pre@.len() as int) =~= s.pre@);
        }
        is_wf_opt_result(t, p, m) && spec_rest_ok(ctx, p, s) && requires_ok(&s.pre, s.pre.len())
    }
}

// ------------------------------------------------------------ expressions

fn assert_term_exec(k: AssertionKind, t: &Term) -> (r: &Term)
    ensures
        *r == assert_term(k, *t),
{
    match &t.desc {
        TermDesc::Attr(Attr::Str(a), u) => if crate::text::str_eq(a.as_str(), assert_hyp_str(k)) {
            return &**u;
        },
        _ => {},
    }
    assert(assert_default(k, *t) is None);
    hyp_name_exec(t).2
}

/// Whether the printers lay the expression out: [`wf_expr`].
#[verifier::rlimit(60)]
pub fn is_wf_expr(ctx: &PrintCtx, e: &Expr) -> (b: bool)
    ensures
        b == wf_expr(*ctx, *e),
    decreases e, 0nat,
{
    match &e.desc {
        ExprDesc::Ref | ExprDesc::True | ExprDesc::False | ExprDesc::Absurd => true,
        ExprDesc::Const(k) => is_wf_const(k),
        ExprDesc::Ident(q) | ExprDesc::Asref(q) | ExprDesc::Idpur(q) => q.0.len() > 0,
        ExprDesc::Idapp(q, es) => q.0.len() > 0 && !shape_is_bad(q, es.len()) && are_wf_exprs(
            ctx,
            es,
        ),
        ExprDesc::Apply(a, b) | ExprDesc::Sequence(a, b) | ExprDesc::And(a, b) | ExprDesc::Or(
            a,
            b,
        ) => is_wf_expr(ctx, a) && is_wf_expr(ctx, b),
        ExprDesc::Infix(a, op, b) | ExprDesc::Innfix(a, op, b) => is_infix_ident_exec(op)
            && is_wf_expr(ctx, a) && is_wf_expr(ctx, b),
        ExprDesc::Let(_, _, _, a, b) => is_wf_expr(ctx, b) && match &a.desc {
            ExprDesc::Fun(bs, t, p, m, s, body) => is_wf_let_fun(ctx, bs, t, p, m, s)
                && is_wf_expr(ctx, body),
            ExprDesc::Any(ps, k2, t, p, m, s) => is_wf_let_any(ctx, ps, *k2, t, p, m, s),
            _ => is_wf_expr(ctx, a),
        },
        ExprDesc::Rec(ds, b) => ds.len() > 0 && are_wf_fundefs(ctx, ds) && is_wf_expr(ctx, b),
        ExprDesc::Fun(bs, t, p, m, s, body) => is_wf_expr(ctx, body) && if bs.len() == 0
            && t.is_none() && is_wild(p) && is_visible(m) {
            proof {
                assert(s.pre@.take(s.pre@.len() as int) =~= s.pre@);
            }
            spec_rest_ok(ctx, p, s) && requires_ok(&s.pre, s.pre.len())
        } else {
            is_wf_let_fun(ctx, bs, t, p, m, s)
        },
        ExprDesc::Any(ps, _, t, p, m, s) => {
            if !(ps.len() == 0 && t.is_some()) {
                true
            } else {
                let rp = any_result_pat_exec(p, s);
                match t {
                    Some(u) => is_wf_pty_pat_mask(u, rp, m) && spec_rest_ok(ctx, rp, s)
                        && requires_ok_but_witness(&s.pre),
                    None => false,
                }
            }
        },
        ExprDesc::Tuple(es) => are_wf_exprs(ctx, es),
        ExprDesc::Record(fs) => are_wf_expr_fields(ctx, fs),
        ExprDesc::Update(x, fs) => is_wf_expr(ctx, x) && are_wf_expr_fields(ctx, fs),
        ExprDesc::Assign(l) => are_wf_assigns(ctx, l),
        ExprDesc::If(a, b, d) => is_wf_expr(ctx, a) && is_wf_expr(ctx, b) && is_wf_expr(ctx, d),
        ExprDesc::While(a, invs, vs, b) => is_wf_expr(ctx, a) && are_wf_invariants(invs)
            && are_wf_variants(vs) && is_wf_expr(ctx, b),
        ExprDesc::Not(a) | ExprDesc::GhostExpr(a) => is_wf_expr(ctx, a),
        ExprDesc::Match(x, cases, xcases) => is_wf_expr(ctx, x) && are_wf_ebranches(ctx, cases)
            && are_wf_exn_branches(ctx, xcases),
        ExprDesc::Pure(t) => is_wf_term(t),
        ExprDesc::Raise(q, oa) => q.0.len() > 0 && match oa {
            Some(a) => is_wf_expr(ctx, a),
            None => true,
        },
        ExprDesc::Exn(_, t, m, x) => is_wf_pty_mask(t, m) && is_wf_expr(ctx, x),
        ExprDesc::Optexn(id, m, x) => (!is_exit_exn_exec(ctx, id) && !is_visible(m)) || is_wf_expr(
            ctx,
            x,
        ),
        ExprDesc::For(_, a, _, b, invs, body) => is_wf_expr(ctx, a) && is_wf_expr(ctx, b)
            && are_wf_invariants(invs) && is_wf_expr(ctx, body),
        ExprDesc::Assert(k, t) => is_wf_term(assert_term_exec(*k, t)),
        ExprDesc::Scope(q, x) => q.0.len() > 0 && is_wf_expr(ctx, x),
        ExprDesc::Label(_, x) => is_wf_expr(ctx, x),
        ExprDesc::Cast(x, t) => is_wf_expr(ctx, x) && is_wf_pty(t),
        ExprDesc::Attr(a, x) => if is_funlit_attr_exec(a) {
            is_wf_e_funlit(ctx, x)
        } else {
            (match &x.desc {
                ExprDesc::Attr(_, _) => true,
                _ => false,
            }) && is_wf_expr(ctx, x)
        },
    }
}

proof fn lemma_wf_exprs_prefix(c: PrintCtx, es: Seq<Expr>, n: int)
    requires
        0 < n <= es.len(),
        !wf_expr(c, es[n - 1]),
    ensures
        !wf_exprs(c, es),
    decreases es.len(),
{
    if n < es.len() {
        lemma_wf_exprs_prefix(c, es.drop_last(), n);
    }
}

fn are_wf_exprs(ctx: &PrintCtx, es: &Vec<Expr>) -> (b: bool)
    ensures
        b == wf_exprs(*ctx, es@),
    decreases es, 0nat,
{
    let mut i: usize = 0;
    while i < es.len()
        invariant
            i <= es@.len(),
            wf_exprs(*ctx, es@.take(i as int)),
        decreases es@.len() - i,
    {
        assert(decreases_to!(es => es@[i as int]));
        assert(es@.take(i + 1).drop_last() =~= es@.take(i as int));
        if !is_wf_expr(ctx, &es[i]) {
            proof {
                lemma_wf_exprs_prefix(*ctx, es@, i + 1);
            }
            return false;
        }
        i += 1;
    }
    assert(es@.take(i as int) =~= es@);
    true
}

proof fn lemma_wf_expr_fields_prefix(c: PrintCtx, fs: Seq<(Qualid, Expr)>, n: int)
    requires
        0 < n <= fs.len(),
        !(fs[n - 1].0.0@.len() > 0 && wf_expr(c, fs[n - 1].1)),
    ensures
        !wf_expr_fields(c, fs),
    decreases fs.len(),
{
    if n < fs.len() {
        lemma_wf_expr_fields_prefix(c, fs.drop_last(), n);
    }
}

fn are_wf_expr_fields(ctx: &PrintCtx, fs: &Vec<(Qualid, Expr)>) -> (b: bool)
    ensures
        b == wf_expr_fields(*ctx, fs@),
    decreases fs, 0nat,
{
    let mut i: usize = 0;
    while i < fs.len()
        invariant
            i <= fs@.len(),
            wf_expr_fields(*ctx, fs@.take(i as int)),
        decreases fs@.len() - i,
    {
        assert(decreases_to!(fs => fs@[i as int]));
        assert(fs@.take(i + 1).drop_last() =~= fs@.take(i as int));
        if !(fs[i].0.0.len() > 0 && is_wf_expr(ctx, &fs[i].1)) {
            proof {
                lemma_wf_expr_fields_prefix(*ctx, fs@, i + 1);
            }
            return false;
        }
        i += 1;
    }
    assert(fs@.take(i as int) =~= fs@);
    true
}

proof fn lemma_wf_assigns_prefix(c: PrintCtx, l: Seq<(Expr, Option<Qualid>, Expr)>, n: int)
    requires
        0 < n <= l.len(),
        !(wf_expr(c, l[n - 1].0) && wf_expr(c, l[n - 1].2) && match l[n - 1].1 {
            Some(q) => q.0@.len() > 0,
            None => true,
        }),
    ensures
        !wf_assigns(c, l),
    decreases l.len(),
{
    if n < l.len() {
        lemma_wf_assigns_prefix(c, l.drop_last(), n);
    }
}

fn are_wf_assigns(ctx: &PrintCtx, l: &Vec<(Expr, Option<Qualid>, Expr)>) -> (b: bool)
    ensures
        b == wf_assigns(*ctx, l@),
    decreases l, 0nat,
{
    let mut i: usize = 0;
    while i < l.len()
        invariant
            i <= l@.len(),
            wf_assigns(*ctx, l@.take(i as int)),
        decreases l@.len() - i,
    {
        assert(decreases_to!(l => l@[i as int]));
        assert(l@.take(i + 1).drop_last() =~= l@.take(i as int));
        let ok = is_wf_expr(ctx, &l[i].0) && is_wf_expr(ctx, &l[i].2) && match &l[i].1 {
            Some(q) => q.0.len() > 0,
            None => true,
        };
        if !ok {
            proof {
                lemma_wf_assigns_prefix(*ctx, l@, i + 1);
            }
            return false;
        }
        i += 1;
    }
    assert(l@.take(i as int) =~= l@);
    true
}

proof fn lemma_wf_ebranches_prefix(c: PrintCtx, bs: Seq<(Pattern, Expr)>, n: int)
    requires
        0 < n <= bs.len(),
        !(wf_pat(bs[n - 1].0) && wf_expr(c, bs[n - 1].1)),
    ensures
        !wf_ebranches(c, bs),
    decreases bs.len(),
{
    if n < bs.len() {
        lemma_wf_ebranches_prefix(c, bs.drop_last(), n);
    }
}

fn are_wf_ebranches(ctx: &PrintCtx, bs: &Vec<(Pattern, Expr)>) -> (b: bool)
    ensures
        b == wf_ebranches(*ctx, bs@),
    decreases bs, 0nat,
{
    let mut i: usize = 0;
    while i < bs.len()
        invariant
            i <= bs@.len(),
            wf_ebranches(*ctx, bs@.take(i as int)),
        decreases bs@.len() - i,
    {
        assert(decreases_to!(bs => bs@[i as int]));
        assert(bs@.take(i + 1).drop_last() =~= bs@.take(i as int));
        if !(is_wf_pat(&bs[i].0) && is_wf_expr(ctx, &bs[i].1)) {
            proof {
                lemma_wf_ebranches_prefix(*ctx, bs@, i + 1);
            }
            return false;
        }
        i += 1;
    }
    assert(bs@.take(i as int) =~= bs@);
    true
}

proof fn lemma_wf_exn_branches_prefix(c: PrintCtx, xs: Seq<(Qualid, Option<Pattern>, Expr)>, n: int)
    requires
        0 < n <= xs.len(),
        !(xs[n - 1].0.0@.len() > 0 && match xs[n - 1].1 {
            Some(p) => wf_pat(p),
            None => true,
        } && wf_expr(c, xs[n - 1].2)),
    ensures
        !wf_exn_branches(c, xs),
    decreases xs.len(),
{
    if n < xs.len() {
        lemma_wf_exn_branches_prefix(c, xs.drop_last(), n);
    }
}

fn are_wf_exn_branches(ctx: &PrintCtx, xs: &Vec<(Qualid, Option<Pattern>, Expr)>) -> (b: bool)
    ensures
        b == wf_exn_branches(*ctx, xs@),
    decreases xs, 0nat,
{
    let mut i: usize = 0;
    while i < xs.len()
        invariant
            i <= xs@.len(),
            wf_exn_branches(*ctx, xs@.take(i as int)),
        decreases xs@.len() - i,
    {
        assert(decreases_to!(xs => xs@[i as int]));
        assert(xs@.take(i + 1).drop_last() =~= xs@.take(i as int));
        let ok = xs[i].0.0.len() > 0 && match &xs[i].1 {
            Some(p) => is_wf_pat(p),
            None => true,
        } && is_wf_expr(ctx, &xs[i].2);
        if !ok {
            proof {
                lemma_wf_exn_branches_prefix(*ctx, xs@, i + 1);
            }
            return false;
        }
        i += 1;
    }
    assert(xs@.take(i as int) =~= xs@);
    true
}

fn is_wf_fundef(ctx: &PrintCtx, d: &Fundef) -> (b: bool)
    ensures
        b == wf_fundef(*ctx, *d),
    decreases d, 0nat,
{
    is_wf_let_fun(ctx, &d.3, &d.4, &d.5, &d.6, &d.7) && is_wf_expr(ctx, &d.8)
}

proof fn lemma_wf_fundefs_prefix(c: PrintCtx, ds: Seq<Fundef>, n: int)
    requires
        0 < n <= ds.len(),
        !wf_fundef(c, ds[n - 1]),
    ensures
        !wf_fundefs(c, ds),
    decreases ds.len(),
{
    if n < ds.len() {
        lemma_wf_fundefs_prefix(c, ds.drop_last(), n);
    }
}

fn are_wf_fundefs(ctx: &PrintCtx, ds: &Vec<Fundef>) -> (b: bool)
    ensures
        b == wf_fundefs(*ctx, ds@),
    decreases ds, 0nat,
{
    let mut i: usize = 0;
    while i < ds.len()
        invariant
            i <= ds@.len(),
            wf_fundefs(*ctx, ds@.take(i as int)),
        decreases ds@.len() - i,
    {
        assert(decreases_to!(ds => ds@[i as int]));
        assert(ds@.take(i + 1).drop_last() =~= ds@.take(i as int));
        if !is_wf_fundef(ctx, &ds[i]) {
            proof {
                lemma_wf_fundefs_prefix(*ctx, ds@, i + 1);
            }
            return false;
        }
        i += 1;
    }
    assert(ds@.take(i as int) =~= ds@);
    true
}

fn is_wf_efl_vals(ctx: &PrintCtx, e: &Expr) -> (b: bool)
    ensures
        b == wf_efl_vals(*ctx, *e),
    decreases e, 1nat,
{
    match &e.desc {
        ExprDesc::Let(_, g, k, a, b) => if !*g && (match k {
            RsKind::NonPure => true,
            _ => false,
        }) {
            is_wf_expr(ctx, a) && is_wf_efl_vals(ctx, b)
        } else {
            true
        },
        _ => true,
    }
}

fn efl_collect<'a>(e: &'a Expr, ids: &mut Vec<&'a Ident>) -> (r: &'a Expr)
    ensures
        deref_ids(final(ids)@) == deref_ids(old(ids)@) + efl_ids(*e),
        *r == efl_fun(*e),
    decreases e,
{
    match &e.desc {
        ExprDesc::Let(id, g, k, _, b) => if !*g && (match k {
            RsKind::NonPure => true,
            _ => false,
        }) {
            let ghost i0 = deref_ids(ids@);
            ids.push(id);
            assert(deref_ids(ids@) =~= i0.push(*id));
            let r = efl_collect(b, ids);
            assert(deref_ids(ids@) =~= i0 + efl_ids(*e));
            r
        } else {
            assert(deref_ids(ids@) =~= deref_ids(ids@) + efl_ids(*e));
            e
        },
        _ => {
            assert(deref_ids(ids@) =~= deref_ids(ids@) + efl_ids(*e));
            e
        },
    }
}

fn is_wf_efl_elems(var: &Ident, e: &Expr, ids: &Vec<&Ident>, n: usize) -> (b: bool)
    requires
        n <= ids@.len(),
    ensures
        b == wf_efl_elems(*var, *e, deref_ids(ids@).take(n as int)),
    decreases e,
{
    let ghost l = deref_ids(ids@).take(n as int);
    match efl_case_exec(var, e, ids, n) {
        Some(_) => match &e.desc {
            ExprDesc::If(_, _, r) => {
                proof {
                    assert(deref_ids(ids@).take(n - 2) =~= l.take(l.len() - 2));
                }
                is_wf_efl_elems(var, r, ids, n - 2)
            },
            _ => false,
        },
        None => match single_ident_exec(e) {
            Some(x) => if n == 0 {
                true
            } else if n == 1 {
                proof {
                    assert(l[0] == *ids@[0]);
                }
                same_ident_exec(x, ids[0])
            } else {
                false
            },
            None => false,
        },
    }
}

fn is_wf_e_funlit(ctx: &PrintCtx, e: &Expr) -> (b: bool)
    ensures
        b == wf_e_funlit(*ctx, *e),
    decreases e, 2nat,
{
    let mut ids: Vec<&Ident> = Vec::new();
    assert(deref_ids(ids@) =~= Seq::<Ident>::empty());
    let f = efl_collect(e, &mut ids);
    assert(deref_ids(ids@) =~= efl_ids(*e));
    assert(deref_ids(ids@).take(ids@.len() as int) =~= efl_ids(*e));
    let ok = match &f.desc {
        ExprDesc::Fun(bs, _, _, _, _, body) => if bs.len() == 1 {
            match &bs[0].1 {
                Some(var) => {
                    let n = ids.len();
                    is_wf_efl_elems(var, body, &ids, n)
                },
                None => false,
            }
        } else {
            false
        },
        _ => false,
    };
    ok && is_wf_efl_vals(ctx, e)
}

// ----------------------------------------------------------- declarations

fn is_wf_type_decl(ctx: &PrintCtx, d: &TypeDecl) -> (b: bool)
    ensures
        b == wf_type_decl(*ctx, *d),
{
    let def_ok = match &d.def {
        TypeDef::Alias(t) => is_wf_pty(t),
        TypeDef::Record(fs) => {
            let bare = fs.len() == 0 && (match d.vis {
                Visibility::Abstract => true,
                _ => false,
            }) && !d.mutable;
            assert(bare == is_bare_record(*d));
            if bare {
                true
            } else if !are_wf_invariants(&d.inv) {
                false
            } else {
                let mut i: usize = 0;
                let mut ok = true;
                while i < fs.len()
                    invariant
                        i <= fs@.len(),
                        ok == forall|j: int| 0 <= j < i ==> wf_pty((#[trigger] fs@[j]).pty),
                    decreases fs@.len() - i,
                {
                    if !is_wf_pty(&fs[i].pty) {
                        ok = false;
                    }
                    i += 1;
                }
                ok
            }
        },
        TypeDef::Algebraic(vs) => {
            let mut i: usize = 0;
            let mut ok = true;
            while i < vs.len()
                invariant
                    i <= vs@.len(),
                    ok == forall|j: int| 0 <= j < i ==> wf_params((#[trigger] vs@[j]).2@),
                decreases vs@.len() - i,
            {
                if !are_wf_params(&vs[i].2) {
                    ok = false;
                }
                i += 1;
            }
            ok
        },
        _ => true,
    };
    def_ok && match &d.wit {
        Some(x) => is_wf_expr(ctx, x),
        None => true,
    }
}

fn is_wf_logic_decl(d: &LogicDecl) -> (b: bool)
    ensures
        b == wf_logic_decl(*d),
{
    are_wf_params(&d.params) && match &d.ty {
        Some(t) => is_wf_pty(t),
        None => true,
    } && match &d.def {
        Some(t) => is_wf_term(t),
        None => true,
    }
}

fn is_wf_ind_decl(d: &IndDecl) -> (b: bool)
    ensures
        b == wf_ind_decl(*d),
{
    if !are_wf_params(&d.params) {
        return false;
    }
    let mut i: usize = 0;
    while i < d.def.len()
        invariant
            i <= d.def@.len(),
            forall|j: int| 0 <= j < i ==> wf_term((#[trigger] d.def@[j]).2),
        decreases d.def@.len() - i,
    {
        if !is_wf_term(&d.def[i].2) {
            return false;
        }
        i += 1;
    }
    true
}

fn is_wf_subst(s: &CloneSubst) -> (b: bool)
    ensures
        b == wf_subst(*s),
{
    match s {
        CloneSubst::Axiom(q) | CloneSubst::Lemma(q) | CloneSubst::Goal(q) => q.0.len() > 0,
        CloneSubst::Tsym(q, _, t) => q.0.len() > 0 && is_wf_pty(t),
        CloneSubst::Fsym(q, q2) | CloneSubst::Psym(q, q2) | CloneSubst::Vsym(q, q2)
        | CloneSubst::Xsym(q, q2) => q.0.len() > 0 && q2.0.len() > 0,
        CloneSubst::Prop(_) => true,
    }
}

fn are_wf_substs(ss: &Vec<CloneSubst>) -> (b: bool)
    ensures
        b == wf_substs(ss@),
{
    let mut i: usize = 0;
    while i < ss.len()
        invariant
            i <= ss@.len(),
            forall|j: int| 0 <= j < i ==> wf_subst(#[trigger] ss@[j]),
        decreases ss@.len() - i,
    {
        if !is_wf_subst(&ss[i]) {
            return false;
        }
        i += 1;
    }
    true
}

fn is_wf_metarg(a: &Metarg) -> (b: bool)
    ensures
        b == wf_metarg(*a),
{
    match a {
        Metarg::Ty(t) => is_wf_pty(t),
        Metarg::Fs(q) | Metarg::Ps(q) | Metarg::Ax(q) | Metarg::Lm(q) | Metarg::Gl(q) | Metarg::Val(
            q,
        ) => q.0.len() > 0,
        _ => true,
    }
}

/// Whether the printers lay the declaration out: [`wf_decl`].
#[verifier::loop_isolation(false)]
#[verifier::rlimit(40)]
pub fn is_wf_decl(ctx: &PrintCtx, d: &Decl) -> (b: bool)
    ensures
        b == wf_decl(*ctx, *d),
    decreases d, 1nat,
{
    match d {
        Decl::Type(ds) => {
            if ds.len() == 0 {
                return false;
            }
            let mut i: usize = 0;
            while i < ds.len()
                invariant
                    i <= ds@.len(),
                    forall|j: int| 0 <= j < i ==> wf_type_decl(*ctx, #[trigger] ds@[j]),
                decreases ds@.len() - i,
            {
                if !is_wf_type_decl(ctx, &ds[i]) {
                    return false;
                }
                i += 1;
            }
            true
        },
        Decl::Logic(ds) => {
            if ds.len() == 0 {
                return false;
            }
            let mut i: usize = 0;
            let mut all_none = true;
            let mut all_some = true;
            while i < ds.len()
                invariant
                    i <= ds@.len(),
                    all_none == forall|j: int| 0 <= j < i ==> (#[trigger] ds@[j]).ty is None,
                    all_some == forall|j: int| 0 <= j < i ==> (#[trigger] ds@[j]).ty is Some,
                    forall|j: int| 0 <= j < i ==> wf_logic_decl(#[trigger] ds@[j]),
                decreases ds@.len() - i,
            {
                if ds[i].ty.is_some() {
                    all_none = false;
                } else {
                    all_some = false;
                }
                if !is_wf_logic_decl(&ds[i]) {
                    return false;
                }
                i += 1;
            }
            all_none || all_some
        },
        Decl::Ind(_, ds) => {
            if ds.len() == 0 {
                return false;
            }
            let mut i: usize = 0;
            while i < ds.len()
                invariant
                    i <= ds@.len(),
                    forall|j: int| 0 <= j < i ==> wf_ind_decl(#[trigger] ds@[j]),
                decreases ds@.len() - i,
            {
                if !is_wf_ind_decl(&ds[i]) {
                    return false;
                }
                i += 1;
            }
            true
        },
        Decl::Prop(_, _, t) => is_wf_term(t),
        Decl::Let(_, _, _, e) => match &e.desc {
            ExprDesc::Fun(bs, t, p, m, s, body) => is_wf_let_fun(ctx, bs, t, p, m, s) && is_wf_expr(
                ctx,
                body,
            ),
            ExprDesc::Any(ps, k2, t, p, m, s) => is_wf_let_any(ctx, ps, *k2, t, p, m, s),
            _ => is_wf_expr(ctx, e),
        },
        Decl::Rec(ds) => ds.len() > 0 && are_wf_fundefs(ctx, ds),
        Decl::Exn(_, t, m) => is_wf_pty_mask(t, m),
        Decl::Meta(_, args) => {
            let mut i: usize = 0;
            while i < args.len()
                invariant
                    i <= args@.len(),
                    forall|j: int| 0 <= j < i ==> wf_metarg(#[trigger] args@[j]),
                decreases args@.len() - i,
            {
                if !is_wf_metarg(&args[i]) {
                    return false;
                }
                i += 1;
            }
            true
        },
        Decl::Cloneexport(_, q, ss) | Decl::Cloneimport(_, _, q, _, ss) => q.0.len() > 0
            && are_wf_substs(ss),
        Decl::Useexport(_, q) | Decl::Import(q) => q.0.len() > 0,
        Decl::Useimport(_, _, binds) => {
            let mut i: usize = 0;
            while i < binds.len()
                invariant
                    i <= binds@.len(),
                    forall|j: int| 0 <= j < i ==> (#[trigger] binds@[j]).0.0@.len() > 0,
                decreases binds@.len() - i,
            {
                if binds[i].0.0.len() == 0 {
                    return false;
                }
                i += 1;
            }
            true
        },
        Decl::Scope(_, _, _, ds) => are_wf_decls(ctx, ds),
    }
}

proof fn lemma_wf_decls_prefix(c: PrintCtx, ds: Seq<Decl>, n: int)
    requires
        0 < n <= ds.len(),
        !wf_decl(c, ds[n - 1]),
    ensures
        !wf_decls(c, ds),
    decreases ds.len(),
{
    if n < ds.len() {
        lemma_wf_decls_prefix(c, ds.drop_last(), n);
    }
}

/// Whether the printers lay the declarations out: [`wf_decls`].
pub fn are_wf_decls(ctx: &PrintCtx, ds: &Vec<Decl>) -> (b: bool)
    ensures
        b == wf_decls(*ctx, ds@),
    decreases ds, 0nat,
{
    let mut i: usize = 0;
    while i < ds.len()
        invariant
            i <= ds@.len(),
            wf_decls(*ctx, ds@.take(i as int)),
        decreases ds@.len() - i,
    {
        assert(decreases_to!(ds => ds@[i as int]));
        assert(ds@.take(i + 1).drop_last() =~= ds@.take(i as int));
        if !is_wf_decl(ctx, &ds[i]) {
            proof {
                lemma_wf_decls_prefix(*ctx, ds@, i + 1);
            }
            return false;
        }
        i += 1;
    }
    assert(ds@.take(i as int) =~= ds@);
    true
}

/// Whether the printers lay the file out: [`wf_mlw_file`].
#[verifier::loop_isolation(false)]
pub fn is_wf_mlw_file(ctx: &PrintCtx, f: &MlwFile) -> (b: bool)
    ensures
        b == wf_mlw_file(*ctx, *f),
{
    match f {
        MlwFile::Decls(ds) => are_wf_decls(ctx, ds),
        MlwFile::Modules(ms) => {
            let mut i: usize = 0;
            while i < ms.len()
                invariant
                    i <= ms@.len(),
                    forall|j: int| 0 <= j < i ==> wf_decls(*ctx, (#[trigger] ms@[j]).1@),
                decreases ms@.len() - i,
            {
                if !are_wf_decls(ctx, &ms[i].1) {
                    return false;
                }
                i += 1;
            }
            true
        },
    }
}

} // verus!
