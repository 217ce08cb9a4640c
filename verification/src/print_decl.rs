//! The printer of declarations and files.

use vstd::prelude::*;

use crate::decl::{IndSign, PropKind};
use crate::decl_spec::{
    decl_entries, decl_layout, decls_layout, field_decl_layout, ind_decl_layout, ind_keyword,
    is_bare_record, is_module_decl, logic_decl_layout, metarg_layout, mlw_file_layout,
    module_layout, opt_as_layout, prop_keyword, same_qualid, subst_layout, substs_layout,
    type_decl_layout, type_def_layout, vis_text, withs, wf_decl, wf_decls, wf_ind_decl, wf_logic_decl,
    wf_metarg, wf_mlw_file, wf_subst, wf_substs, wf_type_decl, with_chain,
};
use crate::doc::{at, views, BoxKind, Doc, Layout};
use crate::expr_spec::{concat, fundefs_parts, wf_fundefs, wf_params};
use crate::mlw_printer::{
    doc_of, new_doc, pp_id, pp_id_rm, pp_maybe_marker, pp_pty_raw, pp_qualid, space_doc, PrintCtx,
};
use crate::mlw_spec::{ghost_layout, hv, ident, import_layout, maybe_marker, mutable_layout, qualid};
use crate::print_contract::{pp_exn, pp_invariants, pp_params};
use crate::print_expr::{pp_elet, pp_expr_closed, pp_fundef, pp_let_any, pp_let_fun};
use crate::print_term::{pp_term, same_ident_exec};
use crate::ptree::{
    CloneSubst, Decl, ExprDesc, Field, IndDecl, Ident, LogicDecl, Metarg, MlwFile, Qualid, TypeDecl,
    TypeDef, Visibility,
};
use crate::text;

verus! {

fn same_qualid_exec(a: &Qualid, b: &Qualid) -> (r: bool)
    ensures
        r == same_qualid(*a, *b),
{
    if a.0.len() != b.0.len() {
        return false;
    }
    let mut i: usize = 0;
    while i < a.0.len()
        invariant
            i <= a.0@.len(),
            a.0@.len() == b.0@.len(),
            forall|j: int| 0 <= j < i ==> crate::term_spec::same_ident(#[trigger] a.0@[j], b.0@[j]),
        decreases a.0@.len() - i,
    {
        if !same_ident_exec(&a.0[i], &b.0[i]) {
            return false;
        }
        i += 1;
    }
    true
}

fn pp_ident_list(ctx: &PrintCtx, attr: bool, doc: &mut Doc, ids: &Vec<Ident>)
    ensures
        final(doc)@ == old(doc)@ + crate::doc::opt_list(
            Seq::<Layout>::empty(),
            at(" '"@),
            Seq::<Layout>::empty(),
            Seq::<Layout>::empty(),
            Seq::<Layout>::empty(),
            ids@.map_values(|id: Ident| ident(*ctx, attr, id)),
        ),
{
    let mut parts: Vec<Doc> = Vec::new();
    let mut i: usize = 0;
    while i < ids.len()
        invariant
            i <= ids@.len(),
            views(parts@) == ids@.take(i as int).map_values(|id: Ident| ident(*ctx, attr, id)),
        decreases ids@.len() - i,
    {
        let mut d = new_doc();
        pp_id(ctx, attr, &mut d, &ids[i]);
        let ghost p0 = views(parts@);
        parts.push(d);
        proof {
            assert(d@ =~= ident(*ctx, attr, ids@[i as int]));
            assert(views(parts@) =~= p0.push(d@));
            assert(views(parts@) =~= ids@.take(i + 1).map_values(|id: Ident| ident(*ctx, attr, id)));
        }
        i += 1;
    }
    assert(ids@.take(i as int) =~= ids@);
    let e = new_doc();
    doc.opt_list_parts(parts, &e, &doc_of(" '"), &e, &e, &e);
}

// ------------------------------------------------------------- type decls

fn vis_str(v: Visibility) -> (s: &'static str)
    ensures
        s@ == vis_text(v),
{
    match v {
        Visibility::Public => "",
        Visibility::Private => "private ",
        Visibility::Abstract => "abstract ",
    }
}

fn pp_mutable(doc: &mut Doc, m: bool)
    ensures
        final(doc)@ == old(doc)@ + mutable_layout(m),
{
    if m {
        doc.atom("mutable ");
    } else {
        assert(doc@ =~= doc@ + mutable_layout(m));
    }
}

fn pp_field_decl(ctx: &PrintCtx, attr: bool, doc: &mut Doc, f: &Field)
    requires
        crate::mlw_spec::wf_pty(f.pty),
    ensures
        final(doc)@ == old(doc)@ + field_decl_layout(*ctx, attr, *f),
{
    let mut h = new_doc();
    pp_maybe_marker(ctx, &mut h, f.loc);
    proof {
        assert(h@ =~= maybe_marker(*ctx, f.loc));
    }
    pp_mutable(&mut h, f.mutable);
    if f.is_ghost {
        h.atom("ghost ");
    } else {
        assert(h@ =~= h@ + ghost_layout(f.is_ghost));
    }
    pp_id(ctx, attr, &mut h, &f.ident);
    h.atom(" :");
    h.space();
    pp_pty_raw(ctx, attr, &mut h, &f.pty);
    doc.boxed(BoxKind::Hv, 2, h);
}

fn pp_type_def(ctx: &PrintCtx, attr: bool, doc: &mut Doc, d: &TypeDecl)
    requires
        wf_type_decl(*ctx, *d),
    ensures
        final(doc)@ == old(doc)@ + type_def_layout(*ctx, attr, *d),
{
    match &d.def {
        TypeDef::Alias(t) => {
            doc.atom(" = ");
            pp_pty_raw(ctx, attr, doc, t);
        },
        TypeDef::Record(fs) => {
            let bare = fs.len() == 0 && match d.vis {
                Visibility::Abstract => true,
                _ => false,
            } && !d.mutable;
            if bare {
                assert(doc@ =~= doc@ + Seq::<Layout>::empty());
            } else {
                let mut parts: Vec<Doc> = Vec::new();
                let mut i: usize = 0;
                while i < fs.len()
                    invariant
                        i <= fs@.len(),
                        forall|k: int| 0 <= k < fs@.len() ==> crate::mlw_spec::wf_pty((#[trigger] fs@[k]).pty),
                        views(parts@) == fs@.take(i as int).map_values(|f: Field| field_decl_layout(*ctx, attr, f)),
                    decreases fs@.len() - i,
                {
                    let mut x = new_doc();
                    pp_field_decl(ctx, attr, &mut x, &fs[i]);
                    let ghost p0 = views(parts@);
                    parts.push(x);
                    proof {
                        assert(x@ =~= field_decl_layout(*ctx, attr, fs@[i as int]));
                        assert(views(parts@) =~= p0.push(x@));
                        assert(views(parts@) =~= fs@.take(i + 1).map_values(|f: Field| field_decl_layout(*ctx, attr, f)));
                    }
                    i += 1;
                }
                assert(fs@.take(i as int) =~= fs@);
                let mut s = String::from_str(" = ");
                s.append(vis_str(d.vis));
                let mut h = new_doc();
                h.atom_string(s);
                pp_mutable(&mut h, d.mutable);
                h.atom("{");
                h.space();
                let mut sep = doc_of(";");
                sep.space();
                h.join_parts(parts, &sep);
                h.space();
                h.atom("}");
                doc.boxed(BoxKind::Hv, 2, h);
                pp_invariants(ctx, attr, doc, &d.inv);
            }
        },
        TypeDef::Algebraic(vs) => {
            let mut parts: Vec<Doc> = Vec::new();
            let mut i: usize = 0;
            while i < vs.len()
                invariant
                    i <= vs@.len(),
                    forall|k: int| 0 <= k < vs@.len() ==> wf_params((#[trigger] vs@[k]).2@),
                    views(parts@) == vs@.take(i as int).map_values(
                        |v: (crate::loc::Position, Ident, Vec<crate::ptree::Param>)|
                            maybe_marker(*ctx, v.0) + ident(*ctx, attr, v.1) + crate::expr_spec::params_layout(
                                *ctx,
                                attr,
                                v.2@,
                                Seq::<Layout>::empty(),
                            ),
                    ),
                decreases vs@.len() - i,
            {
                let mut x = new_doc();
                pp_maybe_marker(ctx, &mut x, vs[i].0);
                proof {
                    assert(x@ =~= maybe_marker(*ctx, vs@[i as int].0));
                    reveal_strlit("");
                }
                pp_id(ctx, attr, &mut x, &vs[i].1);
                pp_params(ctx, attr, &mut x, &vs[i].2, "");
                let ghost p0 = views(parts@);
                parts.push(x);
                proof {
                    assert(views(parts@) =~= p0.push(x@));
                    assert(views(parts@) =~= vs@.take(i + 1).map_values(
                        |v: (crate::loc::Position, Ident, Vec<crate::ptree::Param>)|
                            maybe_marker(*ctx, v.0) + ident(*ctx, attr, v.1) + crate::expr_spec::params_layout(
                                *ctx,
                                attr,
                                v.2@,
                                Seq::<Layout>::empty(),
                            ),
                    ));
                }
                i += 1;
            }
            assert(vs@.take(i as int) =~= vs@);
            doc.atom(" = ");
            doc.cut();
            let mut v = doc_of("  | ");
            let mut sep = new_doc();
            sep.cut();
            sep.atom("| ");
            v.join_parts(parts, &sep);
            doc.boxed(BoxKind::V, 2, v);
        },
        TypeDef::Range(a, b) => {
            let mut s = String::from_str(" = <range ");
            s.append(crate::big_int::integer_to_string(a).as_str());
            s.append(" ");
            s.append(crate::big_int::integer_to_string(b).as_str());
            s.append(">");
            doc.atom_string(s);
        },
        TypeDef::Float(a, b) => {
            let mut s = String::from_str(" = <float ");
            s.append(text::isize_to_string(*a).as_str());
            s.append(" ");
            s.append(text::isize_to_string(*b).as_str());
            s.append(">");
            doc.atom_string(s);
        },
    }
}

fn pp_type_decl(ctx: &PrintCtx, attr: bool, doc: &mut Doc, d: &TypeDecl)
    requires
        wf_type_decl(*ctx, *d),
    ensures
        final(doc)@ == old(doc)@ + type_decl_layout(*ctx, attr, *d),
{
    let mut h = new_doc();
    pp_maybe_marker(ctx, &mut h, d.loc);
    proof {
        assert(h@ =~= maybe_marker(*ctx, d.loc));
    }
    pp_id(ctx, attr, &mut h, &d.ident);
    pp_ident_list(ctx, attr, &mut h, &d.params);
    pp_type_def(ctx, attr, &mut h, d);
    match &d.wit {
        Some(x) => {
            let mut b = doc_of("by");
            b.space();
            pp_expr_closed(ctx, attr, &mut b, x);
            h.space();
            h.boxed(BoxKind::Hv, 2, b);
        },
        None => {
            assert(h@ =~= h@ + Seq::<Layout>::empty());
        },
    }
    doc.extend(h);
}

// ------------------------------------------------------ logic and inductive

fn pp_logic_decl(ctx: &PrintCtx, attr: bool, doc: &mut Doc, d: &LogicDecl)
    requires
        wf_logic_decl(*d),
    ensures
        final(doc)@ == old(doc)@ + logic_decl_layout(*ctx, attr, *d),
{
    let mut h = new_doc();
    pp_maybe_marker(ctx, &mut h, d.loc);
    proof {
        assert(h@ =~= maybe_marker(*ctx, d.loc));
        reveal_strlit(" ");
    }
    pp_id(ctx, attr, &mut h, &d.ident);
    pp_params(ctx, attr, &mut h, &d.params, " ");
    match &d.ty {
        Some(t) => {
            h.atom(" : ");
            pp_pty_raw(ctx, attr, &mut h, t);
        },
        None => {
            assert(h@ =~= h@ + Seq::<Layout>::empty());
        },
    }
    match &d.def {
        Some(t) => {
            h.atom(" =");
            h.space();
            pp_term(ctx, attr, &mut h, t);
        },
        None => {
            assert(h@ =~= h@ + Seq::<Layout>::empty());
        },
    }
    doc.extend(h);
}

fn pp_ind_decl(ctx: &PrintCtx, attr: bool, doc: &mut Doc, d: &IndDecl)
    requires
        wf_ind_decl(*d),
    ensures
        final(doc)@ == old(doc)@ + ind_decl_layout(*ctx, attr, *d),
{
    let mut parts: Vec<Doc> = Vec::new();
    let mut i: usize = 0;
    while i < d.def.len()
        invariant
            i <= d.def@.len(),
            wf_ind_decl(*d),
            views(parts@) == d.def@.take(i as int).map_values(
                |x: (crate::loc::Position, Ident, crate::ptree::Term)|
                    maybe_marker(*ctx, x.0) + ident(*ctx, attr, x.1) + at(" : "@)
                        + crate::term_spec::term_marked(*ctx, attr, x.2),
            ),
        decreases d.def@.len() - i,
    {
        let mut x = new_doc();
        pp_maybe_marker(ctx, &mut x, d.def[i].0);
        proof {
            assert(x@ =~= maybe_marker(*ctx, d.def@[i as int].0));
        }
        pp_id(ctx, attr, &mut x, &d.def[i].1);
        x.atom(" : ");
        pp_term(ctx, attr, &mut x, &d.def[i].2);
        let ghost p0 = views(parts@);
        parts.push(x);
        proof {
            assert(views(parts@) =~= p0.push(x@));
            assert(views(parts@) =~= d.def@.take(i + 1).map_values(
                |x: (crate::loc::Position, Ident, crate::ptree::Term)|
                    maybe_marker(*ctx, x.0) + ident(*ctx, attr, x.1) + at(" : "@)
                        + crate::term_spec::term_marked(*ctx, attr, x.2),
            ));
        }
        i += 1;
    }
    assert(d.def@.take(i as int) =~= d.def@);
    let mut h = new_doc();
    pp_maybe_marker(ctx, &mut h, d.loc);
    proof {
        assert(h@ =~= maybe_marker(*ctx, d.loc));
        reveal_strlit("");
    }
    pp_id(ctx, attr, &mut h, &d.ident);
    pp_params(ctx, attr, &mut h, &d.params, "");
    h.atom(" = ");
    h.join_parts(parts, &doc_of(" | "));
    doc.extend(h);
}

// ------------------------------------------------------------------ clones

fn pp_subst(ctx: &PrintCtx, attr: bool, doc: &mut Doc, s: &CloneSubst)
    requires
        wf_subst(*s),
    ensures
        final(doc)@ == old(doc)@ + subst_layout(*ctx, attr, *s),
{
    let mut h = new_doc();
    match s {
        CloneSubst::Axiom(q) => {
            h.atom("axiom ");
            pp_qualid(ctx, attr, &mut h, q);
        },
        CloneSubst::Tsym(q, args, t) => {
            h.atom("type ");
            pp_qualid(ctx, attr, &mut h, q);
            pp_ident_list(ctx, attr, &mut h, args);
            h.atom(" = ");
            pp_pty_raw(ctx, attr, &mut h, t);
        },
        CloneSubst::Fsym(q, q2) => {
            h.atom("function ");
            pp_qualid(ctx, attr, &mut h, q);
            h.atom(" = ");
            pp_qualid(ctx, attr, &mut h, q2);
        },
        CloneSubst::Psym(q, q2) => {
            h.atom("predicate ");
            pp_qualid(ctx, attr, &mut h, q);
            h.atom(" = ");
            pp_qualid(ctx, attr, &mut h, q2);
        },
        CloneSubst::Vsym(q, q2) => {
            h.atom("val ");
            pp_qualid(ctx, attr, &mut h, q);
            h.atom(" = ");
            pp_qualid(ctx, attr, &mut h, q2);
        },
        CloneSubst::Xsym(q, q2) => {
            h.atom("exception ");
            pp_qualid(ctx, attr, &mut h, q);
            if !same_qualid_exec(q, q2) {
                h.atom(" = ");
                pp_qualid(ctx, attr, &mut h, q2);
            }
        },
        CloneSubst::Prop(PropKind::Axiom) => h.atom("axiom ."),
        CloneSubst::Prop(PropKind::Lemma) => h.atom("lemma ."),
        CloneSubst::Prop(PropKind::Goal) => h.atom("goal ."),
        CloneSubst::Lemma(q) => {
            h.atom("lemma ");
            pp_qualid(ctx, attr, &mut h, q);
        },
        CloneSubst::Goal(q) => {
            h.atom("goal ");
            pp_qualid(ctx, attr, &mut h, q);
        },
    }
    assert(h@ =~= subst_layout(*ctx, attr, *s));
    doc.extend(h);
}

fn pp_substs(ctx: &PrintCtx, attr: bool, doc: &mut Doc, ss: &Vec<CloneSubst>)
    requires
        wf_substs(ss@),
    ensures
        final(doc)@ == old(doc)@ + substs_layout(*ctx, attr, ss@),
{
    let mut parts: Vec<Doc> = Vec::new();
    let mut i: usize = 0;
    while i < ss.len()
        invariant
            i <= ss@.len(),
            wf_substs(ss@),
            views(parts@) == ss@.take(i as int).map_values(|s: CloneSubst| subst_layout(*ctx, attr, s)),
        decreases ss@.len() - i,
    {
        let mut x = new_doc();
        pp_subst(ctx, attr, &mut x, &ss[i]);
        let ghost p0 = views(parts@);
        parts.push(x);
        proof {
            assert(x@ =~= subst_layout(*ctx, attr, ss@[i as int]));
            assert(views(parts@) =~= p0.push(x@));
            assert(views(parts@) =~= ss@.take(i + 1).map_values(|s: CloneSubst| subst_layout(*ctx, attr, s)));
        }
        i += 1;
    }
    assert(ss@.take(i as int) =~= ss@);
    let mut pre = doc_of(" with");
    pre.space();
    let mut sep = doc_of(",");
    sep.space();
    let e = new_doc();
    doc.opt_list_parts(parts, &pre, &e, &sep, &e, &e);
}

fn pp_metarg(ctx: &PrintCtx, attr: bool, doc: &mut Doc, a: &Metarg)
    requires
        wf_metarg(*a),
    ensures
        final(doc)@ == old(doc)@ + metarg_layout(*ctx, attr, *a),
{
    let mut h = new_doc();
    match a {
        Metarg::Ty(t) => {
            h.atom("type ");
            pp_pty_raw(ctx, attr, &mut h, t);
        },
        Metarg::Str(s) => h.quoted(s.as_str()),
        Metarg::Int(i) => h.atom_string(text::isize_to_string(*i)),
        Metarg::Fs(q) | Metarg::Ps(q) | Metarg::Ax(q) | Metarg::Lm(q) | Metarg::Gl(q) | Metarg::Val(
            q,
        ) => {
            let kw = match a {
                Metarg::Fs(_) => "function ",
                Metarg::Ps(_) => "predicate ",
                Metarg::Ax(_) => "axiom ",
                Metarg::Lm(_) => "lemma ",
                Metarg::Gl(_) => "goal ",
                _ => "val ",
            };
            h.atom(kw);
            pp_qualid(ctx, attr, &mut h, q);
        },
    }
    assert(h@ =~= metarg_layout(*ctx, attr, *a));
    doc.extend(h);
}

fn pp_opt_as(ctx: &PrintCtx, attr: bool, doc: &mut Doc, oid: &Option<Ident>)
    ensures
        final(doc)@ == old(doc)@ + opt_as_layout(*ctx, attr, *oid),
{
    match oid {
        Some(id) => {
            doc.atom(" as ");
            doc.space();
            pp_id(ctx, attr, doc, id);
        },
        None => {
            assert(doc@ =~= doc@ + Seq::<Layout>::empty());
        },
    }
}

} // verus!

verus! {

// ------------------------------------------------------------ declarations

fn pp_withs(doc: &mut Doc, k: BoxKind, parts: Vec<Doc>)
    ensures
        final(doc)@ == old(doc)@ + withs(k, views(parts@)),
{
    let ghost ps = views(parts@);
    let ghost d0 = doc@;
    let n = parts.len();
    let mut parts = parts;
    let mut i: usize = 0;
    while parts.len() > 0
        invariant
            i + parts@.len() == n,
            n == ps.len(),
            views(parts@) =~= ps.subrange(i as int, n as int),
            doc@ == d0 + withs(k, ps.take(i as int)),
        decreases parts@.len(),
    {
        let ghost before = parts@;
        let d = parts.remove(0);
        proof {
            assert(parts@ =~= before.subrange(1, before.len() as int));
            assert(views(parts@) =~= views(before).subrange(1, before.len() as int));
            assert(d@ == views(before)[0]);
            assert(d@ == ps[i as int]);
        }
        let mut w = doc_of("with ");
        w.extend(d);
        doc.space();
        doc.boxed(k, 2, w);
        proof {
            let f = |p: Seq<Layout>| crate::doc::sp() + crate::doc::bx(k, 2, at("with "@) + p);
            let m1 = ps.take(i + 1).map_values(f);
            let m0 = ps.take(i as int).map_values(f);
            assert(m1.drop_last() =~= m0);
            assert(m1.last() == crate::doc::sp() + crate::doc::bx(k, 2, at("with "@) + ps[i as int]));
            assert(concat(m1) == concat(m0) + m1.last());
            assert(doc@ =~= d0 + withs(k, ps.take(i + 1)));
        }
        i += 1;
    }
    assert(ps.take(i as int) =~= ps);
}

fn split_first(parts: Vec<Doc>) -> (r: (Doc, Vec<Doc>))
    requires
        parts@.len() > 0,
    ensures
        r.0@ == views(parts@)[0],
        views(r.1@) == views(parts@).skip(1),
{
    let ghost before = parts@;
    let mut parts = parts;
    let d = parts.remove(0);
    proof {
        assert(parts@ =~= before.subrange(1, before.len() as int));
        assert(views(parts@) =~= views(before).skip(1));
    }
    (d, parts)
}

fn pp_with_chain(doc: &mut Doc, kw: &str, k: BoxKind, parts: Vec<Doc>)
    requires
        parts@.len() > 0,
    ensures
        final(doc)@ == old(doc)@ + with_chain(kw@, k, views(parts@)),
{
    let (first, rest) = split_first(parts);
    let mut h = doc_of(kw);
    h.extend(first);
    doc.boxed(k, 2, h);
    pp_withs(doc, k, rest);
}

fn pp_type_decls(ctx: &PrintCtx, attr: bool, ds: &Vec<TypeDecl>) -> (r: Vec<Doc>)
    requires
        forall|i: int| 0 <= i < ds@.len() ==> wf_type_decl(*ctx, #[trigger] ds@[i]),
    ensures
        views(r@) == ds@.map_values(|t: TypeDecl| type_decl_layout(*ctx, attr, t)),
        r@.len() == ds@.len(),
{
    let mut parts: Vec<Doc> = Vec::new();
    let mut i: usize = 0;
    while i < ds.len()
        invariant
            i <= ds@.len(),
            parts@.len() == i,
            forall|k: int| 0 <= k < ds@.len() ==> wf_type_decl(*ctx, #[trigger] ds@[k]),
            views(parts@) == ds@.take(i as int).map_values(|t: TypeDecl| type_decl_layout(*ctx, attr, t)),
        decreases ds@.len() - i,
    {
        let mut x = new_doc();
        pp_type_decl(ctx, attr, &mut x, &ds[i]);
        let ghost p0 = views(parts@);
        parts.push(x);
        proof {
            assert(x@ =~= type_decl_layout(*ctx, attr, ds@[i as int]));
            assert(views(parts@) =~= p0.push(x@));
            assert(views(parts@) =~= ds@.take(i + 1).map_values(|t: TypeDecl| type_decl_layout(*ctx, attr, t)));
        }
        i += 1;
    }
    assert(ds@.take(i as int) =~= ds@);
    parts
}

fn pp_logic_decls(ctx: &PrintCtx, attr: bool, ds: &Vec<LogicDecl>) -> (r: Vec<Doc>)
    requires
        forall|i: int| 0 <= i < ds@.len() ==> wf_logic_decl(#[trigger] ds@[i]),
    ensures
        views(r@) == ds@.map_values(|l: LogicDecl| logic_decl_layout(*ctx, attr, l)),
        r@.len() == ds@.len(),
{
    let mut parts: Vec<Doc> = Vec::new();
    let mut i: usize = 0;
    while i < ds.len()
        invariant
            i <= ds@.len(),
            parts@.len() == i,
            forall|k: int| 0 <= k < ds@.len() ==> wf_logic_decl(#[trigger] ds@[k]),
            views(parts@) == ds@.take(i as int).map_values(|l: LogicDecl| logic_decl_layout(*ctx, attr, l)),
        decreases ds@.len() - i,
    {
        let mut x = new_doc();
        pp_logic_decl(ctx, attr, &mut x, &ds[i]);
        let ghost p0 = views(parts@);
        parts.push(x);
        proof {
            assert(x@ =~= logic_decl_layout(*ctx, attr, ds@[i as int]));
            assert(views(parts@) =~= p0.push(x@));
            assert(views(parts@) =~= ds@.take(i + 1).map_values(|l: LogicDecl| logic_decl_layout(*ctx, attr, l)));
        }
        i += 1;
    }
    assert(ds@.take(i as int) =~= ds@);
    parts
}

fn pp_ind_decls(ctx: &PrintCtx, attr: bool, ds: &Vec<IndDecl>) -> (r: Vec<Doc>)
    requires
        forall|i: int| 0 <= i < ds@.len() ==> wf_ind_decl(#[trigger] ds@[i]),
    ensures
        views(r@) == ds@.map_values(|d: IndDecl| ind_decl_layout(*ctx, attr, d)),
        r@.len() == ds@.len(),
{
    let mut parts: Vec<Doc> = Vec::new();
    let mut i: usize = 0;
    while i < ds.len()
        invariant
            i <= ds@.len(),
            parts@.len() == i,
            forall|k: int| 0 <= k < ds@.len() ==> wf_ind_decl(#[trigger] ds@[k]),
            views(parts@) == ds@.take(i as int).map_values(|d: IndDecl| ind_decl_layout(*ctx, attr, d)),
        decreases ds@.len() - i,
    {
        let mut x = new_doc();
        pp_ind_decl(ctx, attr, &mut x, &ds[i]);
        let ghost p0 = views(parts@);
        parts.push(x);
        proof {
            assert(x@ =~= ind_decl_layout(*ctx, attr, ds@[i as int]));
            assert(views(parts@) =~= p0.push(x@));
            assert(views(parts@) =~= ds@.take(i + 1).map_values(|d: IndDecl| ind_decl_layout(*ctx, attr, d)));
        }
        i += 1;
    }
    assert(ds@.take(i as int) =~= ds@);
    parts
}

fn pp_rec_decls(ctx: &PrintCtx, attr: bool, doc: &mut Doc, ds: &Vec<crate::ptree::Fundef>)
    requires
        ds@.len() > 0,
        wf_fundefs(*ctx, ds@),
    ensures
        final(doc)@ == old(doc)@ + {
            let parts = fundefs_parts(*ctx, attr, ds@);
            crate::mlw_spec::vb(
                0,
                crate::mlw_spec::vb(2, at("let rec "@) + parts[0]) + withs(BoxKind::Hv, parts.skip(1)),
            )
        },
{
    let mut parts: Vec<Doc> = Vec::new();
    let mut i: usize = 0;
    while i < ds.len()
        invariant
            i <= ds@.len(),
            parts@.len() == i,
            wf_fundefs(*ctx, ds@),
            views(parts@) == fundefs_parts(*ctx, attr, ds@.take(i as int)),
        decreases ds@.len() - i,
    {
        proof {
            lemma_wf_fundefs_at(*ctx, ds@, i as int);
            assert(ds@.take(i + 1).drop_last() =~= ds@.take(i as int));
        }
        let mut x = new_doc();
        pp_fundef(ctx, attr, &mut x, &ds[i]);
        let ghost p0 = views(parts@);
        parts.push(x);
        proof {
            assert(x@ =~= crate::expr_spec::fundef_layout(*ctx, attr, ds@[i as int]));
            assert(views(parts@) =~= p0.push(x@));
        }
        i += 1;
    }
    assert(ds@.take(i as int) =~= ds@);
    let (first, rest) = split_first(parts);
    let mut v = doc_of("let rec ");
    v.extend(first);
    let mut h = new_doc();
    h.boxed(BoxKind::V, 2, v);
    pp_withs(&mut h, BoxKind::Hv, rest);
    doc.boxed(BoxKind::V, 0, h);
}

proof fn lemma_wf_fundefs_at(c: PrintCtx, ds: Seq<crate::ptree::Fundef>, i: int)
    requires
        wf_fundefs(c, ds),
        0 <= i < ds.len(),
    ensures
        crate::expr_spec::wf_fundef(c, ds[i]),
    decreases ds.len(),
{
    if i < ds.len() - 1 {
        lemma_wf_fundefs_at(c, ds.drop_last(), i);
    }
}

} // verus!

verus! {

fn prop_keyword_str(k: PropKind) -> (s: &'static str)
    ensures
        s@ == prop_keyword(k),
{
    match k {
        PropKind::Lemma => "lemma",
        PropKind::Axiom => "axiom",
        PropKind::Goal => "goal",
    }
}

fn ind_keyword_str(s: IndSign) -> (r: &'static str)
    ensures
        r@ == ind_keyword(s),
{
    match s {
        IndSign::Ind => "inductive",
        IndSign::Coind => "coinductive",
    }
}

fn is_module_decl_exec(d: &Decl) -> (b: bool)
    ensures
        b == is_module_decl(*d),
{
    match d {
        Decl::Useimport(_, _, _) | Decl::Useexport(_, _) | Decl::Cloneimport(_, _, _, _, _)
        | Decl::Cloneexport(_, _, _) | Decl::Import(_) => true,
        _ => false,
    }
}

fn pp_decl_logics(ctx: &PrintCtx, attr: bool, doc: &mut Doc, d: &Decl)
    requires
        wf_decl(*ctx, *d),
        d is Type || d is Logic || d is Ind || d is Prop || d is Rec || d is Exn,
    ensures
        final(doc)@ == old(doc)@ + decl_layout(*ctx, attr, *d),
{
    match d {
        Decl::Type(_) => pp_decl_type(ctx, attr, doc, d),
        Decl::Logic(_) => pp_decl_logic(ctx, attr, doc, d),
        Decl::Ind(_, _) => pp_decl_ind(ctx, attr, doc, d),
        Decl::Prop(_, _, _) => pp_decl_prop(ctx, attr, doc, d),
        Decl::Rec(_) => pp_decl_let_rec(ctx, attr, doc, d),
        Decl::Exn(_, _, _) => pp_decl_exn(ctx, attr, doc, d),
        _ => {},
    }
}

fn pp_decl_type(ctx: &PrintCtx, attr: bool, doc: &mut Doc, d: &Decl)
    requires
        wf_decl(*ctx, *d),
        d is Type,
    ensures
        final(doc)@ == old(doc)@ + decl_layout(*ctx, attr, *d),
{
    match d {
        Decl::Type(ds) => {
            let parts = pp_type_decls(ctx, attr, ds);
            let ghost ps = views(parts@);
            pp_with_chain(doc, "type ", BoxKind::V, parts);
            proof {
                assert(ps =~= ds@.map_values(|t: TypeDecl| type_decl_layout(*ctx, attr, t)));
                assert(decl_layout(*ctx, attr, *d) == with_chain("type "@, BoxKind::V, ps));
                assert(doc@ == old(doc)@ + with_chain("type "@, BoxKind::V, ps));
            }
        },
        _ => {},
    }
}

fn pp_decl_logic(ctx: &PrintCtx, attr: bool, doc: &mut Doc, d: &Decl)
    requires
        wf_decl(*ctx, *d),
        d is Logic,
    ensures
        final(doc)@ == old(doc)@ + decl_layout(*ctx, attr, *d),
{
    match d {
        Decl::Logic(ds) => {
            let parts = pp_logic_decls(ctx, attr, ds);
            let kw = if ds[0].ty.is_none() {
                "predicate "
            } else {
                "function "
            };
            pp_with_chain(doc, kw, BoxKind::Hv, parts);
        },
        _ => {},
    }
}

fn pp_decl_ind(ctx: &PrintCtx, attr: bool, doc: &mut Doc, d: &Decl)
    requires
        wf_decl(*ctx, *d),
        d is Ind,
    ensures
        final(doc)@ == old(doc)@ + decl_layout(*ctx, attr, *d),
{
    match d {
        Decl::Ind(sign, ds) => {
            let parts = pp_ind_decls(ctx, attr, ds);
            let (first, rest) = split_first(parts);
            let ghost fv = first@;
            let ghost rv = views(rest@);
            let mut h = new_doc();
            h.atom_string(text::concat(ind_keyword_str(*sign), " "));
            h.extend(first);
            pp_withs(&mut h, BoxKind::Hv, rest);
            proof {
                assert(h@ =~= at(ind_keyword(*sign) + " "@) + fv + withs(BoxKind::Hv, rv));
            }
            doc.boxed(BoxKind::Hv, 2, h);
        },
        _ => {},
    }
}

fn pp_decl_prop(ctx: &PrintCtx, attr: bool, doc: &mut Doc, d: &Decl)
    requires
        wf_decl(*ctx, *d),
        d is Prop,
    ensures
        final(doc)@ == old(doc)@ + decl_layout(*ctx, attr, *d),
{
    match d {
        Decl::Prop(k, id, t) => {
            let mut h = new_doc();
            h.atom_string(text::concat(prop_keyword_str(*k), " "));
            pp_id_rm(ctx, attr, &mut h, id, Some("useraxiom"));
            h.atom(":");
            h.space();
            pp_term(ctx, attr, &mut h, t);
            doc.boxed(BoxKind::Hv, 2, h);
        },
        _ => {},
    }
}

fn pp_decl_let_rec(ctx: &PrintCtx, attr: bool, doc: &mut Doc, d: &Decl)
    requires
        wf_decl(*ctx, *d),
        d is Rec,
    ensures
        final(doc)@ == old(doc)@ + decl_layout(*ctx, attr, *d),
{
    match d {
        Decl::Rec(ds) => pp_rec_decls(ctx, attr, doc, ds),
        _ => {},
    }
}

fn pp_decl_exn(ctx: &PrintCtx, attr: bool, doc: &mut Doc, d: &Decl)
    requires
        wf_decl(*ctx, *d),
        d is Exn,
    ensures
        final(doc)@ == old(doc)@ + decl_layout(*ctx, attr, *d),
{
    match d {
        Decl::Exn(id, t, m) => pp_exn(ctx, attr, doc, id, t, m),
        _ => {},
    }
}


fn pp_decl_lets(ctx: &PrintCtx, attr: bool, doc: &mut Doc, d: &Decl)
    requires
        wf_decl(*ctx, *d),
        d is Let || d is Meta,
    ensures
        final(doc)@ == old(doc)@ + decl_layout(*ctx, attr, *d),
{
    match d {
        Decl::Let(id, g, k, e) => match &e.desc {
            ExprDesc::Fun(bs, t, p, m, s, body) => pp_let_fun(
                ctx,
                attr,
                doc,
                e.loc,
                id,
                *g,
                *k,
                bs,
                t,
                p,
                m,
                s,
                body,
            ),
            ExprDesc::Any(ps, k2, t, p, m, s) => pp_let_any(
                ctx,
                attr,
                doc,
                e.loc,
                id,
                *g,
                *k,
                ps,
                *k2,
                t,
                p,
                m,
                s,
            ),
            _ => pp_elet(ctx, attr, doc, id, *g, *k, e),
        },
        Decl::Meta(id, args) => {
            let mut parts: Vec<Doc> = Vec::new();
            let mut i: usize = 0;
            while i < args.len()
                invariant
                    i <= args@.len(),
                    forall|k: int| 0 <= k < args@.len() ==> wf_metarg(#[trigger] args@[k]),
                    views(parts@) == args@.take(i as int).map_values(|a: Metarg| metarg_layout(*ctx, attr, a)),
                decreases args@.len() - i,
            {
                let mut x = new_doc();
                pp_metarg(ctx, attr, &mut x, &args[i]);
                let ghost p0 = views(parts@);
                parts.push(x);
                proof {
                    assert(x@ =~= metarg_layout(*ctx, attr, args@[i as int]));
                    assert(views(parts@) =~= p0.push(x@));
                    assert(views(parts@) =~= args@.take(i + 1).map_values(|a: Metarg| metarg_layout(*ctx, attr, a)));
                }
                i += 1;
            }
            assert(args@.take(i as int) =~= args@);
            let mut h = doc_of("meta \"");
            pp_id(ctx, attr, &mut h, id);
            h.atom("\" ");
            h.join_parts(parts, &doc_of(", "));
            doc.extend(h);
        },
        _ => {},
    }
}

fn pp_decl_modules(ctx: &PrintCtx, attr: bool, doc: &mut Doc, d: &Decl)
    requires
        wf_decl(*ctx, *d),
        is_module_decl(*d),
    ensures
        final(doc)@ == old(doc)@ + decl_layout(*ctx, attr, *d),
{
    match d {
        Decl::Cloneexport(_, q, ss) => {
            let mut h = doc_of("clone export ");
            pp_qualid(ctx, attr, &mut h, q);
            pp_substs(ctx, attr, &mut h, ss);
            doc.boxed(BoxKind::Hv, 2, h);
        },
        Decl::Useexport(loc, q) => {
            let mut h = new_doc();
            pp_maybe_marker(ctx, &mut h, *loc);
            proof {
                assert(h@ =~= maybe_marker(*ctx, *loc));
            }
            h.atom("use export ");
            pp_qualid(ctx, attr, &mut h, q);
            doc.boxed(BoxKind::Hv, 2, h);
        },
        Decl::Cloneimport(loc, imp, q, oid, ss) => {
            let mut h = new_doc();
            pp_maybe_marker(ctx, &mut h, *loc);
            proof {
                assert(h@ =~= maybe_marker(*ctx, *loc));
            }
            h.atom("clone");
            pp_import(&mut h, *imp);
            h.atom(" ");
            pp_qualid(ctx, attr, &mut h, q);
            pp_opt_as(ctx, attr, &mut h, oid);
            pp_substs(ctx, attr, &mut h, ss);
            doc.boxed(BoxKind::Hv, 2, h);
        },
        Decl::Useimport(loc, imp, binds) => {
            let mut parts: Vec<Doc> = Vec::new();
            let mut i: usize = 0;
            while i < binds.len()
                invariant
                    i <= binds@.len(),
                    forall|k: int| 0 <= k < binds@.len() ==> crate::decl_spec::wf_qualid((#[trigger] binds@[k]).0),
                    views(parts@) == binds@.take(i as int).map_values(
                        |b: (Qualid, Option<Ident>)| qualid(*ctx, attr, b.0) + opt_as_layout(*ctx, attr, b.1),
                    ),
                decreases binds@.len() - i,
            {
                let mut x = new_doc();
                pp_qualid(ctx, attr, &mut x, &binds[i].0);
                proof {
                    assert(x@ =~= qualid(*ctx, attr, binds@[i as int].0));
                }
                pp_opt_as(ctx, attr, &mut x, &binds[i].1);
                let ghost p0 = views(parts@);
                parts.push(x);
                proof {
                    assert(views(parts@) =~= p0.push(x@));
                    assert(views(parts@) =~= binds@.take(i + 1).map_values(
                        |b: (Qualid, Option<Ident>)| qualid(*ctx, attr, b.0) + opt_as_layout(*ctx, attr, b.1),
                    ));
                }
                i += 1;
            }
            assert(binds@.take(i as int) =~= binds@);
            let mut h = new_doc();
            pp_maybe_marker(ctx, &mut h, *loc);
            proof {
                assert(h@ =~= maybe_marker(*ctx, *loc));
            }
            h.atom("use");
            pp_import(&mut h, *imp);
            let e = new_doc();
            h.opt_list_parts(parts, &doc_of(" "), &e, &doc_of(", "), &e, &e);
            doc.boxed(BoxKind::Hv, 2, h);
        },
        Decl::Import(q) => {
            let mut h = doc_of("import ");
            pp_qualid(ctx, attr, &mut h, q);
            doc.boxed(BoxKind::Hv, 2, h);
        },
        _ => {},
    }
}

fn pp_import(doc: &mut Doc, i: bool)
    ensures
        final(doc)@ == old(doc)@ + import_layout(i),
{
    if i {
        doc.atom(" import");
    } else {
        assert(doc@ =~= doc@ + import_layout(i));
    }
}

fn pp_decl_rec(ctx: &PrintCtx, attr: bool, doc: &mut Doc, d: &Decl)
    requires
        wf_decl(*ctx, *d),
    ensures
        final(doc)@ == old(doc)@ + decl_layout(*ctx, attr, *d),
    decreases d, 1nat,
{
    match d {
        Decl::Type(_) | Decl::Logic(_) | Decl::Ind(_, _) | Decl::Prop(_, _, _) | Decl::Rec(_)
        | Decl::Exn(_, _, _) => pp_decl_logics(ctx, attr, doc, d),
        Decl::Let(_, _, _, _) | Decl::Meta(_, _) => pp_decl_lets(ctx, attr, doc, d),
        Decl::Scope(loc, export, id, ds) => {
            let mut h = new_doc();
            pp_maybe_marker(ctx, &mut h, *loc);
            proof {
                assert(h@ =~= maybe_marker(*ctx, *loc));
            }
            h.atom("scope");
            if *export {
                h.atom(" export");
            } else {
                assert(h@ =~= h@ + Seq::<Layout>::empty());
            }
            h.atom(" ");
            pp_id(ctx, attr, &mut h, id);
            h.space();
            let entries = pp_decl_entries(ctx, attr, ds);
            h.join_parts(entries, &newline_doc());
            let mut v = new_doc();
            v.boxed(BoxKind::V, 2, h);
            v.cut();
            v.atom("end");
            doc.boxed(BoxKind::V, 2, v);
        },
        _ => pp_decl_modules(ctx, attr, doc, d),
    }
}

fn newline_doc() -> (d: Doc)
    ensures
        d@ == crate::doc::nl(),
{
    let mut d = new_doc();
    d.newline();
    d
}

proof fn lemma_wf_decls_index(c: PrintCtx, ds: Seq<Decl>, i: int)
    requires
        wf_decls(c, ds),
        0 <= i < ds.len(),
    ensures
        wf_decl(c, ds[i]),
    decreases ds.len(),
{
    if i < ds.len() - 1 {
        lemma_wf_decls_index(c, ds.drop_last(), i);
    }
}

fn pp_decl_entries(ctx: &PrintCtx, attr: bool, ds: &Vec<Decl>) -> (r: Vec<Doc>)
    requires
        wf_decls(*ctx, ds@),
    ensures
        views(r@) == decl_entries(*ctx, attr, ds@),
    decreases ds, 0nat,
{
    let mut r: Vec<Doc> = Vec::new();
    let mut i: usize = 0;
    while i < ds.len()
        invariant
            i <= ds@.len(),
            wf_decls(*ctx, ds@),
            views(r@) == decl_entries(*ctx, attr, ds@.take(i as int)),
        decreases ds@.len() - i,
    {
        proof {
            lemma_wf_decls_index(*ctx, ds@, i as int);
            assert(ds@.take(i + 1).drop_last() =~= ds@.take(i as int));
        }
        assert(decreases_to!(ds => ds@[i as int]));
        let ghost r0 = views(r@);
        let blank = i > 0 && !(is_module_decl_exec(&ds[i - 1]) && is_module_decl_exec(&ds[i]));
        if blank {
            r.push(new_doc());
        }
        let ghost r1 = views(r@);
        let mut d = new_doc();
        pp_decl_rec(ctx, attr, &mut d, &ds[i]);
        r.push(d);
        proof {
            let t = ds@.take(i + 1);
            assert(t[i as int] == ds@[i as int]);
            if i > 0 {
                assert(t[i - 1] == ds@[i - 1]);
            }
            if blank {
                assert(r1 =~= r0 + seq![Seq::<Layout>::empty()]);
            } else {
                assert(r1 =~= r0 + Seq::<Seq<Layout>>::empty());
            }
            assert(d@ =~= decl_layout(*ctx, attr, ds@[i as int]));
            assert(views(r@) =~= r1.push(d@));
            assert(views(r@) =~= decl_entries(*ctx, attr, t));
        }
        i += 1;
    }
    proof {
        assert(ds@.take(i as int) =~= ds@);
    }
    r
}

/// Whether attributes are printed: yes, unless said otherwise.
pub open spec fn attrs_shown(attr: Option<bool>) -> bool {
    match attr {
        Some(a) => a,
        None => true,
    }
}

fn attrs_shown_exec(attr: Option<bool>) -> (a: bool)
    ensures
        a == attrs_shown(attr),
{
    match attr {
        Some(a) => a,
        None => true,
    }
}

/// Prints a declaration, with its attributes unless `attr` is `Some(false)`.
pub fn pp_decl(ctx: &PrintCtx, attr: Option<bool>, doc: &mut Doc, d: &Decl)
    requires
        wf_decl(*ctx, *d),
    ensures
        final(doc)@ == old(doc)@ + decl_layout(*ctx, attrs_shown(attr), *d),
{
    pp_decl_rec(ctx, attrs_shown_exec(attr), doc, d);
}

/// Prints declarations, one per line, with an empty line before each but the
/// first, except between two imports of modules.
pub fn pp_decls(ctx: &PrintCtx, attr: bool, doc: &mut Doc, ds: &Vec<Decl>)
    requires
        wf_decls(*ctx, ds@),
    ensures
        final(doc)@ == old(doc)@ + decls_layout(*ctx, attr, ds@),
{
    let entries = pp_decl_entries(ctx, attr, ds);
    doc.join_parts(entries, &newline_doc());
}

/// Prints a file of WhyML: its modules, or its declarations; with the
/// attributes unless `attr` is `Some(false)`.
pub fn pp_mlw_file(ctx: &PrintCtx, attr: Option<bool>, doc: &mut Doc, f: &MlwFile)
    requires
        wf_mlw_file(*ctx, *f),
    ensures
        final(doc)@ == old(doc)@ + mlw_file_layout(*ctx, attrs_shown(attr), *f),
{
    let attr = attrs_shown_exec(attr);
    match f {
        MlwFile::Decls(ds) => pp_decls(ctx, attr, doc, ds),
        MlwFile::Modules(ms) => {
            let mut parts: Vec<Doc> = Vec::new();
            let mut i: usize = 0;
            while i < ms.len()
                invariant
                    i <= ms@.len(),
                    forall|k: int| 0 <= k < ms@.len() ==> wf_decls(*ctx, (#[trigger] ms@[k]).1@),
                    views(parts@) == ms@.take(i as int).map_values(|m: (Ident, Vec<Decl>)| module_layout(*ctx, attr, m)),
                decreases ms@.len() - i,
            {
                let mut v = doc_of("module ");
                pp_id(ctx, attr, &mut v, &ms[i].0);
                v.space();
                pp_decls(ctx, attr, &mut v, &ms[i].1);
                let mut h = new_doc();
                h.boxed(BoxKind::V, 2, v);
                h.space();
                h.atom("end");
                let mut x = new_doc();
                x.boxed(BoxKind::V, 0, h);
                let ghost p0 = views(parts@);
                parts.push(x);
                proof {
                    assert(x@ =~= module_layout(*ctx, attr, ms@[i as int]));
                    assert(views(parts@) =~= p0.push(x@));
                    assert(views(parts@) =~= ms@.take(i + 1).map_values(|m: (Ident, Vec<Decl>)| module_layout(*ctx, attr, m)));
                }
                i += 1;
            }
            assert(ms@.take(i as int) =~= ms@);
            let mut sep = newline_doc();
            sep.newline();
            let mut v = new_doc();
            v.join_parts(parts, &sep);
            doc.boxed(BoxKind::V, 0, v);
        },
    }
}

} // verus!
