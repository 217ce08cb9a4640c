//! The layout of declarations and files that the printer produces, and the
//! declarations that it prints without failing.

use vstd::prelude::*;

use crate::decl::{IndSign, PropKind};
use crate::doc::{at, cut, join, nl, opt_list, sp, Layout};
use crate::expr_spec::{
    concat, elet_layout, exn_layout, expr_closed, fundef_layout, invariants_layout,
    let_any_layout, let_fun_layout, params_layout, wf_expr, wf_fundefs, wf_invariants,
    wf_let_any, wf_let_fun, wf_params, wf_pty_mask,
};
use crate::mlw_printer::PrintCtx;
use crate::mlw_spec::{
    empty, ghost_layout, hv, ident, ident_rm, import_layout, maybe_marker, mutable_layout, pty_raw,
    qualid, vb, wf_pty,
};
use crate::ptree::{
    CloneSubst, Decl, ExprDesc, Field, IndDecl, Ident, LogicDecl, Metarg, MlwFile, Qualid, TypeDecl,
    TypeDef, Visibility,
};
use crate::term_spec::{same_ident, term_marked, wf_term};
use crate::text::decimal;

verus! {

/// Two qualified identifiers are the same, locations included.
pub open spec fn same_qualid(a: Qualid, b: Qualid) -> bool {
    a.0@.len() == b.0@.len() && forall|i: int|
        0 <= i < a.0@.len() ==> same_ident(#[trigger] a.0@[i], b.0@[i])
}

pub open spec fn wf_qualid(q: Qualid) -> bool {
    q.0@.len() > 0
}

// ------------------------------------------------------------- type decls

pub open spec fn vis_text(v: Visibility) -> Seq<char> {
    match v {
        Visibility::Public => ""@,
        Visibility::Private => "private "@,
        Visibility::Abstract => "abstract "@,
    }
}

pub open spec fn field_decl_layout(c: PrintCtx, attr: bool, f: Field) -> Seq<Layout> {
    hv(
        2,
        maybe_marker(c, f.loc) + mutable_layout(f.mutable) + ghost_layout(f.is_ghost) + ident(
            c,
            attr,
            f.ident,
        ) + at(" :"@) + sp() + pty_raw(c, attr, f.pty),
    )
}

/// Whether a record type is abstract, immutable and without fields, so that
/// it has no definition to print.
pub open spec fn is_bare_record(d: TypeDecl) -> bool {
    d.def matches TypeDef::Record(fs) && fs@.len() == 0 && d.vis == Visibility::Abstract
        && !d.mutable
}

pub open spec fn type_def_layout(c: PrintCtx, attr: bool, d: TypeDecl) -> Seq<Layout> {
    match d.def {
        TypeDef::Alias(t) => at(" = "@) + pty_raw(c, attr, t),
        TypeDef::Record(fs) => if is_bare_record(d) {
            empty()
        } else {
            hv(
                2,
                at(" = "@ + vis_text(d.vis)) + mutable_layout(d.mutable) + at("{"@) + sp() + join(
                    fs@.map_values(|f: Field| field_decl_layout(c, attr, f)),
                    at(";"@) + sp(),
                ) + sp() + at("}"@),
            ) + invariants_layout(c, attr, d.inv@)
        },
        TypeDef::Algebraic(vs) => at(" = "@) + cut() + vb(
            2,
            at("  | "@) + join(
                vs@.map_values(
                    |v: (crate::loc::Position, Ident, Vec<crate::ptree::Param>)|
                        maybe_marker(c, v.0) + ident(c, attr, v.1) + params_layout(
                            c,
                            attr,
                            v.2@,
                            empty(),
                        ),
                ),
                cut() + at("| "@),
            ),
        ),
        TypeDef::Range(a, b) => at(
            " = <range "@ + decimal(crate::big_int::int_value(a)) + " "@ + decimal(
                crate::big_int::int_value(b),
            ) + ">"@,
        ),
        TypeDef::Float(a, b) => at(" = <float "@ + decimal(a as int) + " "@ + decimal(b as int) + ">"@),
    }
}

pub open spec fn type_decl_layout(c: PrintCtx, attr: bool, d: TypeDecl) -> Seq<Layout> {
    maybe_marker(c, d.loc) + ident(c, attr, d.ident) + opt_list(
        empty(),
        at(" '"@),
        empty(),
        empty(),
        empty(),
        d.params@.map_values(|id: Ident| ident(c, attr, id)),
    ) + type_def_layout(c, attr, d) + match d.wit {
        Some(x) => sp() + hv(2, at("by"@) + sp() + expr_closed(c, attr, x)),
        None => empty(),
    }
}

pub open spec fn wf_type_decl(c: PrintCtx, d: TypeDecl) -> bool {
    &&& match d.def {
        TypeDef::Alias(t) => wf_pty(t),
        TypeDef::Record(fs) => is_bare_record(d) || (wf_invariants(d.inv@) && forall|i: int|
            0 <= i < fs@.len() ==> wf_pty((#[trigger] fs@[i]).pty)),
        TypeDef::Algebraic(vs) => forall|i: int| 0 <= i < vs@.len() ==> wf_params((#[trigger] vs@[i]).2@),
        _ => true,
    }
    &&& match d.wit {
        Some(x) => wf_expr(c, x),
        None => true,
    }
}

// ------------------------------------------------------ logic and inductive

pub open spec fn logic_decl_layout(c: PrintCtx, attr: bool, d: LogicDecl) -> Seq<Layout> {
    maybe_marker(c, d.loc) + ident(c, attr, d.ident) + params_layout(c, attr, d.params@, at(" "@))
        + match d.ty {
        Some(t) => at(" : "@) + pty_raw(c, attr, t),
        None => empty(),
    } + match d.def {
        Some(t) => at(" ="@) + sp() + term_marked(c, attr, t),
        None => empty(),
    }
}

pub open spec fn wf_logic_decl(d: LogicDecl) -> bool {
    &&& wf_params(d.params@)
    &&& match d.ty {
        Some(t) => wf_pty(t),
        None => true,
    }
    &&& match d.def {
        Some(t) => wf_term(t),
        None => true,
    }
}

pub open spec fn ind_decl_layout(c: PrintCtx, attr: bool, d: IndDecl) -> Seq<Layout> {
    maybe_marker(c, d.loc) + ident(c, attr, d.ident) + params_layout(c, attr, d.params@, empty())
        + at(" = "@) + join(
        d.def@.map_values(
            |x: (crate::loc::Position, Ident, crate::ptree::Term)|
                maybe_marker(c, x.0) + ident(c, attr, x.1) + at(" : "@) + term_marked(c, attr, x.2),
        ),
        at(" | "@),
    )
}

pub open spec fn wf_ind_decl(d: IndDecl) -> bool {
    wf_params(d.params@) && forall|i: int| 0 <= i < d.def@.len() ==> wf_term((#[trigger] d.def@[i]).2)
}

// ------------------------------------------------------------------ clones

pub open spec fn subst_layout(c: PrintCtx, attr: bool, s: CloneSubst) -> Seq<Layout> {
    match s {
        CloneSubst::Axiom(q) => at("axiom "@) + qualid(c, attr, q),
        CloneSubst::Tsym(q, args, t) => at("type "@) + qualid(c, attr, q) + opt_list(
            empty(),
            at(" '"@),
            empty(),
            empty(),
            empty(),
            args@.map_values(|id: Ident| ident(c, attr, id)),
        ) + at(" = "@) + pty_raw(c, attr, t),
        CloneSubst::Fsym(q, q2) => at("function "@) + qualid(c, attr, q) + at(" = "@) + qualid(c, attr, q2),
        CloneSubst::Psym(q, q2) => at("predicate "@) + qualid(c, attr, q) + at(" = "@) + qualid(c, attr, q2),
        CloneSubst::Vsym(q, q2) => at("val "@) + qualid(c, attr, q) + at(" = "@) + qualid(c, attr, q2),
        CloneSubst::Xsym(q, q2) => if same_qualid(q, q2) {
            at("exception "@) + qualid(c, attr, q)
        } else {
            at("exception "@) + qualid(c, attr, q) + at(" = "@) + qualid(c, attr, q2)
        },
        CloneSubst::Prop(PropKind::Axiom) => at("axiom ."@),
        CloneSubst::Prop(PropKind::Lemma) => at("lemma ."@),
        CloneSubst::Prop(PropKind::Goal) => at("goal ."@),
        CloneSubst::Lemma(q) => at("lemma "@) + qualid(c, attr, q),
        CloneSubst::Goal(q) => at("goal "@) + qualid(c, attr, q),
    }
}

pub open spec fn wf_subst(s: CloneSubst) -> bool {
    match s {
        CloneSubst::Axiom(q) | CloneSubst::Lemma(q) | CloneSubst::Goal(q) => wf_qualid(q),
        CloneSubst::Tsym(q, _, t) => wf_qualid(q) && wf_pty(t),
        CloneSubst::Fsym(q, q2) | CloneSubst::Psym(q, q2) | CloneSubst::Vsym(q, q2)
        | CloneSubst::Xsym(q, q2) => wf_qualid(q) && wf_qualid(q2),
        CloneSubst::Prop(_) => true,
    }
}

pub open spec fn substs_layout(c: PrintCtx, attr: bool, ss: Seq<CloneSubst>) -> Seq<Layout> {
    opt_list(
        at(" with"@) + sp(),
        empty(),
        at(","@) + sp(),
        empty(),
        empty(),
        ss.map_values(|s: CloneSubst| subst_layout(c, attr, s)),
    )
}

pub open spec fn wf_substs(ss: Seq<CloneSubst>) -> bool {
    forall|i: int| 0 <= i < ss.len() ==> wf_subst(#[trigger] ss[i])
}

pub open spec fn metarg_layout(c: PrintCtx, attr: bool, a: Metarg) -> Seq<Layout> {
    match a {
        Metarg::Ty(t) => at("type "@) + pty_raw(c, attr, t),
        Metarg::Fs(q) => at("function "@) + qualid(c, attr, q),
        Metarg::Ps(q) => at("predicate "@) + qualid(c, attr, q),
        Metarg::Ax(q) => at("axiom "@) + qualid(c, attr, q),
        Metarg::Lm(q) => at("lemma "@) + qualid(c, attr, q),
        Metarg::Gl(q) => at("goal "@) + qualid(c, attr, q),
        Metarg::Val(q) => at("val "@) + qualid(c, attr, q),
        Metarg::Str(s) => seq![Layout::Quoted(s@)],
        Metarg::Int(i) => at(decimal(i as int)),
    }
}

pub open spec fn wf_metarg(a: Metarg) -> bool {
    match a {
        Metarg::Ty(t) => wf_pty(t),
        Metarg::Fs(q) | Metarg::Ps(q) | Metarg::Ax(q) | Metarg::Lm(q) | Metarg::Gl(q) | Metarg::Val(
            q,
        ) => wf_qualid(q),
        _ => true,
    }
}

pub open spec fn opt_as_layout(c: PrintCtx, attr: bool, oid: Option<Ident>) -> Seq<Layout> {
    match oid {
        Some(id) => at(" as "@) + sp() + ident(c, attr, id),
        None => empty(),
    }
}

// ------------------------------------------------------------ declarations

pub open spec fn prop_keyword(k: PropKind) -> Seq<char> {
    match k {
        PropKind::Lemma => "lemma"@,
        PropKind::Axiom => "axiom"@,
        PropKind::Goal => "goal"@,
    }
}

pub open spec fn ind_keyword(s: IndSign) -> Seq<char> {
    match s {
        IndSign::Ind => "inductive"@,
        IndSign::Coind => "coinductive"@,
    }
}

/// The first of several declarations after `kw`, the others after `with`,
/// each in a box of its own.
pub open spec fn with_chain(kw: Seq<char>, k: crate::doc::BoxKind, parts: Seq<Seq<Layout>>) -> Seq<Layout> {
    crate::doc::bx(k, 2, at(kw) + parts[0]) + withs(k, parts.skip(1))
}

/// Declarations, each after a space and `with`, in a box of its own.
pub open spec fn withs(k: crate::doc::BoxKind, parts: Seq<Seq<Layout>>) -> Seq<Layout> {
    concat(parts.map_values(|p: Seq<Layout>| sp() + crate::doc::bx(k, 2, at("with "@) + p)))
}

pub open spec fn decl_layout(c: PrintCtx, attr: bool, d: Decl) -> Seq<Layout>
    decreases d, 1nat,
{
    match d {
        Decl::Type(ds) => with_chain(
            "type "@,
            crate::doc::BoxKind::V,
            ds@.map_values(|t: TypeDecl| type_decl_layout(c, attr, t)),
        ),
        Decl::Logic(ds) => with_chain(
            if ds@.len() > 0 && ds@[0].ty is None {
                "predicate "@
            } else {
                "function "@
            },
            crate::doc::BoxKind::Hv,
            ds@.map_values(|l: LogicDecl| logic_decl_layout(c, attr, l)),
        ),
        Decl::Ind(sign, ds) => {
            let parts = ds@.map_values(|i: IndDecl| ind_decl_layout(c, attr, i));
            hv(2, at(ind_keyword(sign) + " "@) + parts[0] + withs(crate::doc::BoxKind::Hv, parts.skip(1)))
        },
        Decl::Prop(k, id, t) => hv(
            2,
            at(prop_keyword(k) + " "@) + ident_rm(c, attr, id, Some("useraxiom"@)) + at(":"@) + sp()
                + term_marked(c, attr, t),
        ),
        Decl::Let(id, g, k, e) => match e.desc {
            ExprDesc::Fun(bs, t, p, m, s, body) => let_fun_layout(
                c,
                attr,
                e.loc,
                id,
                g,
                k,
                bs@,
                t,
                p,
                m,
                s,
                *body,
            ),
            ExprDesc::Any(ps, k2, t, p, m, s) => let_any_layout(c, attr, e.loc, id, g, k, ps@, k2, t, p, m, s),
            _ => elet_layout(c, attr, id, g, k, *e),
        },
        Decl::Rec(ds) => {
            let parts = crate::expr_spec::fundefs_parts(c, attr, ds@);
            vb(0, vb(2, at("let rec "@) + parts[0]) + withs(crate::doc::BoxKind::Hv, parts.skip(1)))
        },
        Decl::Exn(id, t, m) => exn_layout(c, attr, id, t, m),
        Decl::Meta(id, args) => at("meta \""@) + ident(c, attr, id) + at("\" "@) + join(
            args@.map_values(|a: Metarg| metarg_layout(c, attr, a)),
            at(", "@),
        ),
        Decl::Cloneexport(_, q, ss) => hv(2, at("clone export "@) + qualid(c, attr, q) + substs_layout(c, attr, ss@)),
        Decl::Useexport(loc, q) => hv(2, maybe_marker(c, loc) + at("use export "@) + qualid(c, attr, q)),
        Decl::Cloneimport(loc, imp, q, oid, ss) => hv(
            2,
            maybe_marker(c, loc) + at("clone"@) + import_layout(imp) + at(" "@) + qualid(c, attr, q)
                + opt_as_layout(c, attr, oid) + substs_layout(c, attr, ss@),
        ),
        Decl::Useimport(loc, imp, binds) => hv(
            2,
            maybe_marker(c, loc) + at("use"@) + import_layout(imp) + opt_list(
                at(" "@),
                empty(),
                at(", "@),
                empty(),
                empty(),
                binds@.map_values(|b: (Qualid, Option<Ident>)| qualid(c, attr, b.0) + opt_as_layout(c, attr, b.1)),
            ),
        ),
        Decl::Import(q) => hv(2, at("import "@) + qualid(c, attr, q)),
        Decl::Scope(loc, export, id, ds) => vb(
            2,
            vb(
                2,
                maybe_marker(c, loc) + at("scope"@) + (if export {
                    at(" export"@)
                } else {
                    empty()
                }) + at(" "@) + ident(c, attr, id) + sp() + join(decl_entries(c, attr, ds@), nl()),
            ) + cut() + at("end"@),
        ),
    }
}

pub open spec fn is_module_decl(d: Decl) -> bool {
    d is Useimport || d is Useexport || d is Cloneimport || d is Cloneexport || d is Import
}

/// The declarations laid out, with an empty line before each but the first,
/// except between two imports of modules.
pub open spec fn decl_entries(c: PrintCtx, attr: bool, ds: Seq<Decl>) -> Seq<Seq<Layout>>
    decreases ds, 0nat,
{
    if ds.len() == 0 {
        seq![]
    } else {
        let n = ds.len();
        decl_entries(c, attr, ds.drop_last()) + (if n > 1 && !(is_module_decl(ds[n - 2])
            && is_module_decl(ds[n - 1])) {
            seq![empty()]
        } else {
            seq![]
        }) + seq![decl_layout(c, attr, ds[n - 1])]
    }
}

/// Declarations, one per line.
pub open spec fn decls_layout(c: PrintCtx, attr: bool, ds: Seq<Decl>) -> Seq<Layout> {
    join(decl_entries(c, attr, ds), nl())
}

pub open spec fn module_layout(c: PrintCtx, attr: bool, m: (Ident, Vec<Decl>)) -> Seq<Layout> {
    vb(0, vb(2, at("module "@) + ident(c, attr, m.0) + sp() + decls_layout(c, attr, m.1@)) + sp() + at("end"@))
}

pub open spec fn mlw_file_layout(c: PrintCtx, attr: bool, f: MlwFile) -> Seq<Layout> {
    match f {
        MlwFile::Decls(ds) => decls_layout(c, attr, ds@),
        MlwFile::Modules(ms) => vb(
            0,
            join(ms@.map_values(|m: (Ident, Vec<Decl>)| module_layout(c, attr, m)), nl() + nl()),
        ),
    }
}

// ------------------------------------------------ printable declarations

/// A declaration that the printer lays out: lists of declarations that are
/// printed from their first one are not empty, logic declarations are all
/// predicates or all functions, and what they hold is printable.
pub open spec fn wf_decl(c: PrintCtx, d: Decl) -> bool
    decreases d, 1nat,
{
    match d {
        Decl::Type(ds) => ds@.len() > 0 && forall|i: int| 0 <= i < ds@.len() ==> wf_type_decl(c, #[trigger] ds@[i]),
        Decl::Logic(ds) => ds@.len() > 0 && ((forall|i: int| 0 <= i < ds@.len() ==> (#[trigger] ds@[i]).ty is None)
            || (forall|i: int| 0 <= i < ds@.len() ==> (#[trigger] ds@[i]).ty is Some)) && forall|i: int|
            0 <= i < ds@.len() ==> wf_logic_decl(#[trigger] ds@[i]),
        Decl::Ind(_, ds) => ds@.len() > 0 && forall|i: int| 0 <= i < ds@.len() ==> wf_ind_decl(#[trigger] ds@[i]),
        Decl::Prop(_, _, t) => wf_term(t),
        Decl::Let(_, _, _, e) => match e.desc {
            ExprDesc::Fun(bs, t, p, m, s, body) => wf_let_fun(c, bs@, t, p, m, s) && wf_expr(c, *body),
            ExprDesc::Any(ps, k2, t, p, m, s) => wf_let_any(c, ps@, k2, t, p, m, s),
            _ => wf_expr(c, *e),
        },
        Decl::Rec(ds) => ds@.len() > 0 && wf_fundefs(c, ds@),
        Decl::Exn(_, t, m) => wf_pty_mask(t, m),
        Decl::Meta(_, args) => forall|i: int| 0 <= i < args@.len() ==> wf_metarg(#[trigger] args@[i]),
        Decl::Cloneexport(_, q, ss) | Decl::Cloneimport(_, _, q, _, ss) => wf_qualid(q) && wf_substs(ss@),
        Decl::Useexport(_, q) | Decl::Import(q) => wf_qualid(q),
        Decl::Useimport(_, _, binds) => forall|i: int| 0 <= i < binds@.len() ==> wf_qualid((#[trigger] binds@[i]).0),
        Decl::Scope(_, _, _, ds) => wf_decls(c, ds@),
    }
}

pub open spec fn wf_decls(c: PrintCtx, ds: Seq<Decl>) -> bool
    decreases ds, 0nat,
{
    ds.len() == 0 || (wf_decls(c, ds.drop_last()) && wf_decl(c, ds.last()))
}

pub open spec fn wf_mlw_file(c: PrintCtx, f: MlwFile) -> bool {
    match f {
        MlwFile::Decls(ds) => wf_decls(c, ds@),
        MlwFile::Modules(ms) => forall|i: int| 0 <= i < ms@.len() ==> wf_decls(c, (#[trigger] ms@[i]).1@),
    }
}

} // verus!
