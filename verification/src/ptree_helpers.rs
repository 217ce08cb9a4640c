//! Helpers for building parse trees.
//!
//! The first ones build identifiers, terms, patterns, expressions and
//! declarations bottom-up. [`State`] builds modules, their declarations and
//! program functions top-down, in an imperative style.

use vstd::prelude::*;

use crate::big_int::{int_value, integer_from_isize};
use crate::constant::Constant;
use crate::decl::PropKind;
use crate::expr::RsKind;
use crate::ity::Mask;
use crate::loc::Position;
use crate::number::{IntConstant, IntLiteralKind};
use crate::pmodule::ref_attr;
use crate::ptree::{
    Attr, Binder, Decl, Expr, ExprDesc, Ident, MlwFile, PatDesc, Pattern, Post, Pty, Qualid, Spec,
    Term, TermDesc,
};

verus! {

// ------------------------------------------------------------ identifiers

/// `id` is the identifier named `s` at `loc`, without attributes.
pub open spec fn is_plain_ident(id: Ident, loc: Position, s: Seq<char>) -> bool {
    id.str@ == s && id.ats@.len() == 0 && id.loc == loc
}

/// `q` is the qualified identifier of the path `l`, at dummy locations.
pub open spec fn is_qualid_of(q: Qualid, l: Seq<Seq<char>>) -> bool {
    q.0@.len() == l.len() && forall|i: int|
        0 <= i < l.len() ==> is_plain_ident(#[trigger] q.0@[i], Position::spec_dummy(), l[i])
}

pub open spec fn strings_view(l: Seq<String>) -> Seq<Seq<char>> {
    l.map_values(|s: String| s@)
}

/// The identifier named `s`, with the given attributes (none by default) and
/// location.
pub fn ident(attrs: Option<Vec<Attr>>, loc: Position, s: String) -> (id: Ident)
    ensures
        id.str == s,
        id.loc == loc,
        match attrs {
            Some(a) => id.ats == a,
            None => id.ats@.len() == 0,
        },
{
    let ats = match attrs {
        Some(a) => a,
        None => Vec::new(),
    };
    Ident { str: s, ats, loc }
}

/// The qualified identifier of the path `l`, as in `["int", "Int"]`.
pub fn qualid(l: Vec<String>) -> (q: Qualid)
    ensures
        is_qualid_of(q, strings_view(l@)),
{
    let ghost lv = strings_view(l@);
    let n = l.len();
    let mut l = l;
    let mut ids: Vec<Ident> = Vec::new();
    let mut i: usize = 0;
    while l.len() > 0
        invariant
            i + l@.len() == n,
            n == lv.len(),
            strings_view(l@) == lv.subrange(i as int, n as int),
            ids@.len() == i,
            forall|j: int| 0 <= j < i ==> is_plain_ident(#[trigger] ids@[j], Position::spec_dummy(), lv[j]),
        decreases l@.len(),
    {
        let ghost before = l@;
        let s = l.remove(0);
        proof {
            assert(l@ =~= before.subrange(1, before.len() as int));
            assert(strings_view(l@) =~= strings_view(before).subrange(1, before.len() as int));
            assert(s@ == strings_view(before)[0]);
            assert(s@ == lv[i as int]);
            assert(strings_view(l@) =~= lv.subrange(i + 1, n as int));
        }
        ids.push(ident(None, Position::dummy(), s));
        i += 1;
    }
    Qualid(ids)
}

/// The integer constant `i`, of the given kind (decimal by default).
pub fn const_(kind: Option<IntLiteralKind>, i: isize) -> (c: Constant)
    ensures
        c matches Constant::Int(k) && k.kind == match kind {
            Some(k) => k,
            None => IntLiteralKind::Dec,
        } && int_value(k.int) == i,
{
    let kind = match kind {
        Some(k) => k,
        None => IntLiteralKind::Dec,
    };
    Constant::Int(IntConstant { kind, int: integer_from_isize(i) })
}

/// The binder `()`, of type unit.
pub fn unit_binder(loc: Position) -> (r: Vec<Binder>)
    ensures
        r@.len() == 1,
        r@[0].0 == loc,
        r@[0].1 is None,
        !r@[0].2,
        r@[0].3 matches Some(Pty::Tuple(ts)) && ts@.len() == 0,
{
    let mut r = Vec::new();
    r.push(Binder(loc, None, false, Some(Pty::Tuple(Vec::new()))));
    r
}

/// The binder of one variable named `id`, ghost if asked, of the given type.
pub fn one_binder(loc: Position, ghost: Option<bool>, pty: Option<Pty>, id: String) -> (r: Vec<Binder>)
    ensures
        r@.len() == 1,
        r@[0].0 == loc,
        r@[0].1 matches Some(x) && x.str == id && x.loc == loc && x.ats@.len() == 0,
        r@[0].2 == match ghost {
            Some(g) => g,
            None => false,
        },
        r@[0].3 == pty,
{
    let g = match ghost {
        Some(g) => g,
        None => false,
    };
    let mut r = Vec::new();
    r.push(Binder(loc, Some(ident(None, loc, id)), g, pty));
    r
}

// ------------------------------------------------------- terms and patterns

/// The term `t` at `loc`.
pub fn term(loc: Position, t: TermDesc) -> (r: Term)
    ensures
        r.desc == t,
        r.loc == loc,
{
    Term { desc: t, loc }
}

/// The term of a variable.
pub fn tvar(loc: Position, id: Qualid) -> (r: Term)
    ensures
        r.desc == TermDesc::Ident(id),
        r.loc == loc,
{
    term(loc, TermDesc::Ident(id))
}

/// The application of `f` to the terms `l`.
pub fn tapp(loc: Position, f: Qualid, l: Vec<Term>) -> (r: Term)
    ensures
        r.desc == TermDesc::Idapp(f, l),
        r.loc == loc,
{
    term(loc, TermDesc::Idapp(f, l))
}

/// The pattern `p` at `loc`.
pub fn pat(loc: Position, p: PatDesc) -> (r: Pattern)
    ensures
        r.desc == p,
        r.loc == loc,
{
    Pattern { desc: p, loc }
}

/// The pattern of a variable.
pub fn pat_var(loc: Position, id: Ident) -> (r: Pattern)
    ensures
        r.desc == PatDesc::Var(id),
        r.loc == loc,
{
    pat(loc, PatDesc::Var(id))
}

/// The term of the decimal integer constant `i`.
pub fn tconst(loc: Position, i: isize) -> (r: Term)
    ensures
        r.desc matches TermDesc::Const(Constant::Int(k)) && k.kind == IntLiteralKind::Dec
            && int_value(k.int) == i,
        r.loc == loc,
{
    term(loc, TermDesc::Const(const_(None, i)))
}

// ---------------------------------------------------- program expressions

/// The name of the exception that stands for `break`.
pub const BREAK_ID: &'static str = "'Break";

/// The name of the exception that stands for `continue`.
pub const CONTINUE_ID: &'static str = "'Continue";

/// The name of the exception that stands for `return`.
pub const RETURN_ID: &'static str = "'Return";

/// The expression `e` at `loc`.
pub fn expr(loc: Position, e: ExprDesc) -> (r: Expr)
    ensures
        r.desc == e,
        r.loc == loc,
{
    Expr { desc: e, loc }
}

/// The expression of the decimal integer constant `i`.
pub fn econst(loc: Position, i: isize) -> (r: Expr)
    ensures
        r.desc matches ExprDesc::Const(Constant::Int(k)) && k.kind == IntLiteralKind::Dec
            && int_value(k.int) == i,
        r.loc == loc,
{
    expr(loc, ExprDesc::Const(const_(None, i)))
}

/// The application of `f` to the expressions `l`.
pub fn eapp(loc: Position, f: Qualid, l: Vec<Expr>) -> (r: Expr)
    ensures
        r.desc == ExprDesc::Idapp(f, l),
        r.loc == loc,
{
    expr(loc, ExprDesc::Idapp(f, l))
}

/// The curried application of `e1` to `e2`.
pub fn eapply(loc: Position, e1: Expr, e2: Expr) -> (r: Expr)
    ensures
        r.desc matches ExprDesc::Apply(a, b) && *a == e1 && *b == e2,
        r.loc == loc,
{
    expr(loc, ExprDesc::Apply(Box::new(e1), Box::new(e2)))
}

/// The expression of a variable.
pub fn evar(loc: Position, x: Qualid) -> (r: Expr)
    ensures
        r.desc == ExprDesc::Ident(x),
        r.loc == loc,
{
    expr(loc, ExprDesc::Ident(x))
}

pub open spec fn is_empty_spec(s: Spec) -> bool {
    &&& s.pre@.len() == 0
    &&& s.post@.len() == 0
    &&& s.xpost@.len() == 0
    &&& s.reads@.len() == 0
    &&& s.writes@.len() == 0
    &&& s.alias@.len() == 0
    &&& s.variant@.len() == 0
    &&& !s.checkrw
    &&& !s.diverge
    &&& !s.partial
}

/// The contract with no clause.
pub fn empty_spec() -> (s: Spec)
    ensures
        is_empty_spec(s),
{
    Spec {
        pre: Vec::new(),
        post: Vec::new(),
        xpost: Vec::new(),
        reads: Vec::new(),
        writes: Vec::new(),
        alias: Vec::new(),
        variant: Vec::new(),
        checkrw: false,
        diverge: false,
        partial: false,
    }
}

// ------------------------------------------------------------ declarations

/// `d` is `use (import) path` for the path `l`.
pub open spec fn is_use_decl(d: Decl, loc: Position, l: Seq<Seq<char>>, import: bool) -> bool {
    d matches Decl::Useimport(loc2, import2, binds) && loc2 == loc && import2 == import
        && binds@.len() == 1 && is_qualid_of(binds@[0].0, l) && binds@[0].1 is None
}

/// The declaration `use (import) path`, where `path` is denoted by `l`.
pub fn use_(loc: Position, l: Vec<String>, import: bool) -> (d: Decl)
    ensures
        is_use_decl(d, loc, strings_view(l@), import),
{
    let mut binds = Vec::new();
    binds.push((qualid(l), None));
    Decl::Useimport(loc, import, binds)
}

/// `d` declares the global mutable variable named `id` of type `ty`:
/// `let ref id = any ty`.
pub open spec fn is_global_var_decl(d: Decl, ty: Pty, id: Seq<char>) -> bool {
    d matches Decl::Let(x, g, k, e) && x.str@ == id && x.loc == Position::spec_dummy()
        && x.ats@.len() == 1 && (x.ats@[0] matches Attr::Str(a) && a.text()
        == "mlw:reference_var"@) && !g && k is NonPure && e.loc == Position::spec_dummy()
        && (e.desc matches ExprDesc::Apply(r, v) && r.desc is Ref && r.loc == Position::spec_dummy()
        && v.loc == Position::spec_dummy() && (v.desc matches ExprDesc::Any(ps, k2, t, p, m, s)
        && ps@.len() == 0 && k2 is NonPure && t == Some(ty) && p.desc is Wild && p.loc
        == Position::spec_dummy() && m is Visible && is_empty_spec(s)))
}

/// Declares a global mutable variable `id` of type `ty`.
pub fn global_var_decl(ty: Pty, id: String) -> (d: Decl)
    ensures
        is_global_var_decl(d, ty, id@),
{
    let v = ExprDesc::Any(
        Vec::new(),
        RsKind::NonPure,
        Some(ty),
        pat(Position::dummy(), PatDesc::Wild),
        Mask::Visible,
        empty_spec(),
    );
    let body = expr(
        Position::dummy(),
        ExprDesc::Apply(
            Box::new(expr(Position::dummy(), ExprDesc::Ref)),
            Box::new(expr(Position::dummy(), v)),
        ),
    );
    let mut attrs = Vec::new();
    attrs.push(Attr::Str(ref_attr()));
    let id_x = ident(Some(attrs), Position::dummy(), id);
    Decl::Let(id_x, false, RsKind::NonPure, Box::new(body))
}

/// `d` is the proposition of kind `k` named `id`.
pub open spec fn is_prop_decl(d: Decl, k: PropKind, loc: Position, id: Seq<char>, t: Term) -> bool {
    d matches Decl::Prop(k2, x, t2) && k2 == k && is_plain_ident(x, loc, id) && t2 == t
}

fn prop(k: PropKind, loc: Position, id: String, t: Term) -> (d: Decl)
    ensures
        is_prop_decl(d, k, loc, id@, t),
{
    Decl::Prop(k, ident(None, loc, id), t)
}

// ------------------------------------------- declarations, top-down style

/// A post-condition `ensures { t }`, whose result pattern is `_`.
pub open spec fn is_wild_post(p: Post, t: Term) -> bool {
    &&& p.0 == Position::spec_dummy()
    &&& p.1@.len() == 1
    &&& p.1@[0].0.desc is Wild
    &&& p.1@[0].0.loc == Position::spec_dummy()
    &&& p.1@[0].1 == t
}

/// `d` is `let f params : ret = fun ... requires ... ensures ... -> body`, the
/// declaration of a program function with the head `h`, the pre-conditions
/// `pres`, the post-conditions `posts` and the body `body`.
pub open spec fn is_fun_decl(
    d: Decl,
    h: (bool, bool, Option<Pty>, Ident, Vec<Binder>),
    pres: Seq<Term>,
    posts: Seq<Term>,
    body: Expr,
) -> bool {
    d matches Decl::Let(id, g, k, ex) && id == h.3 && g == h.0 && k is NonPure
        && ex.loc == Position::spec_dummy() && (ex.desc matches ExprDesc::Fun(ps, rt, p, m, s, b)
        && ps == h.4 && rt == h.2 && p.desc is Wild && p.loc == Position::spec_dummy()
        && m is Visible && *b == body && s.pre@ == pres && s.post@.len() == posts.len() && (
    forall|i: int| 0 <= i < posts.len() ==> is_wild_post(#[trigger] s.post@[i], posts[i]))
        && s.xpost@.len() == 0 && s.reads@.len() == 0 && s.writes@.len() == 0 && s.alias@.len()
        == 0 && s.variant@.len() == 0 && !s.checkrw && s.diverge == h.1 && !s.partial)
}

/// Builds modules, their declarations and program functions top-down: a
/// module is opened, declarations are added to it one after the other, a
/// program function is given its head, then its contract clause by clause,
/// then its body, and the module is closed.
pub struct State {
    modules: Vec<(Ident, Vec<Decl>)>,
    module_id: Option<Ident>,
    decls: Vec<Decl>,
    fun_head: Option<(bool, bool, Option<Pty>, Ident, Vec<Binder>)>,
    spec_pre: Vec<Term>,
    spec_writes: Vec<Term>,
    spec_post: Vec<Term>,
}

impl State {
    /// The modules already closed, in order.
    pub closed spec fn modules(self) -> Seq<(Ident, Vec<Decl>)> {
        self.modules@
    }

    /// The name of the module being built, if one is open.
    pub closed spec fn module_id(self) -> Option<Ident> {
        self.module_id
    }

    /// The declarations of the open module (or of the file, outside modules).
    pub closed spec fn decls(self) -> Seq<Decl> {
        self.decls@
    }

    /// The head of the program function being declared, if any: whether it is
    /// ghost, whether it diverges, its result type, its name, its parameters.
    pub closed spec fn fun_head(self) -> Option<(bool, bool, Option<Pty>, Ident, Vec<Binder>)> {
        self.fun_head
    }

    /// The pre-conditions given so far to the function being declared.
    pub closed spec fn pres(self) -> Seq<Term> {
        self.spec_pre@
    }

    /// The terms given to [`State::add_writes`] so far.
    pub closed spec fn writes(self) -> Seq<Term> {
        self.spec_writes@
    }

    /// The post-conditions given so far to the function being declared.
    pub closed spec fn posts(self) -> Seq<Term> {
        self.spec_post@
    }

    /// What a function declaration in progress leaves unchanged.
    pub open spec fn same_function(self, other: State) -> bool {
        &&& self.fun_head() == other.fun_head()
        &&& self.pres() == other.pres()
        &&& self.writes() == other.writes()
        &&& self.posts() == other.posts()
    }

    /// What a declaration inside a module leaves unchanged.
    pub open spec fn same_modules(self, other: State) -> bool {
        &&& self.modules() == other.modules()
        &&& self.module_id() == other.module_id()
    }

    /// The state in which nothing was built yet.
    pub open spec fn is_empty(self) -> bool {
        &&& self.modules().len() == 0
        &&& self.module_id() is None
        &&& self.decls().len() == 0
        &&& self.fun_head() is None
        &&& self.pres().len() == 0
        &&& self.writes().len() == 0
        &&& self.posts().len() == 0
    }

    /// `self` is `old` with the declaration `d` added.
    pub open spec fn adds_decl(self, old: State, d: Decl) -> bool {
        &&& self.decls() == old.decls().push(d)
        &&& self.same_modules(old)
        &&& self.same_function(old)
    }

    /// A builder with nothing in it.
    pub fn create() -> (s: State)
        ensures
            s.is_empty(),
    {
        State {
            modules: Vec::new(),
            module_id: None,
            decls: Vec::new(),
            fun_head: None,
            spec_pre: Vec::new(),
            spec_writes: Vec::new(),
            spec_post: Vec::new(),
        }
    }

    /// A builder with nothing in it, as [`State::create`].
    pub fn new() -> (s: State)
        ensures
            s.is_empty(),
    {
        State::create()
    }

    /// Opens the module `name`: only when no module, no function and no
    /// top-level declaration is in progress.
    pub fn begin_module(&mut self, loc: Position, name: String)
        requires
            old(self).fun_head() is None,
            old(self).module_id() is None,
            old(self).decls().len() == 0,
        ensures
            final(self).module_id() matches Some(id) && is_plain_ident(id, loc, name@),
            final(self).modules() == old(self).modules(),
            final(self).decls() == old(self).decls(),
            final(self).same_function(*old(self)),
    {
        self.module_id = Some(ident(None, loc, name));
    }

    /// Adds `use (import) path`, where `path` is denoted by `l`.
    pub fn use_(&mut self, loc: Position, l: Vec<String>, import: bool)
        requires
            old(self).fun_head() is None,
        ensures
            exists|d: Decl| is_use_decl(d, loc, strings_view(l@), import)
                && #[trigger] final(self).adds_decl(*old(self), d),
    {
        let d = use_(loc, l, import);
        let ghost dd = d;
        self.decls.push(d);
        assert(self.adds_decl(*old(self), dd));
    }

    /// Adds the proposition `id` of kind `k`, stating `t`.
    pub fn add_prop(&mut self, k: PropKind, loc: Position, id: String, t: Term)
        requires
            old(self).fun_head() is None,
        ensures
            exists|d: Decl| is_prop_decl(d, k, loc, id@, t)
                && #[trigger] final(self).adds_decl(*old(self), d),
    {
        let d = prop(k, loc, id, t);
        let ghost dd = d;
        self.decls.push(d);
        assert(self.adds_decl(*old(self), dd));
    }

    /// Adds the global mutable variable `id` of type `ty`.
    pub fn add_global_var_decl(&mut self, ty: Pty, id: String)
        requires
            old(self).fun_head() is None,
        ensures
            exists|d: Decl| is_global_var_decl(d, ty, id@)
                && #[trigger] final(self).adds_decl(*old(self), d),
    {
        let d = global_var_decl(ty, id);
        let ghost dd = d;
        self.decls.push(d);
        assert(self.adds_decl(*old(self), dd));
    }

    /// Starts the program function `id` with the given parameters; it is
    /// neither ghost nor diverging unless said so.
    pub fn begin_let(
        &mut self,
        ghost: Option<bool>,
        diverges: Option<bool>,
        ret_type: Option<Pty>,
        id: String,
        params: Vec<Binder>,
    )
        requires
            old(self).fun_head() is None,
        ensures
            final(self).fun_head() matches Some(h) && h.0 == (match ghost {
                Some(g) => g,
                None => false,
            }) && h.1 == (match diverges {
                Some(d) => d,
                None => false,
            }) && h.2 == ret_type && is_plain_ident(h.3, Position::spec_dummy(), id@) && h.4
                == params,
            final(self).decls() == old(self).decls(),
            final(self).same_modules(*old(self)),
            final(self).pres() == old(self).pres(),
            final(self).writes() == old(self).writes(),
            final(self).posts() == old(self).posts(),
    {
        let is_ghost = match ghost {
            Some(g) => g,
            None => false,
        };
        let diverges = match diverges {
            Some(d) => d,
            None => false,
        };
        self.fun_head = Some((is_ghost, diverges, ret_type, ident(None, Position::dummy(), id), params));
    }

    /// Adds the pre-condition `t` to the function being declared.
    pub fn add_pre(&mut self, t: Term)
        requires
            old(self).fun_head() is Some,
        ensures
            final(self).pres() == old(self).pres().push(t),
            final(self).fun_head() == old(self).fun_head(),
            final(self).writes() == old(self).writes(),
            final(self).posts() == old(self).posts(),
            final(self).decls() == old(self).decls(),
            final(self).same_modules(*old(self)),
    {
        self.spec_pre.push(t);
    }

    /// Records the terms `w` as written by the function being declared; they
    /// do not appear in the declaration that [`State::add_body`] makes.
    pub fn add_writes(&mut self, w: Vec<Term>)
        requires
            old(self).fun_head() is Some,
        ensures
            final(self).writes() == old(self).writes() + w@,
            final(self).fun_head() == old(self).fun_head(),
            final(self).pres() == old(self).pres(),
            final(self).posts() == old(self).posts(),
            final(self).decls() == old(self).decls(),
            final(self).same_modules(*old(self)),
    {
        let mut w = w;
        self.spec_writes.append(&mut w);
    }

    /// Adds the post-condition `t` to the function being declared.
    pub fn add_post(&mut self, t: Term)
        requires
            old(self).fun_head() is Some,
        ensures
            final(self).posts() == old(self).posts().push(t),
            final(self).fun_head() == old(self).fun_head(),
            final(self).pres() == old(self).pres(),
            final(self).writes() == old(self).writes(),
            final(self).decls() == old(self).decls(),
            final(self).same_modules(*old(self)),
    {
        self.spec_post.push(t);
    }

    /// Ends the function being declared with the body `e`: its declaration,
    /// with the pre- and post-conditions given so far, is added.
    pub fn add_body(&mut self, e: Expr)
        requires
            old(self).fun_head() is Some,
        ensures
            final(self).fun_head() is None,
            final(self).pres().len() == 0,
            final(self).posts().len() == 0,
            final(self).writes() == old(self).writes(),
            final(self).same_modules(*old(self)),
            final(self).decls().len() == old(self).decls().len() + 1,
            final(self).decls().drop_last() == old(self).decls(),
            is_fun_decl(
                final(self).decls().last(),
                old(self).fun_head().unwrap(),
                old(self).pres(),
                old(self).posts(),
                e,
            ),
    {
        let ghost old_posts = self.spec_post@;
        let (is_ghost, diverges, ret_type, id, params) = self.fun_head.take().unwrap();
        let mut pres: Vec<Term> = Vec::new();
        std::mem::swap(&mut pres, &mut self.spec_pre);
        let mut posts_in: Vec<Term> = Vec::new();
        std::mem::swap(&mut posts_in, &mut self.spec_post);
        let n = posts_in.len();
        let mut posts: Vec<Post> = Vec::new();
        let mut i: usize = 0;
        while posts_in.len() > 0
            invariant
                i + posts_in@.len() == n,
                n == old_posts.len(),
                posts_in@ == old_posts.subrange(i as int, n as int),
                posts@.len() == i,
                forall|j: int| 0 <= j < i ==> is_wild_post(#[trigger] posts@[j], old_posts[j]),
            decreases posts_in@.len(),
        {
            let t = posts_in.remove(0);
            proof {
                assert(posts_in@ =~= old_posts.subrange(i + 1, n as int));
            }
            let mut cases: Vec<(Pattern, Term)> = Vec::new();
            cases.push((pat(Position::dummy(), PatDesc::Wild), t));
            posts.push(Post(Position::dummy(), cases));
            i += 1;
        }
        let spec = Spec {
            pre: pres,
            post: posts,
            xpost: Vec::new(),
            reads: Vec::new(),
            writes: Vec::new(),
            alias: Vec::new(),
            variant: Vec::new(),
            checkrw: false,
            diverge: diverges,
            partial: false,
        };
        let f = ExprDesc::Fun(
            params,
            ret_type,
            pat(Position::dummy(), PatDesc::Wild),
            Mask::Visible,
            spec,
            Box::new(e),
        );
        let d = Decl::Let(id, is_ghost, RsKind::NonPure, Box::new(expr(Position::dummy(), f)));
        self.decls.push(d);
        proof {
            assert(self.decls@.drop_last() =~= old(self).decls@);
        }
    }

    /// Closes the module in progress, with the declarations added to it.
    pub fn end_module(&mut self)
        requires
            old(self).fun_head() is None,
            old(self).module_id() is Some,
        ensures
            final(self).module_id() is None,
            final(self).decls().len() == 0,
            final(self).modules().len() == old(self).modules().len() + 1,
            final(self).modules().drop_last() == old(self).modules(),
            final(self).modules().last().0 == old(self).module_id().unwrap(),
            final(self).modules().last().1@ == old(self).decls(),
            final(self).same_function(*old(self)),
    {
        let id = self.module_id.take().unwrap();
        let mut decls: Vec<Decl> = Vec::new();
        std::mem::swap(&mut decls, &mut self.decls);
        self.modules.push((id, decls));
        proof {
            assert(self.modules@.drop_last() =~= old(self).modules@);
        }
    }

    /// The file built: its modules, or, where no module was made, its
    /// declarations.
    pub fn get_mlw_file(self) -> (f: MlwFile)
        requires
            self.fun_head() is None,
            self.module_id() is None,
            self.modules().len() == 0 || self.decls().len() == 0,
        ensures
            self.decls().len() == 0 ==> (f matches MlwFile::Modules(ms) && ms@ == self.modules()),
            self.decls().len() != 0 ==> (f matches MlwFile::Decls(ds) && ds@ == self.decls()),
    {
        if self.decls.len() == 0 {
            MlwFile::Modules(self.modules)
        } else {
            MlwFile::Decls(self.decls)
        }
    }
}

} // verus!
