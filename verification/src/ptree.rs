//! # Parse trees
//!
//! Datatypes for WhyML parse trees, as produced by a WhyML parser or built
//! by code, to be processed by typing or printed.

use vstd::prelude::*;

use crate::constant::Constant;
use crate::decl::{IndSign, PropKind};
use crate::dterm::{Dbinop, Dquant};
use crate::expr::{AssertionKind, ForDirection, RsKind};
use crate::ident::Attribute;
use crate::ity::Mask;
use crate::loc::Position;

verus! {

/// attributes, with a specific case for a source location
#[derive(Clone, PartialEq, Eq, Hash, Debug)]
pub enum Attr {
    Str(Attribute),
    Pos(Position),
}

/// identifiers, with attributes and a source location
#[derive(Clone, PartialEq, Eq, Hash, Debug)]
pub struct Ident {
    pub str: String,
    pub ats: Vec<Attr>,
    pub loc: Position,
}

/// qualified identifiers
#[derive(Clone, PartialEq, Eq, Hash, Debug)]
pub struct Qualid(pub Vec<Ident>);

/// type expressions
#[derive(PartialEq, Eq, Hash, Debug)]
pub enum Pty {
    /// type variable
    Tyvar(Ident),
    /// type constructor, possibly with arguments, e.g., `int`, `list bool`, etc.
    Tyapp(Qualid, Vec<Pty>),
    /// tuples, e.g., `(int,bool)`
    Tuple(Vec<Pty>),
    /// reference type, e.g., `ref int`, as used by the auto-dereference mechanism
    Ref(Vec<Pty>),
    /// arrow type, e.g., `int -> bool`
    Arrow(Box<Pty>, Box<Pty>),
    /// opening scope locally, e.g., `M.((list t,u))`
    Scope(Qualid, Box<Pty>),
    /// parenthesised type
    Paren(Box<Pty>),
    /// purify a type
    Pure(Box<Pty>),
}

/// Patterns, equipped with a source location
#[derive(PartialEq, Eq, Hash, Debug)]
pub struct Pattern {
    pub desc: PatDesc,
    pub loc: Position,
}

#[derive(PartialEq, Eq, Hash, Debug)]
pub enum PatDesc {
    /// wildcard, that is "_"
    Wild,
    /// variable as a pattern
    Var(Ident),
    /// constructor pattern, e.g., `Cons(x,y)`
    App(Qualid, Vec<Pattern>),
    /// record pattern
    Rec(Vec<(Qualid, Pattern)>),
    /// tuple pattern
    Tuple(Vec<Pattern>),
    /// as-pattern, e.g., `Cons(x,y) as z`; the flag tells whether `z` is ghost
    As(Box<Pattern>, Ident, bool),
    /// or-pattern `p1 | p2`
    Or(Box<Pattern>, Box<Pattern>),
    /// type cast
    Cast(Box<Pattern>, Pty),
    /// open scope locally
    Scope(Qualid, Box<Pattern>),
    /// parenthesised pattern
    Paren(Box<Pattern>),
    /// explicitly ghost pattern
    GhostPat(Box<Pattern>),
}

/// binder `(loc, id, ghost, type)` to represent "ghost? id? : type?". `id`
/// and `type` cannot be `None` at the same time
#[derive(PartialEq, Eq, Hash, Debug)]
pub struct Binder(pub Position, pub Option<Ident>, pub bool, pub Option<Pty>);

/// parameter `(loc, id, ghost, type)` to represent "ghost? id? : type".
#[derive(PartialEq, Eq, Hash, Debug)]
pub struct Param(pub Position, pub Option<Ident>, pub bool, pub Pty);

/// Terms, equipped with a source location
#[derive(PartialEq, Eq, Hash, Debug)]
pub struct Term {
    pub desc: TermDesc,
    pub loc: Position,
}

#[derive(PartialEq, Eq, Hash, Debug)]
pub enum TermDesc {
    /// the true proposition
    True,
    /// the false proposition
    False,
    /// constant literals
    Const(Constant),
    /// identifiers
    Ident(Qualid),
    /// identifier as reference, e.g., `&x`
    Asref(Qualid),
    /// (first-order) application of a logic identifier to a list of terms
    Idapp(Qualid, Vec<Term>),
    /// curried application, of a term to a term
    Apply(Box<Term>, Box<Term>),
    /// application of a binary operation in an infix fashion, allowing chaining
    Infix(Box<Term>, Ident, Box<Term>),
    /// application of a binary operation in an infix style, but without chaining
    Innfix(Box<Term>, Ident, Box<Term>),
    /// application of a binary logic connective, in an infix fashion, allowing chaining
    Binop(Box<Term>, Dbinop, Box<Term>),
    /// application of a binary logic connective, but without chaining
    Binnop(Box<Term>, Dbinop, Box<Term>),
    /// logic negation
    Not(Box<Term>),
    /// if-expression
    If(Box<Term>, Box<Term>, Box<Term>),
    /// quantified formulas. The third argument is a list of triggers.
    Quant(Dquant, Vec<Binder>, Vec<Vec<Term>>, Box<Term>),
    /// `Eps(x, ty, f)` denotes the epsilon term "any `x` of type `ty` that satisfies `f`"
    Eps(Ident, Pty, Box<Term>),
    /// term annotated with an attribute
    Attr(Attr, Box<Term>),
    /// let-expression
    Let(Ident, Box<Term>, Box<Term>),
    /// pattern-matching
    Case(Box<Term>, Vec<(Pattern, Term)>),
    /// type casting
    Cast(Box<Term>, Pty),
    /// tuples
    Tuple(Vec<Term>),
    /// record expressions
    Record(Vec<(Qualid, Term)>),
    /// record update expression
    Update(Box<Term>, Vec<(Qualid, Term)>),
    /// local scope
    Scope(Qualid, Box<Term>),
    /// "at" modifier. The "old" modifier is a particular case
    At(Box<Term>, Ident),
}

/// Loop invariant or type invariant
pub type Invariant = Vec<Term>;

/// Variant for both loops and recursive functions. The option identifier is
/// an optional ordering predicate
pub type Variant = Vec<(Term, Option<Qualid>)>;

/// Precondition
pub type Pre = Term;

/// Normal postcondition
#[derive(PartialEq, Eq, Hash, Debug)]
pub struct Post(pub Position, pub Vec<(Pattern, Term)>);

/// Exceptional postconditions
#[derive(PartialEq, Eq, Hash, Debug)]
pub struct Xpost(pub Position, pub Vec<(Qualid, Option<(Pattern, Term)>)>);

/// Contract
#[derive(PartialEq, Eq, Hash, Debug)]
pub struct Spec {
    /// preconditions
    pub pre: Vec<Pre>,
    /// normal postconditions
    pub post: Vec<Post>,
    /// exceptional postconditions
    pub xpost: Vec<Xpost>,
    /// "reads" clause
    pub reads: Vec<Qualid>,
    /// "writes" clause
    pub writes: Vec<Term>,
    /// "alias" clause
    pub alias: Vec<(Term, Term)>,
    /// variant for recursive functions
    pub variant: Variant,
    /// should the reads and writes clauses be checked against the given body?
    pub checkrw: bool,
    /// may the function diverge?
    pub diverge: bool,
    /// is the function partial?
    pub partial: bool,
}

/// Expressions, equipped with a source location
#[derive(PartialEq, Eq, Hash, Debug)]
pub struct Expr {
    pub desc: ExprDesc,
    pub loc: Position,
}

/// Expression kinds
#[derive(PartialEq, Eq, Hash, Debug)]
pub enum ExprDesc {
    /// built-in operator `ref` for auto-dereference syntax
    Ref,
    /// Boolean literal `True`
    True,
    /// Boolean literal `False`
    False,
    /// Constant literals
    Const(Constant),
    /// Variable identifier
    Ident(Qualid),
    /// identifier as reference, e.g., `&x`
    Asref(Qualid),
    /// Uncurried application of a function identifier to a list of arguments
    Idapp(Qualid, Vec<Expr>),
    /// Curried application
    Apply(Box<Expr>, Box<Expr>),
    /// application of a binary function identifier, in an infix fashion, allowing chaining
    Infix(Box<Expr>, Ident, Box<Expr>),
    /// application of a binary function, but without chaining
    Innfix(Box<Expr>, Ident, Box<Expr>),
    /// `let ... in ...` expression; the flag tells whether the variable is ghost
    Let(Ident, bool, RsKind, Box<Expr>, Box<Expr>),
    /// Local definition of function(s), possibly mutually recursive
    Rec(Vec<Fundef>, Box<Expr>),
    /// Anonymous function
    Fun(Vec<Binder>, Option<Pty>, Pattern, Mask, Spec, Box<Expr>),
    /// "any params : ty \<spec\>": abstract expression with a specification
    Any(Vec<Param>, RsKind, Option<Pty>, Pattern, Mask, Spec),
    /// Tuple of expressions
    Tuple(Vec<Expr>),
    /// Record expression, e.g., `{f=e1; g=e2; ...}`
    Record(Vec<(Qualid, Expr)>),
    /// Record update, e.g., `{e with f=e1; ...}`
    Update(Box<Expr>, Vec<(Qualid, Expr)>),
    /// Assignment, of a mutable variable (no qualid given) or of a record field (qualid
    /// given). Assignments are possibly in parallel, e.g., `x.f, y.g, z <- e1, e2, e3`
    Assign(Vec<(Expr, Option<Qualid>, Expr)>),
    /// Sequence of two expressions, the first one being supposed of type unit
    Sequence(Box<Expr>, Box<Expr>),
    /// `if e1 then e2 else e3` expression
    If(Box<Expr>, Box<Expr>, Box<Expr>),
    /// `while` loop with annotations
    While(Box<Expr>, Invariant, Variant, Box<Expr>),
    /// lazy conjunction
    And(Box<Expr>, Box<Expr>),
    /// lazy disjunction
    Or(Box<Expr>, Box<Expr>),
    /// Boolean negation
    Not(Box<Expr>),
    /// match expression, including both regular patterns and exception patterns
    Match(Box<Expr>, Vec<RegBranch>, Vec<ExnBranch>),
    /// `absurd` statement to mark unreachable branches
    Absurd,
    /// turns a logical term into a pure expression, e.g., `pure { t }`
    Pure(Term),
    /// promotes a logic symbol in programs, e.g., `{f}` or `M.{f}`
    Idpur(Qualid),
    /// raise an exception, possibly with an argument
    Raise(Qualid, Option<Box<Expr>>),
    /// local declaration of an exception, e.g., `let exception E in e`
    Exn(Ident, Pty, Mask, Box<Expr>),
    /// local declaration of an exception, implicitly captured
    Optexn(Ident, Mask, Box<Expr>),
    /// "for" loops
    For(Ident, Box<Expr>, ForDirection, Box<Expr>, Invariant, Box<Expr>),
    /// `assert`, `assume`, and `check` expressions
    Assert(AssertionKind, Term),
    /// open scope locally, e.g., `M.(e)`
    Scope(Qualid, Box<Expr>),
    /// introduction of a label, e.g., `label L in e`
    Label(Ident, Box<Expr>),
    /// cast an expression to a given type, e.g., `(e:ty)`
    Cast(Box<Expr>, Pty),
    /// forces an expression to be ghost, e.g., `ghost e`
    GhostExpr(Box<Expr>),
    /// attach an attribute to an expression
    Attr(Attr, Box<Expr>),
}

/// A regular match branch
pub type RegBranch = (Pattern, Expr);

/// An exception match branch
pub type ExnBranch = (Qualid, Option<Pattern>, Expr);

/// local function definition
#[derive(PartialEq, Eq, Hash, Debug)]
pub struct Fundef(
    pub Ident,
    pub bool,
    pub RsKind,
    pub Vec<Binder>,
    pub Option<Pty>,
    pub Pattern,
    pub Mask,
    pub Spec,
    pub Expr,
);

/// record fields
#[derive(PartialEq, Eq, Hash, Debug)]
pub struct Field {
    pub loc: Position,
    pub ident: Ident,
    pub pty: Pty,
    pub mutable: bool,
    pub is_ghost: bool,
}

/// Type definition body
#[derive(PartialEq, Eq, Hash, Debug)]
pub enum TypeDef {
    /// alias type
    Alias(Pty),
    /// algebraic type
    Algebraic(Vec<(Position, Ident, Vec<Param>)>),
    /// record type
    Record(Vec<Field>),
    /// integer type in given range
    Range(malachite::Integer, malachite::Integer),
    /// floating-point type with given exponent and precision
    Float(isize, isize),
}

/// The different kinds of visibility
#[derive(Clone, Copy, PartialEq, Eq, Hash, Debug, Structural)]
pub enum Visibility {
    Public,
    Private,
    /// = Private + ghost fields
    Abstract,
}

#[derive(PartialEq, Eq, Hash, Debug)]
pub struct TypeDecl {
    pub loc: Position,
    pub ident: Ident,
    pub params: Vec<Ident>,
    /// visibility, for records only
    pub vis: Visibility,
    /// mutability, for records or abstract types
    pub mutable: bool,
    /// invariant, for records only
    pub inv: Invariant,
    /// witness for the invariant
    pub wit: Option<Expr>,
    pub def: TypeDef,
}

/// A single declaration of a function or predicate
#[derive(PartialEq, Eq, Hash, Debug)]
pub struct LogicDecl {
    pub loc: Position,
    pub ident: Ident,
    pub params: Vec<Param>,
    pub ty: Option<Pty>,
    pub def: Option<Term>,
}

/// A single declaration of an inductive predicate
#[derive(PartialEq, Eq, Hash, Debug)]
pub struct IndDecl {
    pub loc: Position,
    pub ident: Ident,
    pub params: Vec<Param>,
    pub def: Vec<(Position, Ident, Term)>,
}

/// Arguments of "meta" declarations
#[derive(PartialEq, Eq, Hash, Debug)]
pub enum Metarg {
    Ty(Pty),
    Fs(Qualid),
    Ps(Qualid),
    Ax(Qualid),
    Lm(Qualid),
    Gl(Qualid),
    Val(Qualid),
    Str(String),
    Int(isize),
}

/// The possible "clone" substitution elements
#[derive(PartialEq, Eq, Hash, Debug)]
pub enum CloneSubst {
    Tsym(Qualid, Vec<Ident>, Pty),
    Fsym(Qualid, Qualid),
    Psym(Qualid, Qualid),
    Vsym(Qualid, Qualid),
    Xsym(Qualid, Qualid),
    Prop(PropKind),
    Axiom(Qualid),
    Lemma(Qualid),
    Goal(Qualid),
}

/// top-level declarations
#[derive(PartialEq, Eq, Hash, Debug)]
pub enum Decl {
    /// Type declaration
    Type(Vec<TypeDecl>),
    /// Collection of "function"s and "predicate"s, mutually recursively declared
    Logic(Vec<LogicDecl>),
    /// An inductive or co-inductive predicate
    Ind(IndSign, Vec<IndDecl>),
    /// Propositions: "lemma" or "goal" or "axiom"
    Prop(PropKind, Ident, Term),
    /// Global program variable or function
    Let(Ident, bool, RsKind, Box<Expr>),
    /// set of program functions, defined mutually recursively
    Rec(Vec<Fundef>),
    /// Declaration of global exceptions
    Exn(Ident, Pty, Mask),
    /// Declaration of a "meta"
    Meta(Ident, Vec<Metarg>),
    /// "clone export"
    Cloneexport(Position, Qualid, Vec<CloneSubst>),
    /// "use export"
    Useexport(Position, Qualid),
    /// "clone import ... as ..."
    Cloneimport(Position, bool, Qualid, Option<Ident>, Vec<CloneSubst>),
    /// "use import ... as ..."
    Useimport(Position, bool, Vec<(Qualid, Option<Ident>)>),
    /// "import"
    Import(Qualid),
    /// "scope"
    Scope(Position, bool, Ident, Vec<Decl>),
}

#[derive(PartialEq, Eq, Hash, Debug)]
pub enum MlwFile {
    /// a list of modules containing lists of declarations
    Modules(Vec<(Ident, Vec<Decl>)>),
    /// a list of declarations outside any module
    Decls(Vec<Decl>),
}

} // verus!
