#![allow(non_snake_case)]

use why3_ptree::{
    big_int::RemN,
    constant::{self, Constant},
    decl::PropKind,
    dterm::Dbinop,
    doc::{BoxKind, Doc, DocItem},
    ident,
    loc::{self, FileTags, Position},
    mlw_printer::{self, id_loc, IdLocs, PrintCtx},
    number::{self, IntConstant, IntLiteralKind, RealConstant, RealLiteralKind, RealValue},
    pp,
    ptree::{Attr, Decl, ExprDesc, MlwFile, PatDesc, Pty, Qualid, Term, TermDesc},
    ptree_helpers::{self, State},
    wf_check,
};

use std::borrow::Cow;

use malachite::Integer;

use ocaml_format::FormattingOptions;

fn layout<'a>(items: &'a [DocItem], out: &mut ocaml_format::Doc<'a>) {
    for it in items {
        match it {
            DocItem::Atom(s) => {
                out.atom(s.as_str());
            }
            DocItem::Quoted(s) => {
                out.quoted(s.as_str());
            }
            DocItem::Break(spaces, indent) => {
                out.format_break(*spaces, *indent);
            }
            DocItem::Newline => {
                out.newline();
            }
            DocItem::Boxed(k, indent, inner) => {
                let build = |d: &mut ocaml_format::Doc<'a>| layout(inner, d);
                match k {
                    BoxKind::H => out.hbox(build),
                    BoxKind::V => out.vbox(*indent, build),
                    BoxKind::Hv => out.hvbox(*indent, build),
                    BoxKind::Hov => out.hovbox(*indent, build),
                    BoxKind::S => out.sbox(*indent, build),
                };
            }
        }
    }
}

fn render(doc: &Doc) -> String {
    let mut out: ocaml_format::Doc = ocaml_format::Doc::new();
    layout(&doc.items, &mut out);
    format!("{}", out.display(&FormattingOptions::default()))
}

#[test]
fn test_M1() {
    let mod_M1: (_, Vec<_>) = {
        // use int.Int
        let use_int_Int =
            ptree_helpers::use_(Position::default(), vec!["int".into(), "Int".into()], false);
        // goal g : 2 + 2 = 4
        let g = {
            let two = ptree_helpers::tconst(Position::default(), 2);
            let two_again = ptree_helpers::tconst(Position::default(), 2);
            let four = ptree_helpers::tconst(Position::default(), 4);
            let add_int = ptree_helpers::qualid(vec!["Int".into(), ident::op_infix("+")]);
            let two_plus_two =
                ptree_helpers::tapp(Position::default(), add_int, vec![two_again, two]);
            let eq_int = ptree_helpers::qualid(vec!["Int".into(), ident::op_infix("=")]);
            let goal_term =
                ptree_helpers::tapp(Position::default(), eq_int, vec![four, two_plus_two]);
            Decl::Prop(
                PropKind::Goal,
                ptree_helpers::ident(None, Position::default(), "g".into()),
                goal_term,
            )
        };
        (
            ptree_helpers::ident(None, Position::default(), "M1".into()),
            vec![use_int_Int, g],
        )
    };

    let mlw = MlwFile::Modules(vec![mod_M1]);
    let ctx = PrintCtx::new(FileTags::new());
    let mut doc = Doc::new();
    mlw_printer::pp_mlw_file(&ctx, None, &mut doc, &mlw);
    assert_eq!(
        "\
module M1
  use int.Int
  
  goal g: Int.( = ) 4 (Int.( + ) 2 2)
end",
        render(&doc),
    );
}

#[test]
fn test_M6() {
    let eq_symb = ptree_helpers::qualid(vec![ident::op_infix("=")]);
    let int_type_id = ptree_helpers::qualid(vec!["int".into()]);
    let int_type = Pty::Tyapp(int_type_id, vec![]);
    let ge_int = ptree_helpers::qualid(vec!["Int".into(), ident::op_infix(">=")]);
    let array_int_type = Pty::Tyapp(
        ptree_helpers::qualid(vec!["Array".into(), "array".into()]),
        vec![int_type],
    );
    let length = ptree_helpers::qualid(vec!["Array".into(), "length".into()]);
    let array_get = ptree_helpers::qualid(vec!["Array".into(), ident::op_get("")]);
    let array_set = ptree_helpers::qualid(vec!["Array".into(), ident::op_set("")]);

    let mlw_file_I = {
        let mut i = State::new();
        i.begin_module(Position::default(), "M6".into());
        i.use_(Position::default(), vec!["int".into(), "Int".into()], false);
        i.use_(Position::default(), vec!["array".into(), "Array".into()], false);
        i.begin_let(
            None,
            None,
            None,
            "f".into(),
            ptree_helpers::one_binder(Position::default(), None, Some(array_int_type), "a".into()),
        );
        let id_a = Qualid(vec![ptree_helpers::ident(None, Position::default(), "a".into())]);
        let pre = ptree_helpers::tapp(
            Position::default(),
            ge_int,
            vec![
                ptree_helpers::tapp(
                    Position::default(),
                    length,
                    vec![ptree_helpers::tvar(Position::default(), id_a.clone())],
                ),
                ptree_helpers::tconst(Position::default(), 1),
            ],
        );
        i.add_pre(pre);
        i.add_writes(vec![ptree_helpers::tvar(Position::default(), id_a.clone())]);
        let post = ptree_helpers::tapp(
            Position::default(),
            eq_symb,
            vec![
                ptree_helpers::tapp(
                    Position::default(),
                    array_get,
                    vec![
                        ptree_helpers::tvar(Position::default(), id_a.clone()),
                        ptree_helpers::tconst(Position::default(), 0),
                    ],
                ),
                ptree_helpers::tconst(Position::default(), 42),
            ],
        );
        i.add_post(post);
        let body = ptree_helpers::eapp(
            Position::default(),
            array_set,
            vec![
                ptree_helpers::evar(Position::default(), id_a),
                ptree_helpers::econst(Position::default(), 0),
                ptree_helpers::econst(Position::default(), 42),
            ],
        );
        i.add_body(body);
        i.end_module();
        i.get_mlw_file()
    };

    let ctx = PrintCtx::new(FileTags::new());
    let mut doc = Doc::new();
    mlw_printer::pp_mlw_file(&ctx, None, &mut doc, &mlw_file_I);
    assert_eq!(
        "\
module M6
  use int.Int
  use array.Array
  
  let partial f (a : Array.array int)
    requires { Int.( >= ) (a.Array.length) 1 }
    ensures { (Array.( [] ) a 0) = 42 }
  = Array.( []<- ) a 0 42
end",
        render(&doc),
    );
}

fn int_text(kind: IntLiteralKind, i: i64) -> String {
    let mut doc = Doc::new();
    number::print_int_constant(&mut doc, &IntConstant { kind, int: Integer::from(i) });
    render(&doc)
}

fn real_text(kind: RealLiteralKind, sig: i64, pow2: i64, pow5: i64) -> String {
    let mut doc = Doc::new();
    let r = RealConstant {
        kind,
        real: RealValue { sig: Integer::from(sig), pow2: Integer::from(pow2), pow5: Integer::from(pow5) },
    };
    number::print_real_constant(&mut doc, &r);
    render(&doc)
}

#[test]
fn integer_literals() {
    assert_eq!(int_text(IntLiteralKind::Dec, 42), "42");
    assert_eq!(int_text(IntLiteralKind::Unk, 7), "7");
    assert_eq!(int_text(IntLiteralKind::Hex, 255), "0xFF");
    assert_eq!(int_text(IntLiteralKind::Oct, 8), "0o10");
    assert_eq!(int_text(IntLiteralKind::Bin, 5), "0b101");
    assert_eq!(int_text(IntLiteralKind::Dec, -5), "(- 5)");
    assert_eq!(int_text(IntLiteralKind::Hex, -255), "(- 0xFF)");
}

#[test]
fn digits_in_base() {
    let mut doc = Doc::new();
    number::print_in_base(&mut doc, 16, Some(4), &Integer::from(255));
    assert_eq!(render(&doc), "00FF");
    let mut doc = Doc::new();
    number::print_in_base(&mut doc, 2, None, &Integer::from(6));
    assert_eq!(render(&doc), "110");
}

#[test]
fn real_literals() {
    assert_eq!(real_text(RealLiteralKind::Dec(0), 15, -1, -1), "1.5");
    assert_eq!(real_text(RealLiteralKind::Dec(0), -15, -1, -1), "(- 1.5)");
    assert_eq!(real_text(RealLiteralKind::Dec(2), 3, 0, 0), "0.03e2");
    assert_eq!(real_text(RealLiteralKind::Hex(-4), 3, -4, 0), "0x3.0p-4");
    assert_eq!(real_text(RealLiteralKind::Unk, 25, 0, -2), "100.0e-2");
    assert_eq!(real_text(RealLiteralKind::Dec(0), 1, 0, 1), "5.0");
    assert_eq!(real_text(RealLiteralKind::Unk, 15, -1, -1), "15.0e-1");
    assert_eq!(real_text(RealLiteralKind::Unk, 3, 1, 0), "6.0");
    assert_eq!(real_text(RealLiteralKind::Hex(0), 1, 0, 0), "0x1.0p0");
}

#[test]
fn string_literals() {
    assert_eq!(constant::default_escape(b'\n'), "\\n");
    assert_eq!(constant::default_escape(b'"'), "\\\"");
    assert_eq!(constant::default_escape(b'a'), "a");
    assert_eq!(constant::default_escape(1), "\\x01");
    assert_eq!(constant::default_escape(200), "\\xC8");
    assert_eq!(constant::escape(constant::default_escape, "a\tb"), "a\\tb");
    assert_eq!(constant::escape(|c: u8| if c == b'a' { Cow::Borrowed("A") } else { Cow::Owned("-".to_string()) }, "abc"), "A--");
    let mut doc = Doc::new();
    constant::print_def(&mut doc, &Constant::Str("say \"hi\"".into()));
    assert_eq!(render(&doc), "\"say \\\"hi\\\"\"");
    let mut doc = Doc::new();
    constant::print(|_c: u8| Cow::Borrowed("?"), &mut doc, &Constant::Str("ab".into()));
    assert_eq!(render(&doc), "\"??\"");
}

#[test]
fn euclidean_remainders() {
    assert_eq!(Integer::from(7).euclidean_mod(&Integer::from(3)), Integer::from(1));
    assert_eq!(Integer::from(-7).euclidean_mod(&Integer::from(3)), Integer::from(2));
    assert_eq!(Integer::from(7).euclidean_mod(&Integer::from(-3)), Integer::from(1));
    assert_eq!(Integer::from(-7).euclidean_mod(&Integer::from(-3)), Integer::from(2));
    assert_eq!(Integer::from(-6).euclidean_mod(&Integer::from(3)), Integer::from(0));
}

#[test]
fn positions_in_text() {
    let mut tags = FileTags::new();
    let p = loc::user_position(&mut tags, "f.mlw", 3, 4, 3, 10);
    let mut doc = Doc::new();
    loc::pp_position(&tags, &mut doc, p);
    assert_eq!(render(&doc), "\"f.mlw\", line 3, characters 4-10");
    let q = loc::user_position(&mut tags, "", 1, 2, 4, 0);
    let mut doc = Doc::new();
    loc::pp_position(&tags, &mut doc, q);
    assert_eq!(render(&doc), "line 1, character 2 to line 4, character 0");
}

#[test]
fn commas_and_options() {
    let mut doc = Doc::new();
    doc.atom("a");
    pp::comma(&mut doc);
    doc.atom("b");
    assert_eq!(render(&doc), "a, b");
    let f = |s: &str| {
        let mut d = Doc::new();
        d.atom(s);
        d
    };
    let mut doc = Doc::new();
    pp::print_option(f, &mut doc, Some("x"));
    pp::print_option(f, &mut doc, None);
    assert_eq!(render(&doc), "x");
}

#[test]
fn top_level_declarations() {
    let mut s = State::create();
    s.add_prop(
        PropKind::Goal,
        Position::default(),
        "g".into(),
        ptree_helpers::term(Position::default(), TermDesc::True),
    );
    s.add_prop(
        PropKind::Axiom,
        Position::default(),
        "a".into(),
        ptree_helpers::term(Position::default(), TermDesc::False),
    );
    let f = s.get_mlw_file();
    assert!(matches!(&f, MlwFile::Decls(ds) if ds.len() == 2));
    let ctx = PrintCtx::new(FileTags::new());
    let mut doc = Doc::new();
    mlw_printer::pp_mlw_file(&ctx, None, &mut doc, &f);
    assert_eq!(render(&doc), "goal g: true\n\naxiom a: false");
}

#[test]
fn global_variable() {
    let mut s = State::create();
    let int_type = Pty::Tyapp(ptree_helpers::qualid(vec!["int".into()]), vec![]);
    s.add_global_var_decl(int_type, "x".into());
    let f = s.get_mlw_file();
    let ctx = PrintCtx::new(FileTags::new());
    let mut doc = Doc::new();
    mlw_printer::pp_mlw_file(&ctx, None, &mut doc, &f);
    assert_eq!(render(&doc), "let ref x = any int");
    match f {
        MlwFile::Decls(ds) => match &ds[..] {
            [Decl::Let(id, ghost, _, e)] => {
                assert_eq!(id.str, "x");
                assert!(!ghost);
                assert!(matches!(&id.ats[..], [Attr::Str(a)] if a.as_str() == "mlw:reference_var"));
                assert!(matches!(&e.desc, ExprDesc::Apply(r, _) if matches!(r.desc, ExprDesc::Ref)));
            }
            _ => panic!("one declaration expected"),
        },
        MlwFile::Modules(_) => panic!("declarations expected"),
    }
}

#[test]
fn empty_builder() {
    let s = State::create();
    assert!(matches!(s.get_mlw_file(), MlwFile::Modules(ms) if ms.is_empty()));
}

#[test]
fn marker_before_term() {
    let mut tags = FileTags::new();
    let l = loc::user_position(&mut tags, "f.mlw", 1, 0, 1, 1);
    let t = ptree_helpers::tvar(l, ptree_helpers::qualid(vec!["x".into()]));
    let ctx = PrintCtx::new(tags);
    let mut doc = Doc::new();
    mlw_printer::pp_term(&ctx, true, &mut doc, &t);
    assert_eq!(render(&doc), "x");
    let ctx = ctx.with_marker(Some("here".into()), l);
    let mut doc = Doc::new();
    mlw_printer::pp_term(&ctx, true, &mut doc, &t);
    assert_eq!(render(&doc), "(*here*) (x)");
    let ctx = ctx.with_marker(None, l);
    let mut doc = Doc::new();
    mlw_printer::pp_term(&ctx, true, &mut doc, &t);
    assert_eq!(render(&doc), "(*XXX*) (x)");
}

#[test]
fn marker_before_pattern_and_expression() {
    let mut tags = FileTags::new();
    let l = loc::user_position(&mut tags, "f.mlw", 2, 0, 2, 1);
    let p = ptree_helpers::pat(l, PatDesc::Wild);
    let e = ptree_helpers::econst(l, 3);
    let ctx = PrintCtx::new(tags).with_marker(Some("m".into()), l);
    let mut doc = Doc::new();
    mlw_printer::pp_pattern(&ctx, true, &mut doc, &p);
    assert_eq!(render(&doc), "(*m*) (_)");
    let mut doc = Doc::new();
    mlw_printer::pp_expr(&ctx, true, &mut doc, &e);
    assert_eq!(render(&doc), "(*m*) (3)");
}

#[test]
fn location_identifiers() {
    let mut tags = FileTags::new();
    let mut ids = IdLocs::new();
    let l = id_loc(&mut ids, &mut tags);
    let t = ptree_helpers::tvar(l, ptree_helpers::qualid(vec!["y".into()]));
    let mut ctx = PrintCtx::new(tags);
    let mut doc = Doc::new();
    mlw_printer::pp_term(&ctx, true, &mut doc, &t);
    assert_eq!(render(&doc), "y");
    ctx.print_ids = true;
    let mut doc = Doc::new();
    mlw_printer::pp_term(&ctx, true, &mut doc, &t);
    // the name itself is at the dummy location, line 0
    assert_eq!(render(&doc), "(*1*)(*0*)y");
    ctx.print_ids = false;
    ctx.only_ids = Some(vec![1]);
    let mut doc = Doc::new();
    mlw_printer::pp_term(&ctx, true, &mut doc, &t);
    assert_eq!(render(&doc), "(*1*)y");
}

#[test]
fn qualified_names_and_operators() {
    let ctx = PrintCtx::new(FileTags::new());
    let q: Qualid = ptree_helpers::qualid(vec!["Int".into(), ident::op_infix("+")]);
    let mut doc = Doc::new();
    mlw_printer::pp_qualid(&ctx, true, &mut doc, &q);
    assert_eq!(render(&doc), "Int.( + )");
}

fn var(x: &str) -> Term {
    ptree_helpers::tvar(Position::default(), ptree_helpers::qualid(vec![x.into()]))
}

fn term_text(d: TermDesc) -> String {
    let ctx = PrintCtx::new(FileTags::new());
    let mut doc = Doc::new();
    mlw_printer::pp_term(&ctx, true, &mut doc, &ptree_helpers::term(Position::default(), d));
    render(&doc)
}

#[test]
fn term_shapes() {
    assert_eq!(
        term_text(TermDesc::If(Box::new(var("x")), Box::new(var("y")), Box::new(var("z")))),
        "if x then y\nelse z"
    );
    assert_eq!(term_text(TermDesc::Tuple(vec![var("x"), var("y")])), "(x, y)");
    assert_eq!(term_text(TermDesc::Not(Box::new(var("x")))), "not x");
    let b_or_c = ptree_helpers::term(
        Position::default(),
        TermDesc::Binop(Box::new(var("b")), Dbinop::Or, Box::new(var("c"))),
    );
    assert_eq!(
        term_text(TermDesc::Binop(Box::new(var("a")), Dbinop::And, Box::new(b_or_c))),
        "a /\\ b \\/ c"
    );
    assert_eq!(
        term_text(TermDesc::Binnop(Box::new(var("a")), Dbinop::Implies, Box::new(var("b")))),
        "(a -> b)"
    );
}

fn evar(x: &str) -> why3_ptree::ptree::Expr {
    ptree_helpers::evar(Position::default(), ptree_helpers::qualid(vec![x.into()]))
}

fn expr_text(d: ExprDesc) -> String {
    let ctx = PrintCtx::new(FileTags::new());
    let mut doc = Doc::new();
    mlw_printer::pp_expr(&ctx, true, &mut doc, &ptree_helpers::expr(Position::default(), d));
    render(&doc)
}

#[test]
fn expression_shapes() {
    assert_eq!(
        expr_text(ExprDesc::If(Box::new(evar("c")), Box::new(evar("a")), Box::new(evar("b")))),
        "if c then a\nelse b"
    );
    assert_eq!(
        expr_text(ExprDesc::Sequence(Box::new(evar("a")), Box::new(evar("b")))),
        "a; b"
    );
    assert_eq!(expr_text(ExprDesc::Tuple(vec![evar("a"), evar("b")])), "(a, b)");
}

#[test]
fn imports() {
    let ctx = PrintCtx::new(FileTags::new());
    let d = ptree_helpers::use_(Position::default(), vec!["int".into(), "Int".into()], true);
    let mut doc = Doc::new();
    mlw_printer::pp_decl(&ctx, None, &mut doc, &d);
    assert_eq!(render(&doc), "use import int.Int");
    let d = ptree_helpers::use_(Position::default(), vec!["int".into(), "Int".into()], false);
    let mut doc = Doc::new();
    mlw_printer::pp_decl(&ctx, None, &mut doc, &d);
    assert_eq!(render(&doc), "use int.Int");
    let d = Decl::Cloneimport(
        Position::default(),
        true,
        ptree_helpers::qualid(vec!["a".into(), "B".into()]),
        None,
        vec![],
    );
    let mut doc = Doc::new();
    mlw_printer::pp_decl(&ctx, None, &mut doc, &d);
    assert_eq!(render(&doc), "clone import a.B");
}

#[test]
fn printable_trees() {
    let ctx = PrintCtx::new(FileTags::new());
    let x = var("x");
    assert!(wf_check::is_wf_term(&x));
    let labelled = ptree_helpers::term(
        Position::default(),
        TermDesc::Attr(Attr::Str(ident::attribute_of("a")), Box::new(var("x"))),
    );
    assert!(!wf_check::is_wf_term(&labelled));
    assert!(wf_check::is_wf_pat(&ptree_helpers::pat(Position::default(), PatDesc::Wild)));
    let int_type = Pty::Tyapp(ptree_helpers::qualid(vec!["int".into()]), vec![]);
    assert!(wf_check::is_wf_pty(&int_type));
    assert!(!wf_check::is_wf_pty(&Pty::Ref(vec![int_type])));
    assert!(wf_check::is_wf_expr(&ctx, &evar("a")));
    assert!(!wf_check::is_wf_expr(&ctx, &ptree_helpers::expr(Position::default(), ExprDesc::Rec(vec![], Box::new(evar("a"))))));
    let g = Decl::Prop(PropKind::Goal, ptree_helpers::ident(None, Position::default(), "g".into()), var("x"));
    assert!(wf_check::is_wf_decl(&ctx, &g));
    assert!(!wf_check::is_wf_decl(&ctx, &Decl::Type(vec![])));
    let f = MlwFile::Decls(vec![g]);
    assert!(wf_check::is_wf_mlw_file(&ctx, &f));
    assert!(wf_check::is_wf_const(&Constant::Str("s".into())));
    assert!(wf_check::is_real_printable(
        RealLiteralKind::Dec(0),
        &Integer::from(-1),
        &Integer::from(-1)
    ));
    assert!(!wf_check::is_real_printable(
        RealLiteralKind::Hex(0),
        &Integer::from(0),
        &Integer::from(-1)
    ));
}

#[test]
fn checked_printing() {
    let mut doc = Doc::new();
    assert!(wf_check::print_def_checked(&mut doc, &Constant::Int(IntConstant { kind: IntLiteralKind::Hex, int: Integer::from(255) })));
    assert_eq!(render(&doc), "0xFF");
    let bad = RealConstant {
        kind: RealLiteralKind::Hex(0),
        real: RealValue { sig: Integer::from(1), pow2: Integer::from(0), pow5: Integer::from(-1) },
    };
    let mut doc = Doc::new();
    assert!(!wf_check::print_real_constant_checked(&mut doc, &bad));
    assert!(doc.items.is_empty());
    let good = RealConstant {
        kind: RealLiteralKind::Dec(0),
        real: RealValue { sig: Integer::from(15), pow2: Integer::from(-1), pow5: Integer::from(-1) },
    };
    let mut doc = Doc::new();
    assert!(wf_check::print_real_constant_checked(&mut doc, &good));
    assert_eq!(render(&doc), "1.5");
}
