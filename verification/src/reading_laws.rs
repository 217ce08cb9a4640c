//! What a reader of the printed WhyML text finds in it: the keyword that a
//! declaration or a quantified formula starts with, the word that gives a
//! loop its direction, the parentheses around an applied type, and string
//! literals that the WhyML lexer reads back to the bytes they were made of.
//!
//! The laws here speak of the literal words of the WhyML syntax, so that
//! they pin down what the printers lay out rather than restate it.

use vstd::prelude::*;

use crate::decl::PropKind;
use crate::decl_spec::decl_layout;
use crate::doc::{at, sp, Layout};
use crate::dterm::Dquant;
use crate::expr::ForDirection;
use crate::expr_spec::expr_raw;
use crate::mlw_printer::PrintCtx;
use crate::number_spec::{digit_upper, escape_byte, escape_bytes, string_literal};
use crate::mlw_spec::{hv, marker_of, pty_closed, pty_raw, qualid, vb};
use crate::ptree::{Decl, Expr, ExprDesc, Ident, Invariant, Pty, Qualid, Term, TermDesc};
use crate::term_spec::{term_marked, term_raw};

verus! {

/// The text of the first atom that a layout prints, looking inside boxes;
/// empty when the layout starts with anything else.
pub open spec fn leading_atom(s: Seq<Layout>) -> Seq<char>
    decreases s,
{
    if s.len() == 0 {
        Seq::empty()
    } else {
        match s[0] {
            Layout::Atom(a) => a,
            Layout::Boxed(_, _, inner) => {
                proof {
                    assert(decreases_to!(s => s[0]));
                }
                leading_atom(inner)
            },
            _ => Seq::empty(),
        }
    }
}

/// No marker and no location identifier is printed at `loc`.
pub open spec fn plain_at(c: PrintCtx, loc: crate::loc::Position) -> bool {
    marker_of(c, loc) is None && !c.print_ids && c.only_ids is None
}

/// A proposition is printed starting with the WhyML keyword of its kind:
/// `lemma` for a lemma, `axiom` for an axiom, `goal` for a goal.
pub proof fn law_prop_keyword(c: PrintCtx, attr: bool, k: PropKind, id: Ident, t: Term)
    ensures
        k == PropKind::Lemma ==> leading_atom(decl_layout(c, attr, Decl::Prop(k, id, t))) == "lemma "@,
        k == PropKind::Axiom ==> leading_atom(decl_layout(c, attr, Decl::Prop(k, id, t))) == "axiom "@,
        k == PropKind::Goal ==> leading_atom(decl_layout(c, attr, Decl::Prop(k, id, t))) == "goal "@,
{
    reveal_with_fuel(leading_atom, 3);
    let d = decl_layout(c, attr, Decl::Prop(k, id, t));
    let kw = crate::decl_spec::prop_keyword(k) + " "@;
    assert(d[0] matches Layout::Boxed(_, _, inner) && inner[0] == Layout::Atom(kw));
    assert(leading_atom(d) == kw);
    reveal_strlit("lemma");
    reveal_strlit("axiom");
    reveal_strlit("goal");
    reveal_strlit(" ");
    reveal_strlit("lemma ");
    reveal_strlit("axiom ");
    reveal_strlit("goal ");
    assert(k == PropKind::Lemma ==> kw =~= "lemma "@);
    assert(k == PropKind::Axiom ==> kw =~= "axiom "@);
    assert(k == PropKind::Goal ==> kw =~= "goal "@);
}

/// A quantified formula is printed starting with the WhyML keyword of its
/// quantifier: `forall`, `exists`, or `fun` for a lambda; so also is the
/// whole term when nothing is printed at its location first.
pub proof fn law_quant_keyword(c: PrintCtx, attr: bool, t: Term)
    requires
        t.desc is Quant,
    ensures
        t.desc->Quant_0 == Dquant::Forall ==> leading_atom(term_raw(c, attr, t)) == "forall"@,
        t.desc->Quant_0 == Dquant::Exists ==> leading_atom(term_raw(c, attr, t)) == "exists"@,
        t.desc->Quant_0 == Dquant::Lambda ==> leading_atom(term_raw(c, attr, t)) == "fun"@,
        plain_at(c, t.loc) ==> term_marked(c, attr, t) == term_raw(c, attr, t),
{
    reveal_with_fuel(leading_atom, 3);
    assert(plain_at(c, t.loc) ==> term_marked(c, attr, t) =~= term_raw(c, attr, t));
}

/// The two directions of a `for` loop print the same loop but for the word
/// between its bounds: `downto` for a descending loop, `to` for an
/// ascending one; the loop ends with `done`.
pub proof fn law_for_direction(
    c: PrintCtx,
    attr: bool,
    id: Ident,
    a: Expr,
    b: Expr,
    invs: Invariant,
    body: Expr,
    loc: crate::loc::Position,
)
    ensures
        exists|p: Seq<Layout>, q: Seq<Layout>|
            {
                &&& #[trigger] expr_raw(
                    c,
                    attr,
                    Expr {
                        desc: ExprDesc::For(
                            id,
                            Box::new(a),
                            ForDirection::DownTo,
                            Box::new(b),
                            invs,
                            Box::new(body),
                        ),
                        loc,
                    },
                ) == vb(0, vb(2, p + at(" downto "@) + q) + sp() + at("done"@))
                &&& expr_raw(
                    c,
                    attr,
                    Expr {
                        desc: ExprDesc::For(
                            id,
                            Box::new(a),
                            ForDirection::To,
                            Box::new(b),
                            invs,
                            Box::new(body),
                        ),
                        loc,
                    },
                ) == vb(0, vb(2, p + at(" to "@) + q) + sp() + at("done"@))
            },
{
    let down = Expr {
        desc: ExprDesc::For(id, Box::new(a), ForDirection::DownTo, Box::new(b), invs, Box::new(body)),
        loc,
    };
    let up = Expr {
        desc: ExprDesc::For(id, Box::new(a), ForDirection::To, Box::new(b), invs, Box::new(body)),
        loc,
    };
    let p = at("for "@) + crate::mlw_spec::ident(c, attr, id) + at(" = "@) + crate::expr_spec::expr_marked(
        c,
        attr,
        a,
    );
    let q = crate::expr_spec::expr_marked(c, attr, b) + at(" do"@) + crate::expr_spec::invariants_layout(
        c,
        attr,
        invs@,
    ) + sp() + crate::expr_spec::expr_marked(c, attr, body);
    reveal_strlit("downto");
    reveal_strlit("to");
    reveal_strlit(" ");
    reveal_strlit(" downto ");
    reveal_strlit(" to ");
    assert(" "@ + crate::expr_spec::dir_text(ForDirection::DownTo) + " "@ =~= " downto "@);
    assert(" "@ + crate::expr_spec::dir_text(ForDirection::To) + " "@ =~= " to "@);
    let ld = at("for "@) + crate::mlw_spec::ident(c, attr, id) + at(" = "@) + crate::expr_spec::expr_marked(
        c,
        attr,
        a,
    ) + at(" "@ + crate::expr_spec::dir_text(ForDirection::DownTo) + " "@) + crate::expr_spec::expr_marked(
        c,
        attr,
        b,
    ) + at(" do"@) + crate::expr_spec::invariants_layout(c, attr, invs@) + sp()
        + crate::expr_spec::expr_marked(c, attr, body);
    let lu = at("for "@) + crate::mlw_spec::ident(c, attr, id) + at(" = "@) + crate::expr_spec::expr_marked(
        c,
        attr,
        a,
    ) + at(" "@ + crate::expr_spec::dir_text(ForDirection::To) + " "@) + crate::expr_spec::expr_marked(
        c,
        attr,
        b,
    ) + at(" do"@) + crate::expr_spec::invariants_layout(c, attr, invs@) + sp()
        + crate::expr_spec::expr_marked(c, attr, body);
    assert(ld =~= p + at(" downto "@) + q);
    assert(lu =~= p + at(" to "@) + q);
    assert(expr_raw(c, attr, down) == vb(0, vb(2, ld) + sp() + at("done"@)));
    assert(expr_raw(c, attr, up) == vb(0, vb(2, lu) + sp() + at("done"@)));
    assert(expr_raw(c, attr, down) == vb(0, vb(2, p + at(" downto "@) + q) + sp() + at("done"@)));
    assert(expr_raw(c, attr, up) == vb(0, vb(2, p + at(" to "@) + q) + sp() + at("done"@)));
}

/// An applied type with arguments, printed where a closed type is needed (as
/// an argument of another applied type, or on either side of an arrow), is
/// wrapped in parentheses; a type name applied to nothing is printed bare.
pub proof fn law_applied_type_parens(c: PrintCtx, attr: bool, q: Qualid, ps: Vec<Pty>)
    ensures
        ps@.len() > 0 ==> pty_closed(c, attr, Pty::Tyapp(q, ps)) == hv(
            1,
            at("("@) + pty_raw(c, attr, Pty::Tyapp(q, ps)) + at(")"@),
        ),
        ps@.len() == 0 ==> pty_closed(c, attr, Pty::Tyapp(q, ps)) == qualid(c, attr, q),
{
}

/// An applied type whose one argument is itself an applied type with
/// arguments prints that argument in parentheses: `list (list int)`, never
/// `list list int`.
pub proof fn law_nested_type_application(c: PrintCtx, attr: bool, q: Qualid, ps: Vec<Pty>)
    requires
        ps@.len() == 1,
        ps@[0] matches Pty::Tyapp(_, args) && args@.len() > 0,
    ensures
        pty_raw(c, attr, Pty::Tyapp(q, ps)) == hv(
            2,
            qualid(c, attr, q) + sp() + hv(1, at("("@) + pty_raw(c, attr, ps@[0]) + at(")"@)),
        ),
{
    let inner = ps@[0];
    assert(crate::mlw_spec::ptys_closed(c, attr, ps@) =~= seq![pty_closed(c, attr, inner)]) by {
        reveal_with_fuel(crate::mlw_spec::ptys_closed, 2);
        assert(ps@.drop_last().len() == 0);
    }
    assert(crate::doc::join(crate::mlw_spec::ptys_closed(c, attr, ps@), at(" "@)) == pty_closed(
        c,
        attr,
        inner,
    ));
}

/// The value of a hexadecimal digit, in either case.
pub open spec fn hex_value(ch: char) -> Option<nat> {
    if '0' <= ch && ch <= '9' {
        Some((ch as nat - 48) as nat)
    } else if 'A' <= ch && ch <= 'F' {
        Some((ch as nat - 55) as nat)
    } else if 'a' <= ch && ch <= 'f' {
        Some((ch as nat - 87) as nat)
    } else {
        None
    }
}

/// How the WhyML lexer reads the first byte of the text inside a string
/// literal: a backslash escape (`\\`, `\"`, `\n`, `\r`, `\t`, `\b`, or `\x`
/// and two hexadecimal digits) or a printable ASCII character other than the
/// closing quote. The result is the byte and the number of characters read.
pub open spec fn read_byte(s: Seq<char>) -> Option<(u8, nat)> {
    if s.len() == 0 {
        None
    } else if s[0] == '\\' {
        if s.len() < 2 {
            None
        } else if s[1] == '\\' {
            Some((92u8, 2nat))
        } else if s[1] == '"' {
            Some((34u8, 2nat))
        } else if s[1] == 'n' {
            Some((10u8, 2nat))
        } else if s[1] == 'r' {
            Some((13u8, 2nat))
        } else if s[1] == 't' {
            Some((9u8, 2nat))
        } else if s[1] == 'b' {
            Some((8u8, 2nat))
        } else if s[1] == 'x' && s.len() >= 4 && hex_value(s[2]) is Some && hex_value(s[3]) is Some {
            Some(((16 * hex_value(s[2])->0 + hex_value(s[3])->0) as u8, 4nat))
        } else {
            None
        }
    } else if ' ' <= s[0] && s[0] <= '~' && s[0] != '"' {
        Some((s[0] as u8, 1nat))
    } else {
        None
    }
}

/// The bytes that the WhyML lexer reads from the text inside a string
/// literal, or `None` where that text is not a sequence of such reads.
pub open spec fn read_bytes(s: Seq<char>) -> Option<Seq<u8>>
    decreases s.len(),
{
    if s.len() == 0 {
        Some(Seq::empty())
    } else {
        match read_byte(s) {
            Some((b, n)) => if 0 < n <= s.len() {
                match read_bytes(s.skip(n as int)) {
                    Some(rest) => Some(seq![b] + rest),
                    None => None,
                }
            } else {
                None
            },
            None => None,
        }
    }
}

proof fn lemma_hex_digit(d: nat)
    requires
        d < 16,
    ensures
        hex_value(digit_upper(d)) == Some(d),
{
}

/// The escape of any byte, read back by the WhyML lexer, gives that byte and
/// is read whole, whatever text follows it.
pub proof fn law_escape_reads_back(c: u8, rest: Seq<char>)
    ensures
        read_byte(escape_byte(c) + rest) == Some((c, escape_byte(c).len())),
{
    reveal_strlit("\\\\");
    reveal_strlit("\\n");
    reveal_strlit("\\r");
    reveal_strlit("\\t");
    reveal_strlit("\\b");
    reveal_strlit("\\\"");
    reveal_strlit("\\x");
    let e = escape_byte(c);
    let s = e + rest;
    if c == 92 || c == 10 || c == 13 || c == 9 || c == 8 || c == 34 {
        assert(s[0] == e[0] && s[1] == e[1]);
    } else if 32 <= c <= 126 {
        assert(s[0] == c as char);
    } else {
        lemma_hex_digit((c / 16) as nat);
        lemma_hex_digit((c % 16) as nat);
        assert(s[0] == e[0] && s[1] == e[1] && s[2] == e[2] && s[3] == e[3]);
        assert(16 * ((c / 16) as nat) + (c % 16) as nat == c);
    }
}

proof fn lemma_escape_bytes_front(bs: Seq<u8>)
    requires
        bs.len() > 0,
    ensures
        escape_bytes(bs) == escape_byte(bs[0]) + escape_bytes(bs.skip(1)),
    decreases bs.len(),
{
    if bs.len() == 1 {
        assert(bs.drop_last().len() == 0);
        assert(bs.skip(1).len() == 0);
        assert(escape_bytes(bs.drop_last()) =~= Seq::<char>::empty());
        assert(escape_bytes(bs.skip(1)) =~= Seq::<char>::empty());
        assert(bs.last() == bs[0]);
        assert(escape_bytes(bs) =~= escape_byte(bs[0]) + escape_bytes(bs.skip(1)));
    } else {
        lemma_escape_bytes_front(bs.drop_last());
        assert(bs.drop_last().skip(1) =~= bs.skip(1).drop_last());
        assert(bs.skip(1).last() == bs.last());
        assert(bs.drop_last()[0] == bs[0]);
        assert(escape_bytes(bs.skip(1)) == escape_bytes(bs.skip(1).drop_last()) + escape_byte(
            bs.skip(1).last(),
        ));
        assert(escape_bytes(bs) == escape_bytes(bs.drop_last()) + escape_byte(bs.last()));
        assert(escape_bytes(bs) =~= escape_byte(bs[0]) + escape_bytes(bs.skip(1)));
    }
}

/// Escaped bytes, read back by the WhyML lexer, give the same bytes.
pub proof fn law_escapes_read_back(bs: Seq<u8>)
    ensures
        read_bytes(escape_bytes(bs)) == Some(bs),
    decreases bs.len(),
{
    if bs.len() == 0 {
        assert(escape_bytes(bs).len() == 0);
    } else {
        lemma_escape_bytes_front(bs);
        let e = escape_byte(bs[0]);
        let tail = escape_bytes(bs.skip(1));
        law_escape_reads_back(bs[0], tail);
        lemma_escape_nonempty(bs[0]);
        assert((e + tail).skip(e.len() as int) =~= tail);
        law_escapes_read_back(bs.skip(1));
        assert(seq![bs[0]] + bs.skip(1) =~= bs);
    }
}

proof fn lemma_escape_nonempty(c: u8)
    ensures
        escape_byte(c).len() > 0,
{
    reveal_strlit("\\\\");
    reveal_strlit("\\n");
    reveal_strlit("\\r");
    reveal_strlit("\\t");
    reveal_strlit("\\b");
    reveal_strlit("\\\"");
    reveal_strlit("\\x");
}

/// A string literal is the text between two quotes that the WhyML lexer
/// reads back to the UTF-8 bytes of the string.
pub proof fn law_string_literal_reads_back(s: Seq<char>)
    ensures
        exists|inside: Seq<char>|
            #[trigger] read_bytes(inside) == Some(vstd::utf8::encode_utf8(s)) && string_literal(s)
                == "\""@ + inside + "\""@,
{
    law_escapes_read_back(vstd::utf8::encode_utf8(s));
    let inside = escape_bytes(vstd::utf8::encode_utf8(s));
    assert(read_bytes(inside) == Some(vstd::utf8::encode_utf8(s)));
}

} // verus!
