//! Constants, and their printing.

use vstd::prelude::*;

use std::borrow::Cow;

use crate::big_int::int_value;
use crate::doc::{at, Doc};
use crate::number::{print_int_constant, print_real_constant, IntConstant, RealConstant};
use crate::number_spec::{
    const_layout, digit_upper, escape_byte, escape_bytes, string_literal, wf_const,
};

verus! {

#[derive(PartialEq, Eq, Hash, Debug)]
pub enum Constant {
    Int(IntConstant),
    Real(RealConstant),
    Str(String),
}

} // verus!

verus! {

/// `<char as ToString>::to_string`: the one-character string.
#[verifier::external_body]
fn char_to_string(c: char) -> (r: String)
    ensures
        r@ == seq![c],
{
    c.to_string()
}

fn upper_digit_char(d: u8) -> (c: char)
    requires
        d < 16,
    ensures
        c == digit_upper(d as nat),
{
    if d < 10 {
        (d + 48) as char
    } else {
        (d + 55) as char
    }
}

/// The escape sequence of a byte in a string literal: the usual backslash
/// escapes, the printable ASCII characters as themselves, and `\xHH` for the
/// other bytes.
pub fn default_escape(c: u8) -> (r: Cow<'static, str>)
    ensures
        r@ == escape_byte(c),
{
    proof {
        reveal_strlit("\\\\");
        reveal_strlit("\\n");
        reveal_strlit("\\r");
        reveal_strlit("\\t");
        reveal_strlit("\\b");
        reveal_strlit("\\\"");
        reveal_strlit("\\x");
    }
    if c == 92 {
        Cow::Borrowed("\\\\")
    } else if c == 10 {
        Cow::Borrowed("\\n")
    } else if c == 13 {
        Cow::Borrowed("\\r")
    } else if c == 9 {
        Cow::Borrowed("\\t")
    } else if c == 8 {
        Cow::Borrowed("\\b")
    } else if c == 34 {
        Cow::Borrowed("\\\"")
    } else if 32 <= c && c <= 126 {
        Cow::Owned(char_to_string(c as char))
    } else {
        let mut r = String::from_str("\\x");
        r.append(char_to_string(upper_digit_char(c / 16)).as_str());
        r.append(char_to_string(upper_digit_char(c % 16)).as_str());
        assert(r@ =~= escape_byte(c));
        Cow::Owned(r)
    }
}

/// The texts `outs`, one after the other.
pub open spec fn concat_views(outs: Seq<Cow<'static, str>>) -> Seq<char>
    decreases outs.len(),
{
    if outs.len() == 0 {
        Seq::empty()
    } else {
        concat_views(outs.drop_last()) + outs.last()@
    }
}

/// `r` is the text of the bytes `bs`, each escaped by a call of `f`.
pub open spec fn escapes_to<F: Fn(u8) -> Cow<'static, str>>(f: F, bs: Seq<u8>, r: Seq<char>) -> bool {
    exists|outs: Seq<Cow<'static, str>>|
        outs.len() == bs.len() && (forall|i: int|
            0 <= i < bs.len() ==> call_ensures(f, (bs[i],), #[trigger] outs[i])) && r
            == concat_views(outs)
}

/// Escaping with [`default_escape`] gives [`escape_bytes`].
pub proof fn lemma_default_escapes(bs: Seq<u8>, r: Seq<char>)
    requires
        escapes_to(default_escape, bs, r),
    ensures
        r == escape_bytes(bs),
{
    let outs = choose|outs: Seq<Cow<'static, str>>|
        outs.len() == bs.len() && (forall|i: int|
            0 <= i < bs.len() ==> call_ensures(default_escape, (bs[i],), #[trigger] outs[i])) && r
            == concat_views(outs);
    lemma_concat_default(bs, outs);
}

proof fn lemma_concat_default(bs: Seq<u8>, outs: Seq<Cow<'static, str>>)
    requires
        outs.len() == bs.len(),
        forall|i: int| 0 <= i < bs.len() ==> call_ensures(default_escape, (bs[i],), #[trigger] outs[i]),
    ensures
        concat_views(outs) == escape_bytes(bs),
    decreases bs.len(),
{
    if bs.len() > 0 {
        let n = bs.len() - 1;
        assert(call_ensures(default_escape, (bs[n],), outs[n]));
        lemma_concat_default(bs.drop_last(), outs.drop_last());
    }
}

/// The bytes of `s`, each escaped by `f`.
pub fn escape<F: Fn(u8) -> Cow<'static, str>>(f: F, s: &str) -> (r: String)
    requires
        forall|c: u8| call_requires(f, (c,)),
    ensures
        escapes_to(f, vstd::utf8::encode_utf8(s@), r@),
{
    let bytes = s.as_bytes();
    let mut r = String::new();
    let ghost mut outs: Seq<Cow<'static, str>> = Seq::empty();
    let mut i: usize = 0;
    while i < bytes.len()
        invariant
            i <= bytes@.len(),
            bytes@ == vstd::utf8::encode_utf8(s@),
            forall|c: u8| call_requires(f, (c,)),
            outs.len() == i,
            forall|j: int| 0 <= j < i ==> call_ensures(f, (bytes@[j],), #[trigger] outs[j]),
            r@ == concat_views(outs),
        decreases bytes@.len() - i,
    {
        let e = f(bytes[i]);
        match &e {
            Cow::Borrowed(b) => r.append(b),
            Cow::Owned(o) => r.append(o.as_str()),
        }
        proof {
            let o = outs;
            outs = outs.push(e);
            assert(outs.drop_last() =~= o);
        }
        i += 1;
    }
    r
}

/// Prints a string constant as a WhyML string literal, in double quotes with
/// its bytes escaped by `string_escape`.
pub fn print_string_constant<F: Fn(u8) -> Cow<'static, str>>(string_escape: F, doc: &mut Doc, s: &str)
    requires
        forall|c: u8| call_requires(string_escape, (c,)),
    ensures
        exists|e: Seq<char>|
            escapes_to(string_escape, vstd::utf8::encode_utf8(s@), e) && #[trigger] final(doc)@
                == old(doc)@ + at("\""@ + e + "\""@),
{
    let mut t = String::from_str("\"");
    let e = escape(string_escape, s);
    t.append(e.as_str());
    t.append("\"");
    doc.atom_string(t);
    assert(doc@ == old(doc)@ + at("\""@ + e@ + "\""@));
}

/// Prints a constant as a WhyML literal, with full support of every kind of
/// number literal and the bytes of a string escaped by `string_escape`.
pub fn print<F: Fn(u8) -> Cow<'static, str>>(string_escape: F, doc: &mut Doc, x: &Constant)
    requires
        wf_const(*x),
        forall|c: u8| call_requires(string_escape, (c,)),
    ensures
        !(x is Str) ==> final(doc)@ == old(doc)@ + const_layout(*x),
        x matches Constant::Str(s) ==> exists|e: Seq<char>|
            escapes_to(string_escape, vstd::utf8::encode_utf8(s@), e) && #[trigger] final(doc)@
                == old(doc)@ + at("\""@ + e + "\""@),
{
    match x {
        Constant::Int(i) => print_int_constant(doc, i),
        Constant::Real(r) => print_real_constant(doc, r),
        Constant::Str(s) => print_string_constant(string_escape, doc, s.as_str()),
    }
}

/// Prints a constant as a WhyML literal, with full support of every kind of
/// literal and the default escapes.
pub fn print_def(doc: &mut Doc, x: &Constant)
    requires
        wf_const(*x),
    ensures
        final(doc)@ == old(doc)@ + const_layout(*x),
{
    print(default_escape, doc, x);
    proof {
        if let Constant::Str(s) = x {
            let e = choose|e: Seq<char>|
                escapes_to(default_escape, vstd::utf8::encode_utf8(s@), e) && doc@ == old(doc)@
                    + at("\""@ + e + "\""@);
            lemma_default_escapes(vstd::utf8::encode_utf8(s@), e);
        }
    }
}

} // verus!
