//! Representations of numeric values, and their printing as WhyML literals.

use vstd::prelude::*;

use malachite::Integer;

use crate::big_int::{
    RemN,
    int_value, integer_abs, integer_eq, integer_from_isize,
    integer_lt, integer_mul, integer_neg, integer_pow, integer_power_of_2, integer_sub,
    integer_to_isize, integer_to_string, integer_to_string_base_upper, integer_unsigned_abs_u64,
    integer_unsigned_abs_usize,
};
use crate::doc::{at, Doc};
use crate::number_spec::{
    base_digits, dec_real_layout, hex_exponent, hex_real_layout, int_literal_layout,
    int_literal_raw, min, pow2, pow5, real_literal_layout, real_printable, real_raw_layout,
    split_digits, zeros,
};
use crate::text::digits;

verus! {

pub enum DefaultOrCustom<T> {
    Default,
    Custom(T),
}

pub enum DefaultOrCustomOrUnsupported<T, U> {
    Default,
    Custom(T),
    Unsupported(U),
}

pub enum CustomOrUnsupported<T, U> {
    Custom(T),
    Unsupported(U),
}

#[derive(Clone, Copy, PartialEq, Eq, Hash, Debug, Structural)]
pub enum IntLiteralKind {
    Unk,
    Dec,
    Hex,
    Oct,
    Bin,
}

#[derive(PartialEq, Eq, Hash, Debug)]
pub struct IntConstant {
    pub kind: IntLiteralKind,
    pub int: malachite::Integer,
}

#[derive(PartialEq, Eq, Hash, Debug)]
pub struct RealValue {
    pub sig: malachite::Integer,
    pub pow2: malachite::Integer,
    pub pow5: malachite::Integer,
}

#[derive(Clone, Copy, PartialEq, Eq, Hash, Debug, Structural)]
pub enum RealLiteralKind {
    Unk,
    Dec(isize),
    Hex(isize),
}

#[derive(PartialEq, Eq, Hash, Debug)]
pub struct RealConstant {
    pub kind: RealLiteralKind,
    pub real: RealValue,
}

} // verus!

verus! {

fn zeros_string(n: usize) -> (r: String)
    ensures
        r@ == zeros(n as nat),
{
    let mut r = String::new();
    let mut i: usize = 0;
    while i < n
        invariant
            i <= n,
            r@ == zeros(i as nat),
        decreases n - i,
    {
        proof {
            reveal_strlit("0");
        }
        r.append("0");
        assert(r@ =~= zeros((i + 1) as nat));
        i += 1;
    }
    r
}

/// Prints the digits of non-negative `i` in base `radix`, with leading zeros up
/// to `digits` characters (one by default).
pub fn print_in_base(doc: &mut Doc, radix: u8, digits: Option<isize>, i: &Integer)
    requires
        int_value(*i) >= 0,
        2 <= radix <= 36,
        digits matches Some(d) ==> d >= 0,
    ensures
        final(doc)@ == old(doc)@ + at(
            {
                let s = base_digits(int_value(*i) as nat, radix as nat);
                let w: int = match digits {
                    Some(d) => d as int,
                    None => 1,
                };
                if s.len() < w {
                    zeros((w - s.len()) as nat) + s
                } else {
                    s
                }
            },
        ),
{
    let w: usize = match digits {
        Some(d) => d as usize,
        None => 1,
    };
    let s = integer_to_string_base_upper(i, radix);
    let n = s.as_str().unicode_len();
    if n < w {
        let mut z = zeros_string(w - n);
        z.append(s.as_str());
        doc.atom_string(z);
    } else {
        doc.atom_string(s);
    }
}

/// The digits `s` cut before their last `p` digits, as `split_digits` says.
fn split_digits_exec(s: String, p: usize) -> (r: (String, String))
    requires
        p < usize::MAX,
    ensures
        (r.0@, r.1@) == split_digits(s@, p as nat),
{
    let n0 = s.as_str().unicode_len();
    let t = if n0 <= p {
        let mut z = zeros_string(p + 1 - n0);
        z.append(s.as_str());
        z
    } else {
        s
    };
    let n = t.as_str().unicode_len();
    let ip = t.as_str().substring_char(0, n - p).to_owned();
    let f = t.as_str().substring_char(n - p, n).to_owned();
    proof {
        assert(t@.subrange(0, n - p) =~= t@.take(n - p));
    }
    if f.as_str().unicode_len() == 0 {
        proof {
            reveal_strlit("0");
        }
        (ip, String::from_str("0"))
    } else {
        (ip, f)
    }
}

fn integer_min(a: &Integer, b: &Integer) -> (r: Integer)
    ensures
        int_value(r) == min(int_value(*a), int_value(*b)),
{
    if integer_lt(b, a) {
        b.clone()
    } else {
        a.clone()
    }
}

fn print_dec_int(doc: &mut Doc, i: &Integer)
    requires
        int_value(*i) >= 0,
    ensures
        final(doc)@ == old(doc)@ + at(digits(int_value(*i) as nat)),
{
    doc.atom_string(integer_to_string(i));
}

fn print_hex_int(doc: &mut Doc, i: &Integer)
    requires
        int_value(*i) >= 0,
    ensures
        final(doc)@ == old(doc)@ + at("0x"@) + at(base_digits(int_value(*i) as nat, 16)),
{
    doc.atom("0x");
    doc.atom_string(integer_to_string_base_upper(i, 16));
}

fn print_oct_int(doc: &mut Doc, i: &Integer)
    requires
        int_value(*i) >= 0,
    ensures
        final(doc)@ == old(doc)@ + at("0o"@) + at(base_digits(int_value(*i) as nat, 8)),
{
    doc.atom("0o");
    doc.atom_string(integer_to_string_base_upper(i, 8));
}

fn print_bin_int(doc: &mut Doc, i: &Integer)
    requires
        int_value(*i) >= 0,
    ensures
        final(doc)@ == old(doc)@ + at("0b"@) + at(base_digits(int_value(*i) as nat, 2)),
{
    doc.atom("0b");
    doc.atom_string(integer_to_string_base_upper(i, 2));
}

fn print_int_raw(doc: &mut Doc, k: IntLiteralKind, i: &Integer)
    requires
        int_value(*i) >= 0,
    ensures
        final(doc)@ == old(doc)@ + int_literal_raw(k, int_value(*i) as nat),
{
    match k {
        IntLiteralKind::Unk | IntLiteralKind::Dec => print_dec_int(doc, i),
        IntLiteralKind::Hex => print_hex_int(doc, i),
        IntLiteralKind::Oct => print_oct_int(doc, i),
        IntLiteralKind::Bin => print_bin_int(doc, i),
    }
}

fn print_int_literal(doc: &mut Doc, k: IntLiteralKind, i: &Integer)
    ensures
        final(doc)@ == old(doc)@ + int_literal_layout(k, int_value(*i)),
{
    let zero = integer_from_isize(0);
    if integer_lt(i, &zero) {
        doc.atom("(- ");
        print_int_raw(doc, k, &integer_abs(i));
        doc.atom(")");
    } else {
        print_int_raw(doc, k, i);
    }
}

/// Prints an integer constant as a WhyML literal of its kind.
pub fn print_int_constant(doc: &mut Doc, x: &IntConstant)
    ensures
        final(doc)@ == old(doc)@ + int_literal_layout(x.kind, int_value(x.int)),
{
    print_int_literal(doc, x.kind, &x.int);
}

/// The text of a real literal from its integer part, fractional part and
/// exponent, in the given base notation.
fn real_text(hex: bool, ip: &str, fp: &str, e: &str) -> (r: String)
    ensures
        r@ == if hex {
            "0x"@ + ip@ + "."@ + fp@ + "p"@ + e@
        } else if e@.len() == 0 {
            ip@ + "."@ + fp@
        } else {
            ip@ + "."@ + fp@ + "e"@ + e@
        },
{
    let mut r = if hex {
        String::from_str("0x")
    } else {
        String::new()
    };
    r.append(ip);
    r.append(".");
    r.append(fp);
    if hex {
        r.append("p");
        r.append(e);
    } else if e.unicode_len() > 0 {
        r.append("e");
        r.append(e);
    }
    proof {
        reveal_strlit("");
        reveal_strlit("0x");
    }
    assert(r@ =~= if hex {
        "0x"@ + ip@ + "."@ + fp@ + "p"@ + e@
    } else if e@.len() == 0 {
        ip@ + "."@ + fp@
    } else {
        ip@ + "."@ + fp@ + "e"@ + e@
    });
    r
}

fn print_dec_real(doc: &mut Doc, k: &Integer, r: &RealValue)
    requires
        int_value(r.sig) >= 0,
        ({
            let e = min(min(int_value(r.pow2), int_value(r.pow5)), int_value(*k));
            int_value(r.pow2) - e <= u64::MAX && int_value(r.pow5) - e <= u64::MAX
                && int_value(*k) - e < usize::MAX
        }),
    ensures
        final(doc)@ == old(doc)@ + dec_real_layout(
            int_value(*k),
            int_value(r.sig) as nat,
            int_value(r.pow2),
            int_value(r.pow5),
        ),
{
    let ghost (kv, sig, p2, p5) = (
        int_value(*k),
        int_value(r.sig),
        int_value(r.pow2),
        int_value(r.pow5),
    );
    let e = integer_min(&integer_min(&r.pow2, &r.pow5), k);
    let p2_e = integer_unsigned_abs_u64(&integer_sub(&r.pow2, &e)).unwrap();
    let i = integer_mul(&r.sig, &integer_power_of_2(p2_e));
    let p5_e = integer_unsigned_abs_u64(&integer_sub(&r.pow5, &e)).unwrap();
    let i = integer_mul(&i, &integer_pow(&integer_from_isize(5), p5_e));
    proof {
        vstd::arithmetic::power::lemma_pow_positive(5, p5_e as nat);
        vstd::arithmetic::power2::lemma_pow2_pos(p2_e as nat);
        let a = sig * pow2(p2_e as nat);
        assert(a >= 0) by (nonlinear_arith)
            requires
                a == sig * pow2(p2_e as nat),
                sig >= 0,
                pow2(p2_e as nat) > 0,
        ;
        assert(a * pow5(p5_e as nat) >= 0) by (nonlinear_arith)
            requires
                a == sig * pow2(p2_e as nat),
                a >= 0,
                pow5(p5_e as nat) > 0,
        ;
    }
    let s = integer_to_string(&i);
    let p = integer_unsigned_abs_usize(&integer_sub(k, &e)).unwrap();
    let (ip, fp) = split_digits_exec(s, p);
    let zero = integer_from_isize(0);
    let es = if integer_eq(k, &zero) {
        String::new()
    } else {
        integer_to_string(k)
    };
    proof {
        if kv != 0 {
            assert(crate::text::decimal(kv).len() > 0) by {
                if kv < 0 {
                } else {
                    assert(digits(kv as nat).len() > 0);
                }
            }
        }
    }
    let t = real_text(false, ip.as_str(), fp.as_str(), es.as_str());
    doc.atom_string(t);
}

fn print_hex_real(doc: &mut Doc, k: &Integer, r: &RealValue)
    requires
        int_value(r.sig) >= 0,
        ({
            let e = hex_exponent(int_value(*k), int_value(r.pow2));
            int_value(r.pow5) >= 0 && int_value(r.pow5) <= u64::MAX && int_value(r.pow2) - e
                <= u64::MAX && int_value(*k) - e < usize::MAX
        }),
    ensures
        final(doc)@ == old(doc)@ + hex_real_layout(
            int_value(*k),
            int_value(r.sig) as nat,
            int_value(r.pow2),
            int_value(r.pow5),
        ),
{
    let ghost (kv, sig, p2, p5) = (
        int_value(*k),
        int_value(r.sig),
        int_value(r.pow2),
        int_value(r.pow5),
    );
    let e = if integer_lt(&r.pow2, k) {
        let four = integer_from_isize(4);
        let m = integer_sub(&r.pow2, k).euclidean_mod(&four);
        integer_sub(&r.pow2, &m)
    } else {
        k.clone()
    };
    assert(int_value(e) == hex_exponent(kv, p2));
    proof {
        if p2 < kv {
            assert(0 <= (p2 - kv) % 4 < 4);
        }
    }
    let p2_e = integer_unsigned_abs_u64(&integer_sub(&r.pow2, &e)).unwrap();
    let i = integer_mul(&r.sig, &integer_power_of_2(p2_e));
    let p5_ = integer_unsigned_abs_u64(&r.pow5).unwrap();
    let i = integer_mul(&i, &integer_pow(&integer_from_isize(5), p5_));
    proof {
        vstd::arithmetic::power::lemma_pow_positive(5, p5_ as nat);
        vstd::arithmetic::power2::lemma_pow2_pos(p2_e as nat);
        let a = sig * pow2(p2_e as nat);
        assert(a >= 0) by (nonlinear_arith)
            requires
                a == sig * pow2(p2_e as nat),
                sig >= 0,
                pow2(p2_e as nat) > 0,
        ;
        assert(a * pow5(p5_ as nat) >= 0) by (nonlinear_arith)
            requires
                a == sig * pow2(p2_e as nat),
                a >= 0,
                pow5(p5_ as nat) > 0,
        ;
    }
    let s = integer_to_string_base_upper(&i, 16);
    let p = integer_unsigned_abs_usize(&integer_sub(k, &e)).unwrap();
    let p = p / 4;
    let (ip, fp) = split_digits_exec(s, p);
    let zero = integer_from_isize(0);
    let es = if integer_eq(k, &zero) {
        proof {
            reveal_strlit("0");
        }
        String::from_str("0")
    } else {
        integer_to_string(k)
    };
    let t = real_text(true, ip.as_str(), fp.as_str(), es.as_str());
    doc.atom_string(t);
}

fn print_real_raw(doc: &mut Doc, kind: RealLiteralKind, r: &RealValue)
    requires
        int_value(r.sig) >= 0,
        real_printable(kind, int_value(r.pow2), int_value(r.pow5)),
    ensures
        final(doc)@ == old(doc)@ + real_raw_layout(
            kind,
            int_value(r.sig) as nat,
            int_value(r.pow2),
            int_value(r.pow5),
        ),
{
    match kind {
        RealLiteralKind::Dec(e) => print_dec_real(doc, &integer_from_isize(e), r),
        RealLiteralKind::Hex(e) => print_hex_real(doc, &integer_from_isize(e), r),
        RealLiteralKind::Unk => {
            let e = integer_min(&r.pow2, &r.pow5);
            let small = match integer_to_isize(&e) {
                Some(ei) => 0 <= ei && ei <= 2,
                None => false,
            };
            let k = if small {
                integer_from_isize(0)
            } else {
                e
            };
            print_dec_real(doc, &k, r);
        },
    }
}

/// Prints a real constant as a WhyML literal of its kind.
pub fn print_real_constant(doc: &mut Doc, r: &RealConstant)
    requires
        real_printable(r.kind, int_value(r.real.pow2), int_value(r.real.pow5)),
    ensures
        final(doc)@ == old(doc)@ + real_literal_layout(
            r.kind,
            int_value(r.real.sig),
            int_value(r.real.pow2),
            int_value(r.real.pow5),
        ),
{
    let zero = integer_from_isize(0);
    if integer_lt(&r.real.sig, &zero) {
        let v = RealValue {
            sig: integer_neg((&r.real.sig).clone()),
            pow2: (&r.real.pow2).clone(),
            pow5: (&r.real.pow5).clone(),
        };
        doc.atom("(- ");
        print_real_raw(doc, r.kind, &v);
        doc.atom(")");
    } else {
        print_real_raw(doc, r.kind, &r.real);
    }
}

} // verus!
