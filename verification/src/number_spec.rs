//! The layout of constants as WhyML literals, with full support of every
//! kind of literal.

use vstd::prelude::*;

use crate::big_int::int_value;
use crate::constant::Constant;
use crate::doc::{at, Layout};
use crate::number::{IntLiteralKind, RealLiteralKind};
use crate::text::{decimal, digits};

verus! {

/// A digit of a number written in a base up to 36, in upper case.
pub open spec fn digit_upper(d: nat) -> char {
    if d < 10 {
        (d + 48) as char
    } else {
        (d + 55) as char
    }
}

/// The digits of a natural number in base `radix`, in upper case.
pub open spec fn base_digits(n: nat, radix: nat) -> Seq<char>
    decreases n,
{
    if radix < 2 || n < radix {
        seq![digit_upper(n)]
    } else {
        proof {
            vstd::arithmetic::div_mod::lemma_div_decreases(n as int, radix as int);
        }
        base_digits(n / radix, radix).push(digit_upper(n % radix))
    }
}

pub open spec fn int_literal_raw(k: IntLiteralKind, v: nat) -> Seq<Layout> {
    match k {
        IntLiteralKind::Unk | IntLiteralKind::Dec => at(digits(v)),
        IntLiteralKind::Hex => at("0x"@) + at(base_digits(v, 16)),
        IntLiteralKind::Oct => at("0o"@) + at(base_digits(v, 8)),
        IntLiteralKind::Bin => at("0b"@) + at(base_digits(v, 2)),
    }
}

/// An integer literal of the given kind and value.
pub open spec fn int_literal_layout(k: IntLiteralKind, v: int) -> Seq<Layout> {
    if v < 0 {
        at("(- "@) + int_literal_raw(k, (-v) as nat) + at(")"@)
    } else {
        int_literal_raw(k, v as nat)
    }
}

pub open spec fn zeros(n: nat) -> Seq<char> {
    Seq::new(n, |i: int| '0')
}

/// The digits `s` cut before their last `p` digits, padded with zeros so that at
/// least one digit comes before the cut; the part after the cut is `0` when empty.
pub open spec fn split_digits(s: Seq<char>, p: nat) -> (Seq<char>, Seq<char>) {
    let t = if s.len() <= p {
        zeros((p + 1 - s.len()) as nat) + s
    } else {
        s
    };
    let n = t.len();
    let f = t.subrange(n - p, n as int);
    (t.take(n - p), if f.len() == 0 {
        "0"@
    } else {
        f
    })
}

pub open spec fn min(a: int, b: int) -> int {
    if a <= b {
        a
    } else {
        b
    }
}

pub open spec fn pow5(n: nat) -> nat {
    vstd::arithmetic::power::pow(5, n) as nat
}

pub open spec fn pow2(n: nat) -> nat {
    vstd::arithmetic::power2::pow2(n)
}

/// A decimal real literal with exponent `k`, of value `sig * 2^p2 * 5^p5`.
pub open spec fn dec_real_layout(k: int, sig: nat, p2: int, p5: int) -> Seq<Layout> {
    let e = min(min(p2, p5), k);
    let i = sig * pow2((p2 - e) as nat) * pow5((p5 - e) as nat);
    let (ip, fp) = split_digits(digits(i), (k - e) as nat);
    if k == 0 {
        at(ip + "."@ + fp)
    } else {
        at(ip + "."@ + fp + "e"@ + decimal(k))
    }
}

/// The exponent of a hexadecimal real literal with exponent `k` and value
/// `sig * 2^p2 * 5^p5`.
pub open spec fn hex_exponent(k: int, p2: int) -> int {
    if p2 < k {
        p2 - (p2 - k) % 4
    } else {
        k
    }
}

/// A hexadecimal real literal with exponent `k`, of value `sig * 2^p2 * 5^p5`.
pub open spec fn hex_real_layout(k: int, sig: nat, p2: int, p5: int) -> Seq<Layout> {
    let e = hex_exponent(k, p2);
    let i = sig * pow2((p2 - e) as nat) * pow5(p5 as nat);
    let (ip, fp) = split_digits(base_digits(i, 16), ((k - e) / 4) as nat);
    at("0x"@ + ip + "."@ + fp + "p"@ + if k == 0 {
        "0"@
    } else {
        decimal(k)
    })
}

pub open spec fn real_raw_layout(kind: RealLiteralKind, sig: nat, p2: int, p5: int) -> Seq<
    Layout,
> {
    match kind {
        RealLiteralKind::Dec(e) => dec_real_layout(e as int, sig, p2, p5),
        RealLiteralKind::Hex(e) => hex_real_layout(e as int, sig, p2, p5),
        RealLiteralKind::Unk => {
            let e = min(p2, p5);
            dec_real_layout(
                if 0 <= e <= 2 {
                    0
                } else {
                    e
                },
                sig,
                p2,
                p5,
            )
        },
    }
}

/// A real literal of the given kind and value `sig * 2^p2 * 5^p5`.
pub open spec fn real_literal_layout(kind: RealLiteralKind, sig: int, p2: int, p5: int) -> Seq<
    Layout,
> {
    if sig < 0 {
        at("(- "@) + real_raw_layout(kind, (-sig) as nat, p2, p5) + at(")"@)
    } else {
        real_raw_layout(kind, sig as nat, p2, p5)
    }
}

/// A byte, escaped for a string literal.
pub open spec fn escape_byte(c: u8) -> Seq<char> {
    if c == 92 {
        "\\\\"@
    } else if c == 10 {
        "\\n"@
    } else if c == 13 {
        "\\r"@
    } else if c == 9 {
        "\\t"@
    } else if c == 8 {
        "\\b"@
    } else if c == 34 {
        "\\\""@
    } else if 32 <= c <= 126 {
        seq![c as char]
    } else {
        "\\x"@ + seq![digit_upper((c / 16) as nat), digit_upper((c % 16) as nat)]
    }
}

/// Bytes, each escaped for a string literal.
pub open spec fn escape_bytes(bs: Seq<u8>) -> Seq<char>
    decreases bs.len(),
{
    if bs.len() == 0 {
        Seq::empty()
    } else {
        escape_bytes(bs.drop_last()) + escape_byte(bs.last())
    }
}

/// A string literal.
pub open spec fn string_literal(s: Seq<char>) -> Seq<char> {
    "\""@ + escape_bytes(vstd::utf8::encode_utf8(s)) + "\""@
}

/// A real literal's value exponents fit the machine, so that it can be printed.
pub open spec fn real_printable(kind: RealLiteralKind, p2: int, p5: int) -> bool {
    match kind {
        RealLiteralKind::Dec(k) => {
            let e = min(min(p2, p5), k as int);
            p2 - e <= u64::MAX && p5 - e <= u64::MAX && k - e < usize::MAX
        },
        RealLiteralKind::Hex(k) => {
            let e = hex_exponent(k as int, p2);
            p5 >= 0 && p5 <= u64::MAX && p2 - e <= u64::MAX && k - e < usize::MAX
        },
        RealLiteralKind::Unk => {
            let e = min(p2, p5);
            let k = if 0 <= e <= 2 {
                0
            } else {
                e
            };
            let e2 = min(e, k);
            p2 - e2 <= u64::MAX && p5 - e2 <= u64::MAX && k - e2 < usize::MAX
        },
    }
}

/// A constant that can be printed.
pub open spec fn wf_const(k: Constant) -> bool {
    match k {
        Constant::Real(r) => real_printable(r.kind, int_value(r.real.pow2), int_value(r.real.pow5)),
        _ => true,
    }
}

/// A constant, as printed with full support of every kind of literal.
pub open spec fn const_layout(k: Constant) -> Seq<Layout> {
    match k {
        Constant::Int(i) => int_literal_layout(i.kind, int_value(i.int)),
        Constant::Real(r) => real_literal_layout(
            r.kind,
            int_value(r.real.sig),
            int_value(r.real.pow2),
            int_value(r.real.pow5),
        ),
        Constant::Str(s) => at(string_literal(s@)),
    }
}

} // verus!
