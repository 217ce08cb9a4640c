//! Identifiers: attributes, and the naming convention of operator symbols.
//!
//! An operator symbol is named by its notation, e.g. `infix +` for `+` or
//! `mixfix []` for indexing; [`sn_decode`] recovers the notation of a name.

use vstd::prelude::*;

verus! {

#[verifier::external_type_specification]
#[verifier::external_body]
#[verifier::reject_recursive_types(T)]
pub struct ExArcIntern<T: ?Sized + Eq + std::hash::Hash + Send + Sync + 'static>(
    internment::ArcIntern<T>,
);

/// The text that an interned string holds.
pub uninterp spec fn interned_text(a: internment::ArcIntern<str>) -> Seq<char>;

/// `<internment::ArcIntern<T> as Clone>::clone`: a new handle on the same
/// interned value (the pointer is copied, a reference count raised).
pub assume_specification<T: ?Sized + Eq + std::hash::Hash + Send + Sync + 'static>[ <internment::ArcIntern<T> as Clone>::clone ](
    a: &internment::ArcIntern<T>,
) -> (r: internment::ArcIntern<T>)
    ensures
        r == *a,
;

/// `internment::ArcIntern::<str>::from(&str)`: interns the text; the interned
/// string holds exactly that text.
#[verifier::external_body]
fn intern_str(s: &str) -> (r: internment::ArcIntern<str>)
    ensures
        interned_text(r) == s@,
{
    internment::ArcIntern::from(s)
}

/// `<ArcIntern<str> as AsRef<str>>::as_ref`: gives back the interned text.
#[verifier::external_body]
fn interned_as_str(a: &internment::ArcIntern<str>) -> (r: &str)
    ensures
        r@ == interned_text(*a),
{
    a.as_ref()
}

/// An attribute: an interned string.
#[derive(Clone, PartialEq, Eq, Hash, Debug)]
pub struct Attribute(pub internment::ArcIntern<str>);

impl Attribute {
    pub open spec fn text(&self) -> Seq<char> {
        interned_text(self.0)
    }

    /// The attribute's text.
    pub fn as_str(&self) -> (r: &str)
        ensures
            r@ == self.text(),
    {
        interned_as_str(&self.0)
    }
}

pub fn create_attribute(s: internment::ArcIntern<str>) -> (a: Attribute)
    ensures
        a.0 == s,
{
    Attribute(s)
}

/// The attribute with the given text.
pub fn attribute_of(s: &str) -> (a: Attribute)
    ensures
        a.text() == s@,
{
    Attribute(intern_str(s))
}

/// The attribute `funlit`, marking function literals.
pub fn funlit() -> (a: Attribute)
    ensures
        a.text() == "funlit"@,
{
    attribute_of("funlit")
}

/// Notations of symbol names.
#[derive(PartialEq, Eq, Hash, Debug)]
pub enum Notation {
    /// `plus`
    Word(String),
    /// `+`
    Infix(String),
    /// `!`
    Tight(String),
    /// `-_`
    Prefix(String),
    /// `[]`
    Get(String),
    /// `[]<-`
    SetElt(String),
    /// `[<-]`
    Update(String),
    /// `[..]`
    Cut(String),
    /// `[.._]`
    Lcut(String),
    /// `[_..]`
    Rcut(String),
}

/// The mathematical value of a notation.
pub ghost enum NotationV {
    Word(Seq<char>),
    Infix(Seq<char>),
    Tight(Seq<char>),
    Prefix(Seq<char>),
    Get(Seq<char>),
    SetElt(Seq<char>),
    Update(Seq<char>),
    Cut(Seq<char>),
    Lcut(Seq<char>),
    Rcut(Seq<char>),
}

impl View for Notation {
    type V = NotationV;

    open spec fn view(&self) -> NotationV {
        match self {
            Notation::Word(s) => NotationV::Word(s@),
            Notation::Infix(s) => NotationV::Infix(s@),
            Notation::Tight(s) => NotationV::Tight(s@),
            Notation::Prefix(s) => NotationV::Prefix(s@),
            Notation::Get(s) => NotationV::Get(s@),
            Notation::SetElt(s) => NotationV::SetElt(s@),
            Notation::Update(s) => NotationV::Update(s@),
            Notation::Cut(s) => NotationV::Cut(s@),
            Notation::Lcut(s) => NotationV::Lcut(s@),
            Notation::Rcut(s) => NotationV::Rcut(s@),
        }
    }
}

fn concat_str(a: &str, b: &str) -> (r: String)
    ensures
        r@ == a@ + b@,
{
    let mut r = String::from_str(a);
    r.append(b);
    r
}

pub fn op_infix(s: &str) -> (r: String)
    ensures
        r@ == "infix "@ + s@,
{
    concat_str("infix ", s)
}

pub fn op_prefix(s: &str) -> (r: String)
    ensures
        r@ == "prefix "@ + s@,
{
    concat_str("prefix ", s)
}

pub fn op_get(s: &str) -> (r: String)
    ensures
        r@ == "mixfix []"@ + s@,
{
    concat_str("mixfix []", s)
}

pub fn op_set(s: &str) -> (r: String)
    ensures
        r@ == "mixfix []<-"@ + s@,
{
    concat_str("mixfix []<-", s)
}

pub fn op_update(s: &str) -> (r: String)
    ensures
        r@ == "mixfix [<-]"@ + s@,
{
    concat_str("mixfix [<-]", s)
}

pub fn op_cut(s: &str) -> (r: String)
    ensures
        r@ == "mixfix [..]"@ + s@,
{
    concat_str("mixfix [..]", s)
}

pub fn op_lcut(s: &str) -> (r: String)
    ensures
        r@ == "mixfix [.._]"@ + s@,
{
    concat_str("mixfix [.._]", s)
}

pub fn op_rcut(s: &str) -> (r: String)
    ensures
        r@ == "mixfix [_..]"@ + s@,
{
    concat_str("mixfix [_..]", s)
}

/// The name of the equality symbol.
pub fn op_equ() -> (r: String)
    ensures
        r@ == "infix "@ + "="@,
{
    op_infix("=")
}

/// The name of the disequality symbol.
pub fn op_neq() -> (r: String)
    ensures
        r@ == "infix "@ + "<>"@,
{
    op_infix("<>")
}

/// Tight operators are named as prefix operators.
pub fn op_tight(s: &str) -> (r: String)
    ensures
        r@ == "prefix "@ + s@,
{
    op_prefix(s)
}

// Decoding of symbol names.
//
// The following strings are recognized as notations:
//       "infix " (opchar+ [']* as p) (['_] [^'_] .* as q)
//       "prefix " (opchar+ [']* as p) (['_] [^'_] .* as q)
//       "mixfix " .* "]" opchar* ([']* as p) (['_] [^'_] .* as q)
pub open spec fn is_opchar(c: char) -> bool {
    c == '@' || c == '!' || c == '^' || c == '$' || c == '=' || c == '%' || c == '>' || c == '#'
        || c == '.' || c == '<' || c == '-' || c == '&' || c == '/' || c == '+' || c == '?' || c
        == ':' || c == '*' || c == '~' || c == '|' || c == '\\'
}

pub open spec fn is_tight_char(c: char) -> bool {
    c == '!' || c == '$' || c == '&' || c == '?' || c == '@' || c == '^' || c == '.' || c == ':'
        || c == '|' || c == '#'
}

/// The first index from `i` on that does not hold an operator character.
pub open spec fn skip_opchar(s: Seq<char>, i: int) -> int
    decreases s.len() - i,
{
    if 0 <= i < s.len() && is_opchar(s[i]) {
        skip_opchar(s, i + 1)
    } else {
        i
    }
}

/// From `i` on, past the quotes; ends before a last quote unless `_` or
/// nothing follows, or no quote was skipped.
pub open spec fn skip_quote(s: Seq<char>, l: int, i: int) -> int
    decreases s.len() - i,
{
    if 0 <= i < s.len() {
        if s[i] == '\'' {
            skip_quote(s, l, i + 1)
        } else if i == l || s[i] == '_' {
            i
        } else {
            i - 1
        }
    } else {
        i
    }
}

/// The first index from `i` on that holds `c`, or `-1`.
pub open spec fn find_char(s: Seq<char>, c: char, i: int) -> int
    decreases s.len() - i,
{
    if 0 <= i < s.len() {
        if s[i] == c {
            i
        } else {
            find_char(s, c, i + 1)
        }
    } else {
        -1
    }
}

/// Where the notation starts: after `infix `, `prefix ` or `mixfix ...]`;
/// `0` for a word.
pub open spec fn keyword_end(s: Seq<char>) -> int {
    if s.take(6) == "infix "@ {
        6
    } else if s.take(6) == "prefix"@ {
        7
    } else if s.take(6) == "mixfix"@ {
        let j = find_char(s, ']', 7);
        if j >= 0 {
            j + 1
        } else {
            0
        }
    } else {
        0
    }
}

pub open spec fn prefix_notation(o: Seq<char>, l: int) -> NotationV {
    if o[0] != '!' && o[0] != '?' {
        NotationV::Prefix(o)
    } else if forall|j: int| 1 <= j < l - 7 ==> is_tight_char(#[trigger] o[j]) {
        NotationV::Tight(o)
    } else {
        NotationV::Prefix(o)
    }
}

pub open spec fn lspace(p: Seq<char>) -> Seq<char> {
    if p.len() > 0 && p[0] == '*' {
        " "@
    } else {
        Seq::empty()
    }
}

pub open spec fn rspace(p: Seq<char>) -> Seq<char> {
    if p.len() > 0 && p.last() == '*' {
        " "@
    } else {
        Seq::empty()
    }
}

/// The notation as written in a source text, e.g. `(+)` or `([]<-)`.
pub open spec fn notation_text(w: NotationV) -> Seq<char> {
    match w {
        NotationV::Infix(p) => "("@ + lspace(p) + p + rspace(p) + ")"@,
        NotationV::Tight(p) => "("@ + p + rspace(p) + ")"@,
        NotationV::Prefix(p) => "("@ + lspace(p) + p + "_)"@,
        NotationV::Get(p) => "([]"@ + p + ")"@,
        NotationV::SetElt(p) => "([]"@ + p + "<-)"@,
        NotationV::Update(p) => "([<-]"@ + p + ")"@,
        NotationV::Cut(p) => "([..]"@ + p + ")"@,
        NotationV::Lcut(p) => "([.._]"@ + p + ")"@,
        NotationV::Rcut(p) => "([_..]"@ + p + ")"@,
        NotationV::Word(p) => p,
    }
}

/// The notation of a mixfix name with brackets `b`, parameter `p`.
pub open spec fn mixfix_notation(s: Seq<char>, b: Seq<char>, p: Seq<char>, m: int) -> NotationV {
    if b == "]"@ {
        NotationV::Get(p)
    } else if b == "]<-"@ {
        NotationV::SetElt(p)
    } else if b == "<-]"@ {
        NotationV::Update(p)
    } else if b == "..]"@ {
        NotationV::Cut(p)
    } else if b == ".._]"@ {
        NotationV::Lcut(p)
    } else if b == "_..]"@ {
        NotationV::Rcut(p)
    } else {
        NotationV::Word(
            if m == s.len() {
                s
            } else {
                s.take(m)
            },
        )
    }
}

/// The notation of a symbol name.
pub open spec fn decode(s: Seq<char>) -> NotationV {
    let len = s.len();
    if len <= 6 || (s[5] != ' ' && s[6] != ' ') {
        NotationV::Word(s)
    } else {
        let k = keyword_end(s);
        if k == 0 {
            NotationV::Word(s)
        } else {
            let l = skip_opchar(s, k);
            let m = skip_quote(s, l, l);
            if l == k && k < 8 {
                NotationV::Word(s)
            } else {
                let w = if k == 6 {
                    NotationV::Infix(s.subrange(6, m))
                } else if k == 7 {
                    prefix_notation(s.subrange(7, m), l)
                } else {
                    let p = if l < m {
                        s.subrange(l, m)
                    } else {
                        Seq::empty()
                    };
                    mixfix_notation(s, s.subrange(8, l), p, m)
                };
                if m == len {
                    w
                } else if s[m] != '\'' && s[m] != '_' {
                    NotationV::Word(s)
                } else {
                    NotationV::Word(notation_text(w) + s.subrange(m, len as int))
                }
            }
        }
    }
}

pub(crate) fn chars_of(s: &str) -> (v: Vec<char>)
    ensures
        v@ == s@,
{
    let n = s.unicode_len();
    let mut v: Vec<char> = Vec::new();
    let mut i: usize = 0;
    while i < n
        invariant
            n == s@.len(),
            i <= n,
            v@ == s@.take(i as int),
        decreases n - i,
    {
        let c = s.get_char(i);
        v.push(c);
        i += 1;
        assert(v@ =~= s@.take(i as int));
    }
    assert(v@ =~= s@);
    v
}

/// Whether `v[from..from + p.len()]` is `p`.
fn holds_at(v: &Vec<char>, from: usize, p: &str) -> (b: bool)
    requires
        from <= v@.len(),
    ensures
        b == (from + p@.len() <= v@.len() && v@.subrange(from as int, from + p@.len()) == p@),
{
    let n = p.unicode_len();
    if n > v.len() - from {
        return false;
    }
    let mut i: usize = 0;
    while i < n
        invariant
            n == p@.len(),
            from + n <= v.len(),
            i <= n,
            forall|j: int| 0 <= j < i ==> v@[from + j] == p@[j],
        decreases n - i,
    {
        if v[from + i] != p.get_char(i) {
            assert(v@.subrange(from as int, from + n)[i as int] != p@[i as int]);
            return false;
        }
        i += 1;
    }
    assert(v@.subrange(from as int, from + n) =~= p@);
    true
}

/// Whether `v[from..to]` is `p`.
fn range_is(v: &Vec<char>, from: usize, to: usize, p: &str) -> (b: bool)
    requires
        from <= to <= v@.len(),
    ensures
        b == (v@.subrange(from as int, to as int) == p@),
{
    let n = p.unicode_len();
    if to - from != n {
        proof {
            if v@.subrange(from as int, to as int) == p@ {
                assert(false);
            }
        }
        return false;
    }
    holds_at(v, from, p)
}

fn is_opchar_exec(c: char) -> (b: bool)
    ensures
        b == is_opchar(c),
{
    c == '@' || c == '!' || c == '^' || c == '$' || c == '=' || c == '%' || c == '>' || c == '#'
        || c == '.' || c == '<' || c == '-' || c == '&' || c == '/' || c == '+' || c == '?' || c
        == ':' || c == '*' || c == '~' || c == '|' || c == '\\'
}

fn is_tight_char_exec(c: char) -> (b: bool)
    ensures
        b == is_tight_char(c),
{
    c == '!' || c == '$' || c == '&' || c == '?' || c == '@' || c == '^' || c == '.' || c == ':'
        || c == '|' || c == '#'
}

fn skip_opchar_exec(v: &Vec<char>, i: usize) -> (r: usize)
    requires
        i <= v@.len(),
    ensures
        r as int == skip_opchar(v@, i as int),
        i <= r <= v@.len(),
    decreases v@.len() - i,
{
    if i < v.len() && is_opchar_exec(v[i]) {
        skip_opchar_exec(v, i + 1)
    } else {
        i
    }
}

proof fn lemma_skip_quote_bounds(s: Seq<char>, l: int, i: int)
    requires
        0 <= l <= i <= s.len(),
        i == l || s[i - 1] == '\'',
    ensures
        l <= skip_quote(s, l, i) <= s.len(),
        skip_quote(s, l, i) >= i - 1,
        i == l ==> skip_quote(s, l, i) >= l,
        skip_quote(s, l, i) < s.len() ==> (s[skip_quote(s, l, i)] == '\'' || s[skip_quote(
            s,
            l,
            i,
        )] == '_' || skip_quote(s, l, i) == l),
    decreases s.len() - i,
{
    if i < s.len() {
        if s[i] == '\'' {
            lemma_skip_quote_bounds(s, l, i + 1);
        }
    }
}

fn skip_quote_exec(v: &Vec<char>, l: usize, i: usize) -> (r: usize)
    requires
        l <= i <= v@.len(),
    ensures
        r as int == skip_quote(v@, l as int, i as int),
    decreases v@.len() - i,
{
    if i < v.len() {
        if v[i] == '\'' {
            skip_quote_exec(v, l, i + 1)
        } else if i == l || v[i] == '_' {
            i
        } else {
            i - 1
        }
    } else {
        i
    }
}

fn find_char_exec(v: &Vec<char>, c: char, i: usize) -> (r: Option<usize>)
    requires
        i <= v@.len(),
    ensures
        match r {
            Some(j) => j as int == find_char(v@, c, i as int) && i <= j < v@.len(),
            None => find_char(v@, c, i as int) == -1,
        },
    decreases v@.len() - i,
{
    if i < v.len() {
        if v[i] == c {
            Some(i)
        } else {
            find_char_exec(v, c, i + 1)
        }
    } else {
        None
    }
}

fn sub_string(s: &str, from: usize, to: usize) -> (r: String)
    requires
        from <= to <= s@.len(),
    ensures
        r@ == s@.subrange(from as int, to as int),
{
    s.substring_char(from, to).to_owned()
}

/// The notation as written in a source text, e.g. `(+)` or `([]<-)`.
pub fn notation_string(w: &Notation) -> (r: String)
    ensures
        r@ == notation_text(w@),
{
    match w {
        Notation::Infix(p) => {
            let mut r = String::from_str("(");
            let n = p.as_str().unicode_len();
            if n > 0 && p.as_str().get_char(0) == '*' {
                r.append(" ");
            }
            r.append(p.as_str());
            if n > 0 && p.as_str().get_char(n - 1) == '*' {
                r.append(" ");
            }
            r.append(")");
            r
        },
        Notation::Tight(p) => {
            let mut r = String::from_str("(");
            let n = p.as_str().unicode_len();
            r.append(p.as_str());
            if n > 0 && p.as_str().get_char(n - 1) == '*' {
                r.append(" ");
            }
            r.append(")");
            r
        },
        Notation::Prefix(p) => {
            let mut r = String::from_str("(");
            let n = p.as_str().unicode_len();
            if n > 0 && p.as_str().get_char(0) == '*' {
                r.append(" ");
            }
            r.append(p.as_str());
            r.append("_)");
            r
        },
        Notation::Get(p) => {
            let mut r = String::from_str("([]");
            r.append(p.as_str());
            r.append(")");
            r
        },
        Notation::SetElt(p) => {
            let mut r = String::from_str("([]");
            r.append(p.as_str());
            r.append("<-)");
            r
        },
        Notation::Update(p) => {
            let mut r = String::from_str("([<-]");
            r.append(p.as_str());
            r.append(")");
            r
        },
        Notation::Cut(p) => {
            let mut r = String::from_str("([..]");
            r.append(p.as_str());
            r.append(")");
            r
        },
        Notation::Lcut(p) => {
            let mut r = String::from_str("([.._]");
            r.append(p.as_str());
            r.append(")");
            r
        },
        Notation::Rcut(p) => {
            let mut r = String::from_str("([_..]");
            r.append(p.as_str());
            r.append(")");
            r
        },
        Notation::Word(p) => p.clone(),
    }
}

/// Decodes a symbol name as its notation.
pub fn sn_decode(s: &str) -> (r: Notation)
    ensures
        r@ == decode(s@),
{
    let v = chars_of(s);
    let len = v.len();
    if len <= 6 || (v[5] != ' ' && v[6] != ' ') {
        return Notation::Word(s.to_owned());
    }
    proof {
        reveal_strlit("infix ");
        reveal_strlit("prefix");
        reveal_strlit("mixfix");
        assert(v@.subrange(0, 6) =~= v@.take(6));
    }
    let is_infix = holds_at(&v, 0, "infix ");
    let is_prefix = holds_at(&v, 0, "prefix");
    let is_mixfix = holds_at(&v, 0, "mixfix");
    let k: usize = if is_infix {
        6
    } else if is_prefix {
        7
    } else if is_mixfix {
        match find_char_exec(&v, ']', 7) {
            Some(j) => j + 1,
            None => 0,
        }
    } else {
        0
    };
    assert(k as int == keyword_end(s@));
    if k == 0 {
        return Notation::Word(s.to_owned());
    }
    let l = skip_opchar_exec(&v, k);
    proof {
        lemma_skip_quote_bounds(v@, l as int, l as int);
    }
    let m = skip_quote_exec(&v, l, l);
    if l == k && k < 8 {
        return Notation::Word(s.to_owned());
    }
    let w = if k == 6 {
        Notation::Infix(sub_string(s, 6, m))
    } else if k == 7 {
        let o = sub_string(s, 7, m);
        if v[7] != '!' && v[7] != '?' {
            Notation::Prefix(o)
        } else {
            let mut all_tight = true;
            let mut j: usize = 1;
            while j < l - 7
                invariant
                    8 <= l <= m <= len,
                    len == v@.len(),
                    o@ == v@.subrange(7, m as int),
                    1 <= j <= l - 7,
                    all_tight ==> forall|i: int| 1 <= i < j ==> is_tight_char(#[trigger] o@[i]),
                    !all_tight ==> exists|i: int| 1 <= i < l - 7 && !is_tight_char(#[trigger] o@[i]),
                decreases l - 7 - j,
            {
                if !is_tight_char_exec(v[7 + j]) {
                    assert(!is_tight_char(o@[j as int]));
                    all_tight = false;
                }
                j += 1;
            }
            if all_tight {
                Notation::Tight(o)
            } else {
                Notation::Prefix(o)
            }
        }
    } else {
        let p = if l < m {
            sub_string(s, l, m)
        } else {
            String::new()
        };
        if range_is(&v, 8, l, "]") {
            Notation::Get(p)
        } else if range_is(&v, 8, l, "]<-") {
            Notation::SetElt(p)
        } else if range_is(&v, 8, l, "<-]") {
            Notation::Update(p)
        } else if range_is(&v, 8, l, "..]") {
            Notation::Cut(p)
        } else if range_is(&v, 8, l, ".._]") {
            Notation::Lcut(p)
        } else if range_is(&v, 8, l, "_..]") {
            Notation::Rcut(p)
        } else {
            Notation::Word(
                if m == len {
                    s.to_owned()
                } else {
                    proof {
                        assert(v@.subrange(0, m as int) =~= v@.take(m as int));
                    }
                    sub_string(s, 0, m)
                },
            )
        }
    };
    if m == len {
        w
    } else if v[m] != '\'' && v[m] != '_' {
        Notation::Word(s.to_owned())
    } else {
        let mut t = notation_string(&w);
        let rest = sub_string(s, m, len);
        t.append(rest.as_str());
        Notation::Word(t)
    }
}

// ------------------------------------------ decoding the names of symbols

/// Every character of `p` is an operator character.
pub open spec fn all_opchars(p: Seq<char>) -> bool {
    forall|i: int| 0 <= i < p.len() ==> is_opchar(#[trigger] p[i])
}

/// Every character of `q` is a quote `'`.
pub open spec fn all_quotes(q: Seq<char>) -> bool {
    forall|i: int| 0 <= i < q.len() ==> #[trigger] q[i] == '\''
}

proof fn lemma_skip_opchar_run(s: Seq<char>, i: int, j: int)
    requires
        0 <= i <= j <= s.len(),
        forall|k: int| i <= k < j ==> is_opchar(#[trigger] s[k]),
        j == s.len() || !is_opchar(s[j]),
    ensures
        skip_opchar(s, i) == j,
    decreases j - i,
{
    if i < j {
        lemma_skip_opchar_run(s, i + 1, j);
    }
}

proof fn lemma_skip_quote_run(s: Seq<char>, l: int, i: int)
    requires
        0 <= i <= s.len(),
        forall|k: int| i <= k < s.len() ==> #[trigger] s[k] == '\'',
    ensures
        skip_quote(s, l, i) == s.len(),
    decreases s.len() - i,
{
    if i < s.len() {
        lemma_skip_quote_run(s, l, i + 1);
    }
}

proof fn lemma_find_char_first(s: Seq<char>, c: char, i: int, j: int)
    requires
        0 <= i <= j < s.len(),
        s[j] == c,
        forall|k: int| i <= k < j ==> #[trigger] s[k] != c,
    ensures
        find_char(s, c, i) == j,
    decreases j - i,
{
    if i < j {
        lemma_find_char_first(s, c, i + 1, j);
    }
}

/// The name `infix p` of an infix operator, followed by quotes, decodes to the
/// infix notation `p` with its quotes.
pub proof fn law_decode_infix(p: Seq<char>, q: Seq<char>)
    requires
        p.len() > 0,
        all_opchars(p),
        all_quotes(q),
    ensures
        decode("infix "@ + p + q) == NotationV::Infix(p + q),
{
    reveal_strlit("infix ");
    let s = "infix "@ + p + q;
    let n: int = 6 + p.len() as int;
    assert(s.take(6) =~= "infix "@);
    assert(keyword_end(s) == 6);
    lemma_skip_opchar_run(s, 6, n);
    lemma_skip_quote_run(s, n, n);
    assert(s.subrange(6, s.len() as int) =~= p + q);
}

proof fn lemma_decode_prefix(p: Seq<char>, q: Seq<char>)
    requires
        p.len() > 0,
        all_opchars(p),
        all_quotes(q),
    ensures
        decode("prefix "@ + p + q) == prefix_notation(p + q, 7 + p.len() as int),
{
    reveal_strlit("prefix ");
    reveal_strlit("prefix");
    reveal_strlit("infix ");
    let s = "prefix "@ + p + q;
    let n: int = 7 + p.len() as int;
    assert(s.take(6) =~= "prefix"@);
    assert(s.take(6) != "infix "@) by {
        assert(s.take(6)[0] != "infix "@[0]);
    }
    assert(keyword_end(s) == 7);
    lemma_skip_opchar_run(s, 7, n);
    lemma_skip_quote_run(s, n, n);
    assert(s.subrange(7, s.len() as int) =~= p + q);
}

/// The name `prefix p` of a prefix operator, followed by quotes, decodes to
/// the prefix notation `p` with its quotes, unless `p` starts with `!` or `?`.
pub proof fn law_decode_prefix(p: Seq<char>, q: Seq<char>)
    requires
        p.len() > 0,
        all_opchars(p),
        all_quotes(q),
        p[0] != '!' && p[0] != '?',
    ensures
        decode("prefix "@ + p + q) == NotationV::Prefix(p + q),
{
    lemma_decode_prefix(p, q);
}

/// The name `prefix p` of an operator that starts with `!` or `?` and goes on
/// with `!$&?@^.:|#` only, followed by quotes, decodes to the tight notation.
pub proof fn law_decode_tight(p: Seq<char>, q: Seq<char>)
    requires
        p.len() > 0,
        all_opchars(p),
        all_quotes(q),
        p[0] == '!' || p[0] == '?',
        forall|j: int| 1 <= j < p.len() ==> is_tight_char(#[trigger] p[j]),
    ensures
        decode("prefix "@ + p + q) == NotationV::Tight(p + q),
{
    lemma_decode_prefix(p, q);
    let o = p + q;
    assert forall|j: int| 1 <= j < 7 + p.len() - 7 implies is_tight_char(#[trigger] o[j]) by {
        assert(o[j] == p[j]);
    }
}

proof fn lemma_decode_mixfix(b: Seq<char>, q: Seq<char>, close: int)
    requires
        2 <= b.len(),
        b[0] == '[',
        1 <= close < b.len(),
        b[close] == ']',
        forall|k: int| 0 <= k < close ==> #[trigger] b[k] != ']',
        forall|k: int| close < k < b.len() ==> is_opchar(#[trigger] b[k]),
        all_quotes(q),
    ensures
        decode("mixfix "@ + b + q) == mixfix_notation(
            "mixfix "@ + b + q,
            b.subrange(1, b.len() as int),
            q,
            7 + b.len() + q.len() as int,
        ),
{
    reveal_strlit("mixfix ");
    reveal_strlit("mixfix");
    reveal_strlit("prefix");
    reveal_strlit("infix ");
    let s = "mixfix "@ + b + q;
    let n: int = 7 + b.len() as int;
    assert(s.take(6) =~= "mixfix"@);
    assert(s.take(6) != "infix "@) by {
        assert(s.take(6)[0] != "infix "@[0]);
    }
    assert(s.take(6) != "prefix"@) by {
        assert(s.take(6)[0] != "prefix"@[0]);
    }
    assert forall|k: int| 7 <= k < 7 + close implies #[trigger] s[k] != ']' by {
        assert(s[k] == b[k - 7]);
    }
    lemma_find_char_first(s, ']', 7, 7 + close);
    assert(keyword_end(s) == 8 + close);
    assert forall|k: int| 8 + close <= k < n implies is_opchar(#[trigger] s[k]) by {
        assert(s[k] == b[k - 7]);
    }
    if q.len() > 0 {
        assert(s[n] == q[0]);
    }
    lemma_skip_opchar_run(s, 8 + close, n);
    lemma_skip_quote_run(s, n, n);
    assert(s.subrange(8, n) =~= b.subrange(1, b.len() as int));
    if n < s.len() {
        assert(s.subrange(n, s.len() as int) =~= q);
    } else {
        assert(q =~= Seq::<char>::empty());
    }
}

/// `mixfix []` followed by quotes decodes to the indexing notation.
pub proof fn law_decode_get(q: Seq<char>)
    requires
        all_quotes(q),
    ensures
        decode("mixfix []"@ + q) == NotationV::Get(q),
{
    reveal_strlit("mixfix []");
    reveal_strlit("mixfix ");
    reveal_strlit("[]");
    reveal_strlit("]");
    assert("mixfix []"@ =~= "mixfix "@ + "[]"@);
    lemma_decode_mixfix("[]"@, q, 1);
    assert("[]"@.subrange(1, 2) =~= "]"@);
}

/// `mixfix []<-` followed by quotes decodes to the update-in-place notation.
pub proof fn law_decode_set(q: Seq<char>)
    requires
        all_quotes(q),
    ensures
        decode("mixfix []<-"@ + q) == NotationV::SetElt(q),
{
    reveal_strlit("mixfix []<-");
    reveal_strlit("mixfix ");
    reveal_strlit("[]<-");
    reveal_strlit("]");
    reveal_strlit("]<-");
    assert("mixfix []<-"@ =~= "mixfix "@ + "[]<-"@);
    lemma_decode_mixfix("[]<-"@, q, 1);
    assert("[]<-"@.subrange(1, 4) =~= "]<-"@);
    assert("]<-"@.len() != "]"@.len());
}

/// `mixfix [<-]` followed by quotes decodes to the functional update notation.
pub proof fn law_decode_update(q: Seq<char>)
    requires
        all_quotes(q),
    ensures
        decode("mixfix [<-]"@ + q) == NotationV::Update(q),
{
    reveal_strlit("mixfix [<-]");
    reveal_strlit("mixfix ");
    reveal_strlit("[<-]");
    reveal_strlit("]");
    reveal_strlit("]<-");
    reveal_strlit("<-]");
    assert("mixfix [<-]"@ =~= "mixfix "@ + "[<-]"@);
    lemma_decode_mixfix("[<-]"@, q, 3);
    assert("[<-]"@.subrange(1, 4) =~= "<-]"@);
    assert("<-]"@.len() != "]"@.len());
    assert("<-]"@[0] != "]<-"@[0]);
}

/// `mixfix [..]` followed by quotes decodes to the slice notation.
pub proof fn law_decode_cut(q: Seq<char>)
    requires
        all_quotes(q),
    ensures
        decode("mixfix [..]"@ + q) == NotationV::Cut(q),
{
    reveal_strlit("mixfix [..]");
    reveal_strlit("mixfix ");
    reveal_strlit("[..]");
    reveal_strlit("]");
    reveal_strlit("]<-");
    reveal_strlit("<-]");
    reveal_strlit("..]");
    assert("mixfix [..]"@ =~= "mixfix "@ + "[..]"@);
    lemma_decode_mixfix("[..]"@, q, 3);
    assert("[..]"@.subrange(1, 4) =~= "..]"@);
    assert("..]"@.len() != "]"@.len());
    assert("..]"@[0] != "]<-"@[0]);
    assert("..]"@[0] != "<-]"@[0]);
}

/// `mixfix [.._]` followed by quotes decodes to the left slice notation.
pub proof fn law_decode_lcut(q: Seq<char>)
    requires
        all_quotes(q),
    ensures
        decode("mixfix [.._]"@ + q) == NotationV::Lcut(q),
{
    reveal_strlit("mixfix [.._]");
    reveal_strlit("mixfix ");
    reveal_strlit("[.._]");
    reveal_strlit("]");
    reveal_strlit("]<-");
    reveal_strlit("<-]");
    reveal_strlit("..]");
    reveal_strlit(".._]");
    assert("mixfix [.._]"@ =~= "mixfix "@ + "[.._]"@);
    lemma_decode_mixfix("[.._]"@, q, 4);
    assert("[.._]"@.subrange(1, 5) =~= ".._]"@);
    assert(".._]"@.len() != "]"@.len());
    assert(".._]"@.len() != "]<-"@.len());
    assert(".._]"@.len() != "<-]"@.len());
    assert(".._]"@.len() != "..]"@.len());
}

/// `mixfix [_..]` followed by quotes decodes to the right slice notation.
pub proof fn law_decode_rcut(q: Seq<char>)
    requires
        all_quotes(q),
    ensures
        decode("mixfix [_..]"@ + q) == NotationV::Rcut(q),
{
    reveal_strlit("mixfix [_..]");
    reveal_strlit("mixfix ");
    reveal_strlit("[_..]");
    reveal_strlit("]");
    reveal_strlit("]<-");
    reveal_strlit("<-]");
    reveal_strlit("..]");
    reveal_strlit(".._]");
    reveal_strlit("_..]");
    assert("mixfix [_..]"@ =~= "mixfix "@ + "[_..]"@);
    lemma_decode_mixfix("[_..]"@, q, 4);
    assert("[_..]"@.subrange(1, 5) =~= "_..]"@);
    assert("_..]"@.len() != "]"@.len());
    assert("_..]"@.len() != "]<-"@.len());
    assert("_..]"@.len() != "<-]"@.len());
    assert("_..]"@.len() != "..]"@.len());
    assert("_..]"@[0] != ".._]"@[0]);
}

} // verus!
