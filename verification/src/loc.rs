//! Source locations.
//!
//! A source location is a part of a file, denoted by a starting point and
//! an end point, each a line number and a column number. Line numbers start
//! with 1 and column numbers with 0.
//!
//! A pair (line, col) is stored in a single integer as `(line << bits) | col`,
//! where `bits` is 12 on 32-bit machines and 16 on 64-bit ones. File names
//! are stored once, in a [`FileTags`] table, and a location holds the tag of
//! its file.

use vstd::prelude::*;

use crate::doc::{at, bx, BoxKind, Doc, Layout};
use crate::text::{self, decimal};

verus! {

/// The tags of file names: tag `i` names the `i`-th registered file. The
/// empty file name, that of dummy locations, always has tag 0.
pub struct FileTags {
    files: Vec<String>,
}

impl FileTags {
    pub closed spec fn names(&self) -> Seq<Seq<char>> {
        self.files@.map_values(|f: String| f@)
    }

    /// The empty name is registered, with tag 0, and every tag fits an
    /// `isize`.
    pub open spec fn wf(&self) -> bool {
        &&& 1 <= self.names().len() <= isize::MAX
        &&& self.names()[0] == Seq::<char>::empty()
    }

    /// The file name of a tag; the empty name for a tag that is not registered.
    pub open spec fn name_of(&self, tag: isize) -> Seq<char> {
        if 0 <= tag < self.names().len() {
            self.names()[tag as int]
        } else {
            Seq::empty()
        }
    }

    /// A table in which only the empty file name is registered.
    pub fn new() -> (t: FileTags)
        ensures
            t.wf(),
            t.names() == seq![Seq::<char>::empty()],
    {
        let mut files = Vec::new();
        files.push(String::new());
        let t = FileTags { files };
        assert(t.names() =~= seq![Seq::<char>::empty()]);
        t
    }

    /// The tag of a file name, registering it if needed.
    pub fn get_file_tag(&mut self, file: &str) -> (tag: isize)
        requires
            old(self).names().len() < isize::MAX || (old(self).names().contains(file@) && old(
                self,
            ).names().len() <= isize::MAX),
        ensures
            0 <= tag < final(self).names().len(),
            final(self).names()[tag as int] == file@,
            old(self).names().contains(file@) ==> final(self).names() == old(self).names(),
            !old(self).names().contains(file@) ==> final(self).names() == old(self).names().push(
                file@,
            ) && tag == old(self).names().len(),
            old(self).wf() ==> final(self).wf(),
            forall|j: int| 0 <= j < tag ==> final(self).names()[j] != file@,
    {
        let n = self.files.len();
        let mut i: usize = 0;
        while i < n
            invariant
                n == self.files@.len(),
                n <= isize::MAX,
                n < isize::MAX || self.names().contains(file@),
                i <= n,
                forall|j: int| 0 <= j < i ==> self.files@[j]@ != file@,
            decreases n - i,
        {
            if text::str_eq(self.files[i].as_str(), file) {
                assert(self.names()[i as int] == file@);
                return i as isize;
            }
            i += 1;
        }
        proof {
            if self.names().contains(file@) {
                let j = choose|j: int| 0 <= j < self.names().len() && self.names()[j] == file@;
                assert(self.files@[j]@ == file@);
            }
        }
        let ghost old_names = self.names();
        self.files.push(file.to_owned());
        assert(self.names() =~= old_names.push(file@));
        n as isize
    }

    /// The number of registered file names.
    pub fn tag_count(&self) -> (n: usize)
        ensures
            n == self.names().len(),
    {
        self.files.len()
    }

    /// The file name of a registered tag.
    pub fn tag_to_file(&self, tag: isize) -> (f: &str)
        requires
            0 <= tag < self.names().len(),
        ensures
            f@ == self.names()[tag as int],
    {
        self.files[tag as usize].as_str()
    }

    /// The file name of a tag, empty for a tag that is not registered.
    pub fn name_of_tag(&self, tag: isize) -> (f: &str)
        ensures
            f@ == self.name_of(tag),
    {
        if 0 <= tag && (tag as usize) < self.files.len() {
            self.files[tag as usize].as_str()
        } else {
            proof {
                reveal_strlit("");
            }
            ""
        }
    }
}

#[derive(Clone, Copy, PartialEq, Eq, Hash, Debug, Structural)]
pub struct Position {
    file_tag: isize,
    // compressed line/col
    start: isize,
    // compressed line/col
    end: isize,
}

/// The number of bits of a compressed position that hold the column.
pub open spec fn bits_col() -> u32 {
    if usize::BITS == 32 {
        12
    } else {
        16
    }
}

fn bits_col_exec() -> (b: u32)
    ensures
        b == bits_col(),
{
    if usize::BITS == 32 {
        12
    } else {
        16
    }
}

/// The largest line number, [`max_line`].
pub fn line_limit() -> (r: isize)
    ensures
        r == max_line(),
{
    let b = bits_col_exec();
    let k: u32 = usize::BITS - b - 1;
    proof {
        assert((usize::BITS == 32 && k == 19) || (usize::BITS == 64 && k == 47));
        assert((1isize << k) >= 1) by (bit_vector)
            requires
                (usize::BITS == 32 && k == 19) || (usize::BITS == 64 && k == 47),
        ;
    }
    (1isize << k) - 1
}

pub open spec fn mask_col() -> isize {
    ((1isize << bits_col()) - 1) as isize
}

/// The largest line number.
pub open spec fn max_line() -> isize {
    ((1isize << ((usize::BITS - bits_col() - 1) as u32)) - 1) as isize
}

impl Position {
    pub closed spec fn tag(self) -> isize {
        self.file_tag
    }

    /// The compressed start.
    pub closed spec fn start_code(self) -> isize {
        self.start
    }

    /// The compressed end.
    pub closed spec fn end_code(self) -> isize {
        self.end
    }

    pub closed spec fn start_line(self) -> isize {
        self.start >> bits_col()
    }

    pub closed spec fn start_col(self) -> isize {
        self.start & mask_col()
    }

    pub closed spec fn end_line(self) -> isize {
        self.end >> bits_col()
    }

    pub closed spec fn end_col(self) -> isize {
        self.end & mask_col()
    }

    /// The dummy position: the empty file name, line 0, column 0.
    pub closed spec fn spec_dummy() -> Position {
        Position { file_tag: 0, start: 0, end: 0 }
    }

    /// The dummy position: the empty file name, line 0, column 0.
    pub fn dummy() -> (p: Position)
        ensures
            p == Position::spec_dummy(),
            p.tag() == 0,
            p.start_line() == 0,
            p.start_col() == 0,
            p.end_line() == 0,
            p.end_col() == 0,
    {
        let p = Position { file_tag: 0, start: 0, end: 0 };
        proof {
            let b = bits_col();
            assert(0isize >> b == 0isize) by (bit_vector);
            assert(0isize & (((1isize << b) - 1) as isize) == 0isize) by (bit_vector);
        }
        p
    }

    /// Line and column numbers, as `get` gives them.
    pub fn parts(&self) -> (r: (isize, isize, isize, isize))
        ensures
            r == (self.start_line(), self.start_col(), self.end_line(), self.end_col()),
    {
        let b = bits_col_exec();
        proof {
            assert(12 <= b <= 16);
            assert(b <= 16 ==> 1isize << b >= 1isize) by (bit_vector);
        }
        let m: isize = (1isize << b) - 1;
        (self.start >> b, self.start & m, self.end >> b, self.end & m)
    }

    /// The tag of the position's file.
    pub fn file_tag(&self) -> (t: isize)
        ensures
            t == self.tag(),
    {
        self.file_tag
    }
}

impl Default for Position {
    fn default() -> (p: Position)
        ensures
            p == Position::spec_dummy(),
            p.tag() == 0,
            p.start_line() == 0,
            p.start_col() == 0,
            p.end_line() == 0,
            p.end_col() == 0,
    {
        Position::dummy()
    }
}

/// The largest column is at least 4095, and the largest line at least 2^19 - 1.
pub proof fn lemma_limits()
    ensures
        mask_col() >= 0xfff,
        max_line() >= 0x7ffff,
{
    if usize::BITS == 32 {
        assert(max_line() == 0x7ffff && mask_col() == 0xfff) by (bit_vector)
            requires
                usize::BITS == 32,
                max_line() == ((1isize << ((usize::BITS - 12u32 - 1) as u32)) - 1) as isize,
                mask_col() == ((1isize << 12u32) - 1) as isize,
        ;
    } else {
        assert(max_line() == 0x7fff_ffff_ffff && mask_col() == 0xffff) by (bit_vector)
            requires
                usize::BITS == 64,
                max_line() == ((1isize << ((usize::BITS - 16u32 - 1) as u32)) - 1) as isize,
                mask_col() == ((1isize << 16u32) - 1) as isize,
        ;
    }
}

/// A line and a column in range are recovered from their compressed form.
pub proof fn lemma_code_roundtrip(l: isize, c: isize)
    requires
        0 <= l <= max_line(),
        0 <= c <= mask_col(),
    ensures
        ((l << bits_col()) | c) >> bits_col() == l,
        ((l << bits_col()) | c) & mask_col() == c,
{
    if usize::BITS == 32 {
        assert(max_line() == 0x7ffff && mask_col() == 0xfff) by (bit_vector)
            requires
                usize::BITS == 32,
                max_line() == ((1isize << ((usize::BITS - 12u32 - 1) as u32)) - 1) as isize,
                mask_col() == ((1isize << 12u32) - 1) as isize,
        ;
        assert(((l << 12u32) | c) >> 12u32 == l && ((l << 12u32) | c) & 0xfffisize == c)
            by (bit_vector)
            requires
                usize::BITS == 32,
                0 <= l <= 0x7ffff,
                0 <= c <= 0xfff,
        ;
    } else {
        assert(max_line() == 0x7fff_ffff_ffff && mask_col() == 0xffff) by (bit_vector)
            requires
                usize::BITS == 64,
                max_line() == ((1isize << ((usize::BITS - 16u32 - 1) as u32)) - 1) as isize,
                mask_col() == ((1isize << 16u32) - 1) as isize,
        ;
        assert(((l << 16u32) | c) >> 16u32 == l && ((l << 16u32) | c) & 0xffffisize == c)
            by (bit_vector)
            requires
                usize::BITS == 64,
                0 <= l <= 0x7fff_ffff_ffff,
                0 <= c <= 0xffff,
        ;
    }
}

/// The file, the line and character numbers of the beginning, and the line
/// and character numbers of the end of the given position.
pub fn get(tags: &FileTags, p: Position) -> (r: (String, isize, isize, isize, isize))
    requires
        0 <= p.tag() < tags.names().len(),
    ensures
        r.0@ == tags.names()[p.tag() as int],
        (r.1, r.2, r.3, r.4) == (p.start_line(), p.start_col(), p.end_line(), p.end_col()),
{
    let f = tags.tag_to_file(p.file_tag()).to_owned();
    let (a, b, c, d) = p.parts();
    (f, a, b, c, d)
}

pub fn equal(lhs: Position, rhs: Position) -> (r: bool)
    ensures
        r == (lhs == rhs),
{
    lhs == rhs
}

/// The source position for file `f`, starting at line `bl` and character `bc`
/// and ending at line `el` and character `ec`.
pub fn user_position(
    tags: &mut FileTags,
    f: &str,
    bl: isize,
    bc: isize,
    el: isize,
    ec: isize,
) -> (p: Position)
    requires
        0 <= bl <= max_line(),
        0 <= el <= max_line(),
        bc >= 0,
        ec >= 0,
        old(tags).names().len() < isize::MAX || (old(tags).names().contains(f@) && old(
            tags,
        ).names().len() <= isize::MAX),
    ensures
        0 <= p.tag() < final(tags).names().len(),
        final(tags).names()[p.tag() as int] == f@,
        old(tags).names().contains(f@) ==> final(tags).names() == old(tags).names(),
        !old(tags).names().contains(f@) ==> final(tags).names() == old(tags).names().push(f@),
        old(tags).wf() ==> final(tags).wf(),
        forall|j: int| 0 <= j < p.tag() ==> final(tags).names()[j] != f@,
        p.start_code() == (bl << bits_col()) | bc,
        p.end_code() == (el << bits_col()) | ec,
        bc <= mask_col() ==> p.start_line() == bl && p.start_col() == bc,
        ec <= mask_col() ==> p.end_line() == el && p.end_col() == ec,
{
    let tag = tags.get_file_tag(f);
    let b = bits_col_exec();
    proof {
        assert(12 <= b <= 16);
        if bc <= mask_col() {
            lemma_code_roundtrip(bl, bc);
        }
        if ec <= mask_col() {
            lemma_code_roundtrip(el, ec);
        }
    }
    Position { file_tag: tag, start: (bl << b) | bc, end: (el << b) | ec }
}

/// [`get`] gives back the lines and columns that [`user_position`] was
/// given, whenever the columns fit in the bits reserved for them.
pub proof fn law_get_user_position(p: Position, bl: isize, bc: isize, el: isize, ec: isize)
    requires
        0 <= bl <= max_line(),
        0 <= el <= max_line(),
        0 <= bc <= mask_col(),
        0 <= ec <= mask_col(),
        p.start_code() == (bl << bits_col()) | bc,
        p.end_code() == (el << bits_col()) | ec,
    ensures
        (p.start_line(), p.start_col(), p.end_line(), p.end_col()) == (bl, bc, el, ec),
{
    lemma_code_roundtrip(bl, bc);
    lemma_code_roundtrip(el, ec);
}

/// [`get`] of the dummy position gives the empty file name, line 0 and
/// column 0, in a table where the empty name has tag 0.
pub proof fn law_get_dummy(t: FileTags)
    requires
        t.wf(),
    ensures
        0 <= Position::spec_dummy().tag() < t.names().len(),
        t.names()[Position::spec_dummy().tag() as int] == Seq::<char>::empty(),
        Position::spec_dummy().start_line() == 0,
        Position::spec_dummy().start_col() == 0,
        Position::spec_dummy().end_line() == 0,
        Position::spec_dummy().end_col() == 0,
{
    let b = bits_col();
    assert(0isize >> b == 0isize) by (bit_vector);
    assert(0isize & (((1isize << b) - 1) as isize) == 0isize) by (bit_vector);
}

/// The human-readable text of a position: the quoted file name, unless it is
/// empty, then either `line l, characters bc-ec` or `line bl, character bc to
/// line el, character ec`.
pub open spec fn position_text(file: Seq<char>, bl: int, bc: int, el: int, ec: int) -> Seq<Layout> {
    (if file.len() == 0 {
        Seq::empty()
    } else {
        at("\""@ + file + "\", "@)
    }) + at("line "@ + decimal(bl) + ", character"@) + if bl == el {
        at("s "@ + decimal(bc) + "-"@ + decimal(ec))
    } else {
        at(" "@ + decimal(bc) + " to line "@ + decimal(el) + ", character "@ + decimal(ec))
    }
}

fn cat3(a: &str, b: &str, c: &str) -> (r: String)
    ensures
        r@ == a@ + b@ + c@,
{
    let mut s = text::concat(a, b);
    s.append(c);
    s
}

/// Lays the position `loc` out in a human-readable way, as in
/// `"f.mlw", line 3, characters 4-10`.
pub fn pp_position(tags: &FileTags, doc: &mut Doc, loc: Position)
    requires
        0 <= loc.tag() < tags.names().len(),
    ensures
        final(doc)@ == old(doc)@ + position_text(
            tags.names()[loc.tag() as int],
            loc.start_line() as int,
            loc.start_col() as int,
            loc.end_line() as int,
            loc.end_col() as int,
        ),
{
    let (f, bl, bc, el, ec) = get(tags, loc);
    let sbl = text::isize_to_string(bl);
    let sbc = text::isize_to_string(bc);
    let sel = text::isize_to_string(el);
    let sec = text::isize_to_string(ec);
    proof {
        reveal_strlit("\"");
        reveal_strlit("\", ");
        reveal_strlit("line ");
        reveal_strlit(", character");
        reveal_strlit("s ");
        reveal_strlit("-");
        reveal_strlit(" ");
        reveal_strlit(" to line ");
        reveal_strlit(", character ");
    }
    if f.unicode_len() != 0 {
        doc.atom_string(cat3("\"", f.as_str(), "\", "));
    }
    doc.atom_string(cat3("line ", sbl.as_str(), ", character"));
    if bl == el {
        let mut s = cat3("s ", sbc.as_str(), "-");
        s.append(sec.as_str());
        doc.atom_string(s);
    } else {
        let mut s = cat3(" ", sbc.as_str(), " to line ");
        s.append(sel.as_str());
        s.append(", character ");
        s.append(sec.as_str());
        doc.atom_string(s);
    }
    proof {
        let file = tags.names()[loc.tag() as int];
        assert(doc@ =~= old(doc)@ + position_text(file, bl as int, bc as int, el as int, ec as int));
    }
}

// ------------------------------------------------------------------ warnings

/// The registered warnings, each with its description; a registered warning
/// is enabled. Also records whether a warning on a column that overflows into
/// the next line was already given.
pub struct Warnings {
    entries: Vec<(String, Doc)>,
    overflow_warned: bool,
}

impl Warnings {
    /// The names of the registered warnings.
    pub closed spec fn names(&self) -> Seq<Seq<char>> {
        self.entries@.map_values(|e: (String, Doc)| e.0@)
    }

    /// Whether a warning on an overflowing column was already given.
    pub closed spec fn overflow_warned(&self) -> bool {
        self.overflow_warned
    }

    /// No warning registered, none given.
    pub fn new() -> (w: Warnings)
        ensures
            w.names() == Seq::<Seq<char>>::empty(),
            !w.overflow_warned(),
    {
        let w = Warnings { entries: Vec::new(), overflow_warned: false };
        assert(w.names() =~= Seq::<Seq<char>>::empty());
        w
    }

    /// Whether the warning `name` is registered.
    pub fn is_registered(&self, name: &str) -> (r: bool)
        ensures
            r == self.names().contains(name@),
    {
        let n = self.entries.len();
        let mut i: usize = 0;
        while i < n
            invariant
                n == self.entries@.len(),
                i <= n,
                forall|j: int| 0 <= j < i ==> self.entries@[j].0@ != name@,
            decreases n - i,
        {
            if text::str_eq(self.entries[i].0.as_str(), name) {
                assert(self.names()[i as int] == name@);
                return true;
            }
            i += 1;
        }
        proof {
            if self.names().contains(name@) {
                let j = choose|j: int| 0 <= j < self.names().len() && self.names()[j] == name@;
                assert(self.entries@[j].0@ == name@);
            }
        }
        false
    }
}

/// Registers the warning `name`, with the description `desc`, unless it is
/// registered already; gives back its name.
pub fn register_warning(w: &mut Warnings, name: &str, desc: Doc) -> (id: String)
    ensures
        id@ == name@,
        old(w).names().contains(name@) ==> final(w).names() == old(w).names(),
        !old(w).names().contains(name@) ==> final(w).names() == old(w).names().push(name@),
        final(w).overflow_warned() == old(w).overflow_warned(),
{
    if !w.is_registered(name) {
        let ghost before = w.names();
        w.entries.push((name.to_owned(), desc));
        assert(w.names() =~= before.push(name@));
    }
    name.to_owned()
}

/// Whether the registered warning `id` is enabled: registered warnings are.
pub fn warning_active(w: &Warnings, id: &str) -> (b: bool)
    requires
        w.names().contains(id@),
    ensures
        b,
{
    w.is_registered(id)
}

/// The warning to give for the registered warning `id`, where it is enabled:
/// its location, if given, and the message `doc` in a structural box.
pub fn warning(w: &Warnings, id: &str, loc: Option<Position>, doc: Doc) -> (r: Option<(Option<Position>, Doc)>)
    requires
        w.names().contains(id@),
    ensures
        r matches Some((l, d)) && l == loc && d@ == bx(BoxKind::S, 0, doc@),
{
    let mut d = Doc::new();
    d.boxed(BoxKind::S, 0, doc);
    if warning_active(w, id) {
        Some((loc, d))
    } else {
        None
    }
}

/// The text of the warning on a column number that overflows into the next
/// line, for the start (`start`) or the end of a position.
pub open spec fn overflow_text(start: bool, c: int) -> Seq<char> {
    "loc::user_position: "@ + (if start { "start"@ } else { "end"@ }) + " char number `"@
        + decimal(c) + "` overflows on next line"@
}

/// The warning that [`user_position`] gives, once in all, when a column number
/// overflows into the next line: when the start column is over the largest
/// column, or else when the end column is.
pub fn user_position_warning(w: &mut Warnings, bc: isize, ec: isize) -> (r: Option<Doc>)
    ensures
        old(w).overflow_warned() ==> r is None && *final(w) == *old(w),
        !old(w).overflow_warned() && bc > mask_col() ==> final(w).overflow_warned() && (
        r matches Some(d) && d@ == bx(BoxKind::S, 0, at(overflow_text(true, bc as int))))
            && final(w).names().contains("start_overflow"@),
        !old(w).overflow_warned() && bc <= mask_col() && ec > mask_col()
            ==> final(w).overflow_warned() && (r matches Some(d) && d@ == bx(
            BoxKind::S,
            0,
            at(overflow_text(false, ec as int)),
        )) && final(w).names().contains("end_overflow"@),
        !old(w).overflow_warned() && bc <= mask_col() && ec <= mask_col() ==> r is None && *final(w)
            == *old(w),
{
    if w.overflow_warned {
        return None;
    }
    let b = bits_col_exec();
    proof {
        assert(12 <= b <= 16);
        assert(b <= 16 ==> 1isize << b >= 1isize) by (bit_vector);
    }
    let m: isize = (1isize << b) - 1;
    proof {
        reveal_strlit("loc::user_position: ");
        reveal_strlit("start");
        reveal_strlit("end");
        reveal_strlit(" char number `");
        reveal_strlit("` overflows on next line");
        reveal_strlit("start_overflow");
        reveal_strlit("end_overflow");
        reveal_strlit("Warn when the start character of a source location overflows into the next line");
        reveal_strlit("Warn when the end character of a source location overflows into the next line");
    }
    let (start, c, id, descr) = if bc > m {
        (true, bc, "start_overflow", "Warn when the start character of a source location overflows into the next line")
    } else if ec > m {
        (false, ec, "end_overflow", "Warn when the end character of a source location overflows into the next line")
    } else {
        return None;
    };
    w.overflow_warned = true;
    let mut desc = Doc::new();
    desc.atom(descr);
    let ghost before = w.names();
    let name = register_warning(w, id, desc);
    proof {
        if !before.contains(id@) {
            assert(w.names()[before.len() as int] == id@);
        }
    }
    let mut msg = String::from_str("loc::user_position: ");
    msg.append(if start { "start" } else { "end" });
    msg.append(" char number `");
    msg.append(text::isize_to_string(c).as_str());
    msg.append("` overflows on next line");
    let mut doc = Doc::new();
    doc.atom_string(msg);
    assert(w.names().contains(name@));
    match warning(w, name.as_str(), None, doc) {
        Some((_, d)) => Some(d),
        None => None,
    }
}

} // verus!
