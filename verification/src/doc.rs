//! Layout documents: the formatting directives (boxes, atoms, break hints,
//! newlines) that a pretty-printer emits, in the vocabulary of OCaml's
//! `Format` module as offered by the `ocaml_format` crate.
//!
//! A [`Doc`] is a sequence of [`DocItem`]s; its view is the same sequence as
//! the mathematical [`Layout`] values that contracts speak of.

use vstd::prelude::*;

verus! {

/// The kinds of formatting boxes.
#[derive(Clone, Copy, Debug, PartialEq, Eq, Structural)]
pub enum BoxKind {
    /// horizontal box: breaks never split lines
    H,
    /// vertical box: every break splits the line
    V,
    /// horizontal/vertical box: all breaks split, or none does
    Hv,
    /// packing box: a break splits only when the next part does not fit
    Hov,
    /// structural box
    S,
}

/// The mathematical content of a layout document.
pub ghost enum Layout {
    Atom(Seq<char>),
    Quoted(Seq<char>),
    Break(nat, nat),
    Newline,
    Boxed(BoxKind, nat, Seq<Layout>),
}

/// One formatting directive.
#[derive(Debug)]
pub enum DocItem {
    /// indivisible text
    Atom(String),
    /// a string, to be printed quoted in OCaml style
    Quoted(String),
    /// a break hint: number of spaces, extra indentation on a new line
    Break(usize, usize),
    /// a forced newline
    Newline,
    /// a box of the given kind and indentation around its items
    Boxed(BoxKind, usize, Vec<DocItem>),
}

/// A layout document.
#[derive(Debug)]
pub struct Doc {
    pub items: Vec<DocItem>,
}

pub open spec fn item_view(it: DocItem) -> Layout
    decreases it,
{
    match it {
        DocItem::Atom(s) => Layout::Atom(s@),
        DocItem::Quoted(s) => Layout::Quoted(s@),
        DocItem::Break(a, b) => Layout::Break(a as nat, b as nat),
        DocItem::Newline => Layout::Newline,
        DocItem::Boxed(k, i, v) => Layout::Boxed(k, i as nat, items_view(v@)),
    }
}

pub open spec fn items_view(s: Seq<DocItem>) -> Seq<Layout>
    decreases s,
{
    if s.len() == 0 {
        seq![]
    } else {
        items_view(s.drop_last()).push(item_view(s.last()))
    }
}

impl View for Doc {
    type V = Seq<Layout>;

    open spec fn view(&self) -> Seq<Layout> {
        items_view(self.items@)
    }
}

pub proof fn lemma_items_view_append(a: Seq<DocItem>, b: Seq<DocItem>)
    ensures
        items_view(a + b) == items_view(a) + items_view(b),
    decreases b.len(),
{
    if b.len() == 0 {
        assert(a + b =~= a);
    } else {
        lemma_items_view_append(a, b.drop_last());
        assert((a + b).drop_last() =~= a + b.drop_last());
        assert((a + b).last() == b.last());
    }
}

/// A single atom.
pub open spec fn at(s: Seq<char>) -> Seq<Layout> {
    seq![Layout::Atom(s)]
}

/// A break hint.
pub open spec fn brk(spaces: nat, indent: nat) -> Seq<Layout> {
    seq![Layout::Break(spaces, indent)]
}

/// A breaking space.
pub open spec fn sp() -> Seq<Layout> {
    brk(1, 0)
}

/// A cut: a break hint of no space.
pub open spec fn cut() -> Seq<Layout> {
    brk(0, 0)
}

/// A newline.
pub open spec fn nl() -> Seq<Layout> {
    seq![Layout::Newline]
}

/// A box around `inner`.
pub open spec fn bx(k: BoxKind, indent: nat, inner: Seq<Layout>) -> Seq<Layout> {
    seq![Layout::Boxed(k, indent, inner)]
}

/// The parts, with `sep` between each two of them.
pub open spec fn join(parts: Seq<Seq<Layout>>, sep: Seq<Layout>) -> Seq<Layout>
    decreases parts.len(),
{
    if parts.len() == 0 {
        seq![]
    } else if parts.len() == 1 {
        parts[0]
    } else {
        join(parts.drop_last(), sep) + sep + parts.last()
    }
}

impl Doc {
    pub fn new() -> (d: Doc)
        ensures
            d@ == Seq::<Layout>::empty(),
    {
        Doc { items: Vec::new() }
    }

    fn push_item(&mut self, it: DocItem)
        ensures
            final(self)@ == old(self)@ + seq![item_view(it)],
    {
        let ghost old_items = self.items@;
        self.items.push(it);
        proof {
            assert(self.items@.drop_last() =~= old_items);
        }
    }

    /// Appends indivisible text.
    pub fn atom(&mut self, s: &str)
        ensures
            final(self)@ == old(self)@ + at(s@),
    {
        self.push_item(DocItem::Atom(s.to_owned()));
    }

    /// Appends indivisible text.
    pub fn atom_string(&mut self, s: String)
        ensures
            final(self)@ == old(self)@ + at(s@),
    {
        self.push_item(DocItem::Atom(s));
    }

    /// Appends a string, to be quoted in OCaml style.
    pub fn quoted(&mut self, s: &str)
        ensures
            final(self)@ == old(self)@ + seq![Layout::Quoted(s@)],
    {
        self.push_item(DocItem::Quoted(s.to_owned()));
    }

    /// Appends a break hint.
    pub fn format_break(&mut self, spaces: usize, indent: usize)
        ensures
            final(self)@ == old(self)@ + brk(spaces as nat, indent as nat),
    {
        self.push_item(DocItem::Break(spaces, indent));
    }

    /// Appends a breaking space.
    pub fn space(&mut self)
        ensures
            final(self)@ == old(self)@ + sp(),
    {
        self.format_break(1, 0);
    }

    /// Appends a newline hint.
    pub fn cut(&mut self)
        ensures
            final(self)@ == old(self)@ + cut(),
    {
        self.format_break(0, 0);
    }

    /// Appends a newline.
    pub fn newline(&mut self)
        ensures
            final(self)@ == old(self)@ + nl(),
    {
        self.push_item(DocItem::Newline);
    }

    /// Appends a box of the given kind around the items of `inner`.
    pub fn boxed(&mut self, k: BoxKind, indent: usize, inner: Doc)
        ensures
            final(self)@ == old(self)@ + bx(k, indent as nat, inner@),
    {
        self.push_item(DocItem::Boxed(k, indent, inner.items));
    }

    /// Appends the items of another document.
    pub fn extend(&mut self, other: Doc)
        ensures
            final(self)@ == old(self)@ + other@,
    {
        let mut other = other;
        proof {
            lemma_items_view_append(self.items@, other.items@);
        }
        self.items.append(&mut other.items);
    }
}

} // verus!

verus! {

/// The parts, each preceded by `every`, with `sep` between each two of them.
pub open spec fn join_every(parts: Seq<Seq<Layout>>, every: Seq<Layout>, sep: Seq<Layout>) -> Seq<
    Layout,
>
    decreases parts.len(),
{
    if parts.len() == 0 {
        seq![]
    } else if parts.len() == 1 {
        every + parts[0]
    } else {
        join_every(parts.drop_last(), every, sep) + sep + every + parts.last()
    }
}

/// `def` if there are no parts; otherwise `prefix`, the parts each preceded by
/// `every` and separated by `sep`, then `suffix`.
pub open spec fn opt_list(
    prefix: Seq<Layout>,
    every: Seq<Layout>,
    sep: Seq<Layout>,
    suffix: Seq<Layout>,
    def: Seq<Layout>,
    parts: Seq<Seq<Layout>>,
) -> Seq<Layout> {
    if parts.len() == 0 {
        def
    } else {
        prefix + join_every(parts, every, sep) + suffix
    }
}

/// The views of documents.
pub open spec fn views(ds: Seq<Doc>) -> Seq<Seq<Layout>> {
    ds.map_values(|d: Doc| d@)
}

impl Doc {
    /// Appends the parts, with `sep` between each two of them.
    pub fn join_parts(&mut self, parts: Vec<Doc>, sep: &Doc)
        ensures
            final(self)@ == old(self)@ + join(views(parts@), sep@),
    {
        self.opt_list_parts(parts, &Doc::new(), &Doc::new(), sep, &Doc::new(), &Doc::new());
        proof {
            lemma_join_every_empty(views(parts@), sep@);
        }
    }

    /// Appends `def` if there are no parts; otherwise `prefix`, the parts each
    /// preceded by `every` and separated by `sep`, then `suffix`.
    pub fn opt_list_parts(
        &mut self,
        parts: Vec<Doc>,
        prefix: &Doc,
        every: &Doc,
        sep: &Doc,
        suffix: &Doc,
        def: &Doc,
    )
        ensures
            final(self)@ == old(self)@ + opt_list(
                prefix@,
                every@,
                sep@,
                suffix@,
                def@,
                views(parts@),
            ),
    {
        let ghost ps = views(parts@);
        if parts.len() == 0 {
            self.extend(def.copy());
            return ;
        }
        self.extend(prefix.copy());
        let ghost start = self@;
        let mut parts = parts;
        let mut rest: Vec<Doc> = Vec::new();
        // reverse so that parts can be popped in order
        while parts.len() > 0
            invariant
                views(rest@) + views(parts@).reverse() == ps.reverse(),
            decreases parts.len(),
        {
            let ghost before = parts@;
            let d = parts.pop().unwrap();
            proof {
                assert(parts@ =~= before.drop_last());
            }
            rest.push(d);
            proof {
                assert(views(rest@) + views(parts@).reverse() =~= ps.reverse());
            }
        }
        let mut i: usize = 0;
        let n = rest.len();
        assert(views(rest@) =~= ps.reverse());
        while rest.len() > 0
            invariant
                n == ps.len(),
                n > 0,
                i + rest@.len() == n,
                views(rest@) == ps.subrange(i as int, n as int).reverse(),
                self@ == start + join_every(ps.take(i as int), every@, sep@),
            decreases rest.len(),
        {
            let ghost before = rest@;
            let d = rest.pop().unwrap();
            proof {
                assert(rest@ =~= before.drop_last());
                let vb = views(before);
                let sub = ps.subrange(i as int, n as int);
                assert(vb == sub.reverse());
                assert(vb[vb.len() - 1] == d@);
                assert(sub.reverse()[sub.len() - 1] == sub[0]);
                assert(d@ == ps[i as int]);
                assert(views(rest@) =~= vb.drop_last());
                assert(vb.drop_last() =~= ps.subrange(i + 1, n as int).reverse());
                assert(ps.take(i + 1).drop_last() =~= ps.take(i as int));
            }
            if i > 0 {
                self.extend(sep.copy());
            }
            self.extend(every.copy());
            self.extend(d);
            i += 1;
        }
        assert(ps.take(n as int) =~= ps);
        self.extend(suffix.copy());
    }

    /// A copy of the document.
    pub fn copy(&self) -> (d: Doc)
        ensures
            d@ == self@,
    {
        Doc { items: copy_items(&self.items) }
    }
}

fn copy_item(it: &DocItem) -> (r: DocItem)
    ensures
        item_view(r) == item_view(*it),
    decreases it,
{
    match it {
        DocItem::Atom(s) => DocItem::Atom(s.clone()),
        DocItem::Quoted(s) => DocItem::Quoted(s.clone()),
        DocItem::Break(a, b) => DocItem::Break(*a, *b),
        DocItem::Newline => DocItem::Newline,
        DocItem::Boxed(k, i, v) => DocItem::Boxed(*k, *i, copy_items(v)),
    }
}

fn copy_items(v: &Vec<DocItem>) -> (r: Vec<DocItem>)
    ensures
        items_view(r@) == items_view(v@),
    decreases v,
{
    let mut r: Vec<DocItem> = Vec::new();
    let mut i: usize = 0;
    while i < v.len()
        invariant
            i <= v@.len(),
            items_view(r@) == items_view(v@.take(i as int)),
        decreases v@.len() - i,
    {
        assert(decreases_to!(v => v@[i as int]));
        let it = copy_item(&v[i]);
        let ghost old_r = r@;
        r.push(it);
        proof {
            assert(r@.drop_last() =~= old_r);
            assert(v@.take(i + 1).drop_last() =~= v@.take(i as int));
        }
        i += 1;
    }
    assert(v@.take(i as int) =~= v@);
    r
}

pub proof fn lemma_join_every_empty(parts: Seq<Seq<Layout>>, sep: Seq<Layout>)
    ensures
        opt_list(seq![], seq![], sep, seq![], seq![], parts) == join(parts, sep),
    decreases parts.len(),
{
    lemma_join_every_empty_aux(parts, sep);
}

proof fn lemma_join_every_empty_aux(parts: Seq<Seq<Layout>>, sep: Seq<Layout>)
    ensures
        join_every(parts, seq![], sep) == join(parts, sep),
    decreases parts.len(),
{
    if parts.len() > 1 {
        lemma_join_every_empty_aux(parts.drop_last(), sep);
    }
    if parts.len() == 1 {
        assert(Seq::<Layout>::empty() + parts[0] =~= parts[0]);
    }
}

} // verus!
