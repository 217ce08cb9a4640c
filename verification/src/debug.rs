//! Debug flags: named switches, registered once, that code can test.

use vstd::prelude::*;

use crate::doc::Doc;
use crate::text;

verus! {

/// A debug flag: its name and whether it is set.
#[derive(Clone, Copy, PartialEq, Eq, Hash, Debug)]
pub struct Flag {
    name: &'static str,
    value: bool,
}

impl Flag {
    pub closed spec fn name(self) -> Seq<char> {
        self.name@
    }

    pub closed spec fn value(self) -> bool {
        self.value
    }

    /// The flag's name.
    pub fn flag_name(&self) -> (s: &'static str)
        ensures
            s@ == self.name(),
    {
        self.name
    }
}

/// The registered flags, each with whether it is an information flag and
/// its description.
pub struct FlagTable {
    entries: Vec<(Flag, bool, Doc)>,
}

impl FlagTable {
    /// The registered flags, in the order of their registration.
    pub closed spec fn flags(&self) -> Seq<Flag> {
        self.entries@.map_values(|e: (Flag, bool, Doc)| e.0)
    }

    /// The names of the registered flags.
    pub open spec fn names(&self) -> Seq<Seq<char>> {
        self.flags().map_values(|f: Flag| f.name())
    }

    /// No flag of the table is set: flags are registered unset, and nothing
    /// sets them.
    pub open spec fn all_unset(&self) -> bool {
        forall|i: int| 0 <= i < self.flags().len() ==> !(#[trigger] self.flags()[i]).value()
    }

    /// No two registered flags have the same name.
    pub open spec fn names_distinct(&self) -> bool {
        forall|i: int, j: int|
            0 <= i < j < self.names().len() ==> #[trigger] self.names()[i] != #[trigger] self.names()[j]
    }

    /// What every table keeps: names are distinct and no flag is set.
    #[verifier::type_invariant]
    closed spec fn inv(self) -> bool {
        self.names_distinct() && self.all_unset()
    }

    /// Every table has distinct names and no flag set.
    pub fn check_invariant(&self)
        ensures
            self.names_distinct(),
            self.all_unset(),
    {
        proof {
            use_type_invariant(self);
        }
    }

    /// A table with no flag.
    pub fn new() -> (t: FlagTable)
        ensures
            t.flags() == Seq::<Flag>::empty(),
            t.all_unset(),
            t.names_distinct(),
    {
        let t = FlagTable { entries: Vec::new() };
        assert(t.flags() =~= Seq::<Flag>::empty());
        t
    }
}

/// The flag named `s`, after registering it, unset, with the description
/// `desc`, if it is not registered yet; a name registered already gives back
/// the flag registered under it. Every table keeps distinct names and no flag
/// set.
pub fn register_flag(table: &mut FlagTable, s: &'static str, desc: Doc) -> (f: Flag)
    ensures
        f.name() == s@,
        !f.value(),
        old(table).names().contains(s@) ==> final(table).flags() == old(table).flags()
            && forall|j: int|
            0 <= j < old(table).names().len() && old(table).names()[j] == s@ ==> f == old(
                table,
            ).flags()[j],
        !old(table).names().contains(s@) ==> final(table).flags() == old(table).flags().push(f),
        final(table).names_distinct(),
        final(table).all_unset(),
{
    proof {
        use_type_invariant(&*table);
    }
    let n = table.entries.len();
    let mut i: usize = 0;
    while i < n
        invariant
            n == table.entries@.len(),
            i <= n,
            table.names_distinct(),
            table.all_unset(),
            forall|j: int| 0 <= j < i ==> table.entries@[j].0.name@ != s@,
        decreases n - i,
    {
        if text::str_eq(table.entries[i].0.name, s) {
            let f = table.entries[i].0;
            assert(table.flags()[i as int] == f);
            assert(table.names()[i as int] == s@);
            proof {
                assert forall|j: int|
                    0 <= j < table.names().len() && table.names()[j] == s@ implies f
                    == table.flags()[j] by {
                    if j != i {
                        if j < i {
                            assert(table.names()[j] != table.names()[i as int]);
                        } else {
                            assert(table.names()[i as int] != table.names()[j]);
                        }
                    }
                }
            }
            return f;
        }
        i += 1;
    }
    proof {
        if table.names().contains(s@) {
            let j = choose|j: int| 0 <= j < table.names().len() && table.names()[j] == s@;
            assert(table.entries@[j].0.name@ == s@);
        }
    }
    let f = Flag { name: s, value: false };
    let ghost before = table.flags();
    let ghost before_names = table.names();
    let mut entries: Vec<(Flag, bool, Doc)> = Vec::new();
    assert(entries@.map_values(|e: (Flag, bool, Doc)| e.0) =~= Seq::<Flag>::empty());
    std::mem::swap(&mut entries, &mut table.entries);
    entries.push((f, false, desc));
    proof {
        let fl = entries@.map_values(|e: (Flag, bool, Doc)| e.0);
        assert(fl =~= before.push(f));
        assert(fl.map_values(|g: Flag| g.name()) =~= before_names.push(s@));
    }
    table.entries = entries;
    f
}

/// Whether the flag is set.
pub fn test_flag(s: Flag) -> (b: bool)
    ensures
        b == s.value(),
{
    s.value
}

/// In a table whose names are distinct, a name picks out one flag: so
/// registering a name twice gives the same flag both times.
pub proof fn law_flag_of_name(t: FlagTable, f: Flag, g: Flag)
    requires
        t.names_distinct(),
        t.flags().contains(f),
        t.flags().contains(g),
        f.name() == g.name(),
    ensures
        f == g,
{
    let i = choose|i: int| 0 <= i < t.flags().len() && t.flags()[i] == f;
    let j = choose|j: int| 0 <= j < t.flags().len() && t.flags()[j] == g;
    assert(t.names()[i] == f.name());
    assert(t.names()[j] == g.name());
    if i < j {
        assert(t.names()[i] != t.names()[j]);
    } else if j < i {
        assert(t.names()[j] != t.names()[i]);
    }
}

/// Registering the same name twice gives the same flag, unset, whatever the
/// table was: the two results as [`register_flag`] states them are equal.
pub proof fn law_register_twice(
    t0: FlagTable,
    t1: FlagTable,
    s: Seq<char>,
    f1: Flag,
    f2: Flag,
)
    requires
        f1.name() == s,
        t0.names().contains(s) ==> t1.flags() == t0.flags() && forall|j: int|
            0 <= j < t0.names().len() && t0.names()[j] == s ==> f1 == t0.flags()[j],
        !t0.names().contains(s) ==> t1.flags() == t0.flags().push(f1),
        forall|j: int| 0 <= j < t1.names().len() && t1.names()[j] == s ==> f2 == t1.flags()[j],
    ensures
        f1 == f2,
{
    if t0.names().contains(s) {
        let j = choose|j: int| 0 <= j < t0.names().len() && t0.names()[j] == s;
        assert(t1.names()[j] == s);
    } else {
        let n = t0.flags().len() as int;
        assert(t1.flags()[n] == f1);
        assert(t1.names()[n] == s);
    }
}

} // verus!
