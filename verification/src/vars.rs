//! The shell-local variable table: a mapping from names to string values
//! in which the most recent assignment to a name wins.

use vstd::prelude::*;
use crate::chars::chars_eq_str;

verus! {

/// The view of a table's entries: each name and value as a character
/// sequence, in assignment order.
pub open spec fn entries_view(s: Seq<(String, String)>) -> Seq<(Seq<char>, Seq<char>)> {
    Seq::new(s.len(), |i: int| (s[i].0@, s[i].1@))
}

/// The value bound to `name`, taking the latest entry when several share
/// the name.
pub open spec fn lookup_in(m: Seq<(Seq<char>, Seq<char>)>, name: Seq<char>) -> Option<Seq<char>>
    decreases m.len(),
{
    if m.len() == 0 {
        None
    } else if m.last().0 == name {
        Some(m.last().1)
    } else {
        lookup_in(m.drop_last(), name)
    }
}

/// A name-to-value table; later assignments shadow earlier ones.
pub struct VarTable {
    pub entries: Vec<(String, String)>,
}

impl View for VarTable {
    type V = Seq<(Seq<char>, Seq<char>)>;

    open spec fn view(&self) -> Self::V {
        entries_view(self.entries@)
    }
}

impl VarTable {
    /// An empty table.
    pub fn new() -> (r: VarTable)
        ensures
            r@ == Seq::<(Seq<char>, Seq<char>)>::empty(),
    {
        let t = VarTable { entries: Vec::new() };
        proof {
            assert(t@ =~= Seq::<(Seq<char>, Seq<char>)>::empty());
        }
        t
    }

    /// Binds `name` to `value`, shadowing any earlier binding.
    pub fn set(&mut self, name: String, value: String)
        ensures
            final(self)@ == old(self)@.push((name@, value@)),
            lookup_in(final(self)@, name@) == Some::<Seq<char>>(value@),
            forall|n: Seq<char>| n != name@ ==> lookup_in(final(self)@, n) == lookup_in(
                old(self)@,
                n,
            ),
    {
        let ghost pre = self@;
        self.entries.push((name, value));
        proof {
            assert(self@ =~= pre.push((name@, value@)));
            assert(self@.drop_last() =~= pre);
        }
    }

    /// The value bound to `name`, if any.
    pub fn get(&self, name: &Vec<char>) -> (r: Option<String>)
        ensures
            match r {
                Some(v) => lookup_in(self@, name@) == Some::<Seq<char>>(v@),
                None => lookup_in(self@, name@) is None,
            },
    {
        let n = self.entries.len();
        let mut i: usize = n;
        proof {
            assert(self@.take(n as int) =~= self@);
        }
        while i > 0
            invariant
                i <= n,
                n == self.entries@.len(),
                lookup_in(self@, name@) == lookup_in(self@.take(i as int), name@),
            decreases i,
        {
            let entry_name: &String = &self.entries[i - 1].0;
            proof {
                assert(self@.take(i as int).last() == (self.entries@[i - 1].0@, self.entries@[
                    i - 1
                ].1@));
                assert(self@.take(i as int).drop_last() =~= self@.take(i - 1));
            }
            if chars_eq_str(name, entry_name.as_str()) {
                return Some(self.entries[i - 1].1.clone());
            }
            i = i - 1;
        }
        proof {
            assert(self@.take(0) =~= Seq::<(Seq<char>, Seq<char>)>::empty());
        }
        None
    }
}

} // verus!
