//! The externally supplied dictionary lookup: id to materialized dictionary
//! array. Later bindings for the same id shadow earlier ones, as inserting
//! into a map would.

use vstd::prelude::*;
use crate::handle::{arr_view, ArrowArray, ArrowArrayV};

verus! {

/// The id -> dictionary-array lookup handed in by the reader.
pub struct Dictionaries {
    entries: Vec<(i64, ArrowArray)>,
}

/// The map value of a binding sequence: later bindings win.
pub open spec fn entries_map(s: Seq<(i64, ArrowArray)>) -> Map<i64, ArrowArrayV>
    decreases s.len(),
{
    if s.len() == 0 {
        Map::empty()
    } else {
        entries_map(s.drop_last()).insert(s.last().0, arr_view(s.last().1))
    }
}

impl View for Dictionaries {
    type V = Map<i64, ArrowArrayV>;

    closed spec fn view(&self) -> Map<i64, ArrowArrayV> {
        entries_map(self.entries@)
    }
}

impl Dictionaries {
    /// An empty lookup.
    pub fn new() -> (r: Self)
        ensures
            r@ == Map::<i64, ArrowArrayV>::empty(),
    {
        Dictionaries { entries: Vec::new() }
    }

    /// Binds `id` to `array`, shadowing any earlier binding of the same id.
    pub fn insert(&mut self, id: i64, array: ArrowArray)
        ensures
            final(self)@ == old(self)@.insert(id, array@),
    {
        self.entries.push((id, array));
        proof {
            assert(self.entries@.drop_last() =~= old(self).entries@);
        }
    }

    /// Looks an id up; the newest binding wins.
    pub fn get(&self, id: i64) -> (r: Option<&ArrowArray>)
        ensures
            match r {
                Some(a) => self@.contains_key(id) && a@ == self@[id],
                None => !self@.contains_key(id),
            },
    {
        let ghost s = self.entries@;
        proof {
            assert(s.take(s.len() as int) =~= s);
        }
        let mut i: usize = self.entries.len();
        while i > 0
            invariant
                i <= s.len(),
                s == self.entries@,
                entries_map(s).contains_key(id) == entries_map(s.take(i as int)).contains_key(id),
                entries_map(s).contains_key(id) ==> entries_map(s)[id] == entries_map(
                    s.take(i as int),
                )[id],
            decreases i,
        {
            let entry = &self.entries[i - 1];
            proof {
                assert(s.take(i as int).drop_last() == s.take(i - 1 as int));
                assert(s.take(i as int).last() == s[i - 1]);
            }
            if entry.0 == id {
                return Some(&entry.1);
            }
            i = i - 1;
        }
        proof {
            assert(s.take(0) == Seq::<(i64, ArrowArray)>::empty());
        }
        None
    }
}

} // verus!
