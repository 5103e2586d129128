//! Facts about the machine the run is converging: key-value pairs such as
//! the operating system and the detected distribution.

use vstd::prelude::*;

use crate::environment::str_assoc_map;
use crate::strutil::str_eq;
use crate::template::Vars;

verus! {

/// The fact key under which the detected distribution is recorded.
pub const DISTRO: &'static str = "distro";

/// The fact key under which the operating system is recorded.
pub const OS: &'static str = "os";

/// The holder of all the facts detected about the machine.
#[derive(Debug, Clone, PartialEq, Eq)]
pub struct Facts {
    entries: Vec<(String, String)>,
}

impl View for Facts {
    type V = Map<Seq<char>, Seq<char>>;

    closed spec fn view(&self) -> Map<Seq<char>, Seq<char>> {
        str_assoc_map(self.entries@)
    }
}

impl Facts {
    /// Construct a set of facts from explicit key-value pairs; a later pair
    /// for the same key wins.
    pub fn new(facts: Vec<(String, String)>) -> (r: Self)
        ensures
            r@ == str_assoc_map(facts@),
    {
        Facts { entries: facts }
    }

    /// Get the specified fact, if present.
    pub fn get(&self, k: &str) -> (r: Option<&str>)
        ensures
            match r {
                Some(v) => self@.contains_key(k@) && self@[k@] == v@,
                None => !self@.contains_key(k@),
            },
    {
        let mut i: usize = self.entries.len();
        proof {
            assert(self.entries@.subrange(0, self.entries@.len() as int) =~= self.entries@);
        }
        while i > 0
            invariant
                0 <= i <= self.entries@.len(),
                self@.contains_key(k@) <==> str_assoc_map(
                    self.entries@.subrange(0, i as int),
                ).contains_key(k@),
                self@.contains_key(k@) ==> self@[k@] == str_assoc_map(
                    self.entries@.subrange(0, i as int),
                )[k@],
            decreases i,
        {
            i = i - 1;
            proof {
                assert(self.entries@.subrange(0, i + 1).drop_last() =~= self.entries@.subrange(
                    0,
                    i as int,
                ));
                assert(self.entries@.subrange(0, i + 1).last() == self.entries@[i as int]);
            }
            if str_eq(self.entries[i].0.as_str(), k) {
                return Some(self.entries[i].1.as_str());
            }
        }
        proof {
            assert(self.entries@.subrange(0, 0) =~= Seq::<(String, String)>::empty());
        }
        None
    }
}

impl Vars for Facts {
    open spec fn get_spec(&self, k: Seq<char>) -> Option<Seq<char>> {
        if self@.contains_key(k) {
            Some(self@[k])
        } else {
            None
        }
    }

    fn get(&self, k: &str) -> (r: Option<&str>) {
        Facts::get(self, k)
    }
}

} // verus!
