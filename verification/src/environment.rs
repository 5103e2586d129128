//! Access to environment variables, behind a trait so that rendering logic
//! can be checked against any source of variables.

use vstd::prelude::*;

use crate::strutil::str_eq;

verus! {

/// An error raised when an environment variable could not be read.
#[derive(Debug, Clone, PartialEq, Eq)]
pub struct EnvError {
    /// The variable that could not be read.
    pub key: String,
}

/// A source of environment variables.
pub trait Environment {
    /// The value this source holds for a key, if any.
    spec fn var_spec(&self, key: Seq<char>) -> Option<Seq<char>>;

    /// Whether looking the key up succeeds at all.
    spec fn var_ok(&self, key: Seq<char>) -> bool;

    /// Access the given environment variable.
    fn var(&self, key: &str) -> (r: Result<Option<String>, EnvError>)
        ensures
            r is Ok <==> self.var_ok(key@),
            r matches Ok(v) ==> match v {
                Some(value) => self.var_spec(key@) == Some(value@),
                None => self.var_spec(key@) is None,
            },
    ;
}

/// The map described by a sequence of string pairs: later entries win.
pub open spec fn str_assoc_map(s: Seq<(String, String)>) -> Map<Seq<char>, Seq<char>>
    decreases s.len(),
{
    if s.len() == 0 {
        Map::empty()
    } else {
        str_assoc_map(s.drop_last()).insert(s.last().0@, s.last().1@)
    }
}

/// An environment backed by an explicit table of variables. Lookups never
/// fail.
#[derive(Debug, Clone, PartialEq, Eq)]
pub struct MapEnvironment {
    entries: Vec<(String, String)>,
}

impl View for MapEnvironment {
    type V = Map<Seq<char>, Seq<char>>;

    closed spec fn view(&self) -> Map<Seq<char>, Seq<char>> {
        str_assoc_map(self.entries@)
    }
}

impl MapEnvironment {
    /// An empty environment.
    pub fn new() -> (r: Self)
        ensures
            r@ =~= Map::<Seq<char>, Seq<char>>::empty(),
    {
        MapEnvironment { entries: Vec::new() }
    }

    /// Bind a variable, replacing any earlier binding.
    pub fn insert(&mut self, key: String, value: String)
        ensures
            final(self)@ == old(self)@.insert(key@, value@),
    {
        let ghost orig = self.entries@;
        self.entries.push((key, value));
        proof {
            assert(self.entries@.drop_last() =~= orig);
        }
    }
}

impl Environment for MapEnvironment {
    open spec fn var_spec(&self, key: Seq<char>) -> Option<Seq<char>> {
        if self@.contains_key(key) {
            Some(self@[key])
        } else {
            None
        }
    }

    open spec fn var_ok(&self, key: Seq<char>) -> bool {
        true
    }

    fn var(&self, key: &str) -> (r: Result<Option<String>, EnvError>) {
        let mut i: usize = self.entries.len();
        proof {
            assert(self.entries@.subrange(0, self.entries@.len() as int) =~= self.entries@);
        }
        while i > 0
            invariant
                0 <= i <= self.entries@.len(),
                self@.contains_key(key@) <==> str_assoc_map(
                    self.entries@.subrange(0, i as int),
                ).contains_key(key@),
                self@.contains_key(key@) ==> self@[key@] == str_assoc_map(
                    self.entries@.subrange(0, i as int),
                )[key@],
            decreases i,
        {
            i = i - 1;
            proof {
                assert(self.entries@.subrange(0, i + 1).drop_last() =~= self.entries@.subrange(
                    0,
                    i as int,
                ));
                assert(self.entries@.subrange(0, i + 1).last() == self.entries@[i as int]);
            }
            if str_eq(self.entries[i].0.as_str(), key) {
                let value = self.entries[i].1.clone();
                return Ok(Some(value));
            }
        }
        proof {
            assert(self.entries@.subrange(0, 0) =~= Seq::<(String, String)>::empty());
        }
        Ok(None)
    }
}

} // verus!
