//! A plain key/value model of the layered configuration store that credential
//! discovery reads. Precedence across configuration layers is the store's own
//! affair: this model only records which value a key currently resolves to,
//! with a later `set_str` overriding an earlier one.
use vstd::prelude::*;

verus! {

/// A read-mostly string-to-string lookup table. `get_str` answers with the
/// most recently set value for a key, or nothing when the key was never set.
pub struct Config {
    entries: Vec<(String, String)>,
}

/// The value the entry list gives for `key`: the last matching entry wins.
pub open spec fn lookup(entries: Seq<(Seq<char>, Seq<char>)>, key: Seq<char>) -> Option<Seq<char>>
    decreases entries.len(),
{
    if entries.len() == 0 {
        None
    } else if entries.last().0 == key {
        Some(entries.last().1)
    } else {
        lookup(entries.drop_last(), key)
    }
}

impl Config {
    pub closed spec fn view(&self) -> Seq<(Seq<char>, Seq<char>)> {
        self.entries.deep_view()
    }

    /// What this store answers for `key`.
    pub open spec fn spec_get(&self, key: Seq<char>) -> Option<Seq<char>> {
        lookup(self@, key)
    }

    /// An empty store: every lookup misses.
    pub fn new() -> (ret: Config)
        ensures
            ret@ == Seq::<(Seq<char>, Seq<char>)>::empty(),
    {
        Config { entries: Vec::new() }
    }

    /// Record a value for a key, overriding any earlier value for it.
    pub fn set_str(&mut self, key: &str, value: &str)
        ensures
            final(self)@ == old(self)@.push((key@, value@)),
            forall|k: Seq<char>|
                final(self).spec_get(k) == (if k == key@ {
                    Some(value@)
                } else {
                    old(self).spec_get(k)
                }),
    {
        self.entries.push((key.to_owned(), value.to_owned()));
        proof {
            assert(self@ =~= old(self)@.push((key@, value@)));
            assert forall|k: Seq<char>|
                self.spec_get(k) == (if k == key@ {
                    Some(value@)
                } else {
                    old(self).spec_get(k)
                }) by {
                assert(self@.drop_last() =~= old(self)@);
            }
        }
    }

    /// Look a key up; answers the most recently set value, if any.
    pub fn get_str(&self, key: &str) -> (ret: Option<String>)
        ensures
            ret.deep_view() == self.spec_get(key@),
    {
        let owned_key: String = key.to_owned();
        let mut found: Option<String> = None;
        let n = self.entries.len();
        let mut i: usize = 0;
        while i < n
            invariant
                n == self.entries.len(),
                i <= n,
                owned_key@ == key@,
                found.deep_view() == lookup(self@.take(i as int), key@),
            decreases n - i,
        {
            proof {
                assert(self@[i as int] == self.entries@[i as int].deep_view());
                assert(self@[i as int].0 == self.entries@[i as int].0@);
                assert(self@[i as int].1 == self.entries@[i as int].1@);
                assert(owned_key@ == key@);
            }
            let hit = self.entries[i].0 == owned_key;
            proof {
                assert(hit == (self.entries@[i as int].0@ == key@));
            }
            if hit {
                found = Some(self.entries[i].1.clone());
                proof {
                    assert(found.deep_view() == Some(self.entries@[i as int].1@));
                }
            }
            proof {
                let longer = self@.take(i + 1);
                assert(longer.len() == i + 1);
                assert(longer.drop_last() =~= self@.take(i as int));
                assert(longer.last() == self@[i as int]);
                if hit {
                    assert(lookup(longer, key@) == Some(self@[i as int].1));
                } else {
                    assert(lookup(longer, key@) == lookup(self@.take(i as int), key@));
                }
            }
            i = i + 1;
        }
        proof {
            assert(self@.take(n as int) =~= self@);
        }
        found
    }
}

} // verus!
