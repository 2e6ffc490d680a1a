//! The service configuration: the service identity secret, the issued
//! capability URIs by name, and the payment-node connection material.
//! Loading and storing the file is the caller's side; the structure and
//! the rules on the URI table live here.

use vstd::prelude::*;

verus! {

pub struct NostrConfig {
    pub secret: String,
}

pub struct LndConfig {
    pub uri: String,
    pub cert_file: String,
    pub macaroon_file: String,
}

/// The issued capability URIs, by client name; names are unique.
pub struct UriMap {
    entries: Vec<(String, String)>,
}

pub struct Config {
    pub nostr: NostrConfig,
    pub uris: UriMap,
    pub lnd: LndConfig,
}

pub open spec fn uris_view(entries: Seq<(String, String)>) -> Seq<(Seq<char>, Seq<char>)> {
    Seq::new(
        entries.len(),
        |i: int|
            if 0 <= i < entries.len() {
                (entries[i].0@, entries[i].1@)
            } else {
                (Seq::empty(), Seq::empty())
            },
    )
}

pub open spec fn has_name(m: Seq<(Seq<char>, Seq<char>)>, name: Seq<char>) -> bool {
    exists|i: int| 0 <= i < m.len() && #[trigger] m[i].0 == name
}

impl View for UriMap {
    type V = Seq<(Seq<char>, Seq<char>)>;

    closed spec fn view(&self) -> Seq<(Seq<char>, Seq<char>)> {
        uris_view(self.entries@)
    }
}

impl UriMap {
    /// Names never repeat: the table behaves as a map.
    pub open spec fn wf(&self) -> bool {
        forall|i: int, j: int| 0 <= i < j < self@.len() ==> self@[i].0 != self@[j].0
    }

    pub fn new() -> (r: UriMap)
        ensures
            r@.len() == 0,
            r.wf(),
    {
        let r = UriMap { entries: Vec::new() };
        proof {
            assert(r@ =~= Seq::<(Seq<char>, Seq<char>)>::empty());
        }
        r
    }

    pub fn len(&self) -> (r: usize)
        ensures
            r == self@.len(),
    {
        self.entries.len()
    }

    pub fn entry_at(&self, i: usize) -> (r: (&String, &String))
        requires
            i < self@.len(),
        ensures
            r.0@ == self@[i as int].0,
            r.1@ == self@[i as int].1,
    {
        (&self.entries[i].0, &self.entries[i].1)
    }

    pub fn contains_name(&self, name: &str) -> (r: bool)
        ensures
            r == has_name(self@, name@),
    {
        let mut i: usize = 0;
        while i < self.entries.len()
            invariant
                i <= self.entries@.len(),
                forall|j: int| 0 <= j < i ==> uris_view(self.entries@)[j].0 != name@,
            decreases self.entries@.len() - i,
        {
            if crate::strops::str_eq_str(self.entries[i].0.as_str(), name) {
                proof {
                    assert(uris_view(self.entries@)[i as int].0 == name@);
                }
                return true;
            }
            i = i + 1;
        }
        false
    }

    /// Adds a new name; refused exactly when the name is already taken.
    pub fn insert(&mut self, name: String, uri: String) -> (r: Result<(), ()>)
        requires
            old(self).wf(),
        ensures
            final(self).wf(),
            r is Ok <==> !has_name(old(self)@, name@),
            r is Ok ==> final(self)@ == old(self)@.push((name@, uri@)),
            r is Err ==> final(self)@ == old(self)@,
    {
        if self.contains_name(name.as_str()) {
            return Err(());
        }
        let ghost before = self@;
        self.entries.push((name, uri));
        proof {
            assert(self@ =~= before.push((name@, uri@)));
            assert forall|a: int, b: int| 0 <= a < b < self@.len() implies self@[a].0
                != self@[b].0 by {
                if b == self@.len() - 1 {
                    assert(self@[a] == before[a]);
                }
            }
        }
        Ok(())
    }

    /// Removes a name; refused exactly when the name is absent.
    pub fn remove(&mut self, name: &str) -> (r: Result<(), ()>)
        requires
            old(self).wf(),
        ensures
            final(self).wf(),
            r is Ok <==> has_name(old(self)@, name@),
            r is Err ==> final(self)@ == old(self)@,
            r is Ok ==> final(self)@.len() == old(self)@.len() - 1 && !has_name(
                final(self)@,
                name@,
            ) && forall|k: Seq<char>|
                k != name@ ==> (has_name(final(self)@, k) <==> has_name(old(self)@, k)),
    {
        let mut i: usize = 0;
        while i < self.entries.len()
            invariant
                i <= self.entries@.len(),
                old(self).wf(),
                self@ == old(self)@,
                self.entries@ == old(self).entries_spec(),
                forall|j: int| 0 <= j < i ==> uris_view(self.entries@)[j].0 != name@,
            decreases self.entries@.len() - i,
        {
            if crate::strops::str_eq_str(self.entries[i].0.as_str(), name) {
                let ghost before = self@;
                proof {
                    assert(uris_view(self.entries@)[i as int].0 == name@);
                }
                self.entries.remove(i);
                proof {
                    assert(self@ =~= before.remove(i as int));
                    assert(!has_name(self@, name@)) by {
                        assert forall|j: int| 0 <= j < self@.len() implies self@[j].0 != name@ by {
                            if j < i {
                                assert(self@[j] == before[j]);
                            } else {
                                assert(self@[j] == before[j + 1]);
                                assert(before[i as int].0 == name@);
                            }
                        }
                    }
                    assert forall|k: Seq<char>|
                        k != name@ && has_name(before, k) implies has_name(self@, k) by {
                        let w = choose|w: int| 0 <= w < before.len() && before[w].0 == k;
                        if w < i {
                            assert(self@[w].0 == k);
                        } else {
                            assert(w != i);
                            assert(self@[w - 1].0 == k);
                        }
                    }
                    assert forall|k: Seq<char>|
                        k != name@ && has_name(self@, k) implies has_name(before, k) by {
                        let w = choose|w: int| 0 <= w < self@.len() && self@[w].0 == k;
                        if w < i {
                            assert(before[w].0 == k);
                        } else {
                            assert(before[w + 1].0 == k);
                        }
                    }
                    assert forall|a: int, b: int| 0 <= a < b < self@.len() implies self@[a].0
                        != self@[b].0 by {
                        let a2: int = if a < i { a } else { a + 1 };
                        let b2: int = if b < i { b } else { b + 1 };
                        assert(self@[a] == before[a2]);
                        assert(self@[b] == before[b2]);
                    }
                }
                return Ok(());
            }
            i = i + 1;
        }
        Err(())
    }

    pub closed spec fn entries_spec(&self) -> Seq<(String, String)> {
        self.entries@
    }
}

} // verus!
