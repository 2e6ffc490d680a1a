//! The session registry: the one mapping from an active subscription
//! handle to the wallet session that owns it. Built once after
//! subscribing, read-only afterwards; every inbound event is routed
//! through `lookup`.

use vstd::prelude::*;

use crate::session::{SessionV, WalletSession};

verus! {

pub struct SessionRegistry {
    entries: Vec<(String, WalletSession)>,
}

/// Handle-to-session pairs, in subscription order.
pub open spec fn registry_view(entries: Seq<(String, WalletSession)>) -> Seq<(Seq<char>, SessionV)> {
    Seq::new(
        entries.len(),
        |i: int|
            if 0 <= i < entries.len() {
                (entries[i].0@, entries[i].1@)
            } else {
                (Seq::empty(), arbitrary())
            },
    )
}

/// The first entry whose handle matches, if any: the owning session of
/// an inbound event.
pub open spec fn lookup_of(reg: Seq<(Seq<char>, SessionV)>, handle: Seq<char>) -> Option<int> {
    if exists|i: int| 0 <= i < reg.len() && reg[i].0 == handle {
        Option::Some(
            choose|i: int|
                0 <= i < reg.len() && reg[i].0 == handle && forall|j: int|
                    0 <= j < i ==> reg[j].0 != handle,
        )
    } else {
        Option::None
    }
}

impl View for SessionRegistry {
    type V = Seq<(Seq<char>, SessionV)>;

    closed spec fn view(&self) -> Seq<(Seq<char>, SessionV)> {
        registry_view(self.entries@)
    }
}

impl SessionRegistry {
    /// Builds the registry from the subscriptions that succeeded.
    pub fn new(entries: Vec<(String, WalletSession)>) -> (r: SessionRegistry)
        ensures
            r@ == registry_view(entries@),
    {
        SessionRegistry { entries }
    }

    pub fn len(&self) -> (r: usize)
        ensures
            r == self@.len(),
    {
        self.entries.len()
    }

    pub fn session_at(&self, i: usize) -> (r: &WalletSession)
        requires
            i < self@.len(),
        ensures
            r@ == self@[i as int].1,
    {
        &self.entries[i].1
    }

    /// Finds the session owning a subscription handle: the first match,
    /// or nothing when the event belongs to no session.
    pub fn lookup(&self, handle: &str) -> (r: Option<usize>)
        ensures
            match r {
                Some(i) => lookup_of(self@, handle@) == Option::Some(i as int) && i < self@.len()
                    && self@[i as int].0 == handle@,
                None => lookup_of(self@, handle@) is None,
            },
    {
        let mut i: usize = 0;
        while i < self.entries.len()
            invariant
                i <= self.entries@.len(),
                forall|j: int| 0 <= j < i ==> registry_view(self.entries@)[j].0 != handle@,
            decreases self.entries@.len() - i,
        {
            if crate::strops::str_eq_str(self.entries[i].0.as_str(), handle) {
                proof {
                    let reg = registry_view(self.entries@);
                    assert(reg[i as int].0 == handle@);
                    let w = choose|k: int|
                        0 <= k < reg.len() && reg[k].0 == handle@ && forall|j: int|
                            0 <= j < k ==> reg[j].0 != handle@;
                    assert(lookup_of(reg, handle@) == Option::Some(w));
                    assert(w == i as int) by {
                        if w < i {
                            assert(reg[w].0 != handle@);
                        }
                        if w > i {
                            assert(reg[i as int].0 != handle@);
                        }
                    }
                }
                return Some(i);
            }
            i = i + 1;
        }
        proof {
            let reg = registry_view(self.entries@);
            assert forall|k: int| 0 <= k < reg.len() implies reg[k].0 != handle@ by {}
        }
        None
    }
}

} // verus!
