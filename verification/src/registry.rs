//! The table of active tailing sessions.
//!
//! Each endpoint holds at most one session. A tail loop asks the table on
//! every poll cycle whether its endpoint is still listed; removing the entry
//! is how a loop is told to stop.

use vstd::prelude::*;
use crate::endpoint::Endpoint;

verus! {

struct Entry {
    endpoint: Endpoint,
    path: String,
}

/// Maps each endpoint with an active session to the remote path being
/// followed there.
pub struct SessionRegistry {
    entries: Vec<Entry>,
    table: Ghost<Map<(Seq<char>, u16), Seq<char>>>,
}

impl View for SessionRegistry {
    type V = Map<(Seq<char>, u16), Seq<char>>;

    closed spec fn view(&self) -> Map<(Seq<char>, u16), Seq<char>> {
        self.table@
    }
}

impl SessionRegistry {
    /// No endpoint is listed twice, and the view lists exactly the stored
    /// entries.
    pub closed spec fn well_formed(&self) -> bool {
        &&& forall|i: int, j: int|
            0 <= i < j < self.entries@.len() ==> self.entries@[i].endpoint@
                != self.entries@[j].endpoint@
        &&& forall|i: int|
            0 <= i < self.entries@.len() ==> self.table@.contains_pair(
                #[trigger] self.entries@[i].endpoint@,
                self.entries@[i].path@,
            )
        &&& forall|k: (Seq<char>, u16)| #[trigger]
            self.table@.contains_key(k) ==> exists|i: int|
                0 <= i < self.entries@.len() && #[trigger] self.entries@[i].endpoint@ == k
    }

    /// An empty registry.
    pub fn new() -> (r: SessionRegistry)
        ensures
            r.well_formed(),
            r@ == Map::<(Seq<char>, u16), Seq<char>>::empty(),
    {
        SessionRegistry { entries: Vec::new(), table: Ghost(Map::empty()) }
    }

    fn find(&self, endpoint: &Endpoint) -> (at: Option<usize>)
        requires
            self.well_formed(),
        ensures
            at is Some <==> self@.contains_key(endpoint@),
            at matches Some(i) ==> i < self.entries@.len() && self.entries@[i as int].endpoint@
                == endpoint@,
    {
        let mut i: usize = 0;
        while i < self.entries.len()
            invariant
                self.well_formed(),
                i <= self.entries@.len(),
                forall|j: int| 0 <= j < i ==> self.entries@[j].endpoint@ != endpoint@,
            decreases self.entries@.len() - i,
        {
            if self.entries[i].endpoint.same_as(endpoint) {
                return Some(i);
            }
            i += 1;
        }
        None
    }

    /// Whether a session is listed for `endpoint`. This is the cancellation
    /// check of a running tail loop.
    pub fn is_active(&self, endpoint: &Endpoint) -> (active: bool)
        requires
            self.well_formed(),
        ensures
            active == self@.contains_key(endpoint@),
    {
        self.find(endpoint).is_some()
    }

    /// The path followed at `endpoint`, if a session is listed there.
    pub fn active_path(&self, endpoint: &Endpoint) -> (path: Option<String>)
        requires
            self.well_formed(),
        ensures
            path.deep_view() == self@.get(endpoint@),
    {
        match self.find(endpoint) {
            Some(i) => Some(self.entries[i].path.clone()),
            None => None,
        }
    }

    /// The number of listed sessions.
    pub fn len(&self) -> (n: usize)
        requires
            self.well_formed(),
        ensures
            self@.dom().finite(),
            n == self@.len(),
    {
        proof {
            self.lemma_size();
        }
        self.entries.len()
    }

    /// Lists `path` under `endpoint`. A session already listed there is
    /// evicted and its path returned.
    pub fn try_register(&mut self, endpoint: Endpoint, path: String) -> (previous: Option<String>)
        requires
            old(self).well_formed(),
        ensures
            final(self).well_formed(),
            final(self)@ == old(self)@.insert(endpoint@, path@),
            previous.deep_view() == old(self)@.get(endpoint@),
    {
        let previous = self.unregister(&endpoint);
        let ghost key = endpoint@;
        let ghost shown = path@;
        let ghost kept = self.entries@;
        let ghost listed = self.table@;
        self.entries.push(Entry { endpoint, path });
        self.table = Ghost(self.table@.insert(key, shown));
        proof {
            let n = kept.len() as int;
            assert(self.entries@[n].endpoint@ == key);
            assert forall|i: int| 0 <= i < n implies self.entries@[i] == kept[i] by {}
            assert forall|i: int| 0 <= i < n implies self.entries@[i].endpoint@ != key by {
                assert(listed.contains_pair(kept[i].endpoint@, kept[i].path@));
            }
            assert forall|i: int| 0 <= i < self.entries@.len() implies self.table@.contains_pair(
                #[trigger] self.entries@[i].endpoint@,
                self.entries@[i].path@,
            ) by {
                if i < n {
                    assert(listed.contains_pair(kept[i].endpoint@, kept[i].path@));
                }
            }
            assert forall|k: (Seq<char>, u16)| #[trigger]
                self.table@.contains_key(k) implies exists|i: int|
                0 <= i < self.entries@.len() && #[trigger] self.entries@[i].endpoint@ == k by {
                if k != key {
                    assert(listed.contains_key(k));
                    let i = choose|i: int| 0 <= i < n && #[trigger] kept[i].endpoint@ == k;
                    assert(self.entries@[i].endpoint@ == k);
                }
            }
            assert(old(self)@.remove(key).insert(key, shown) =~= old(self)@.insert(key, shown));
        }
        previous
    }

    fn remove_at(&mut self, at: usize) -> (entry: Entry)
        requires
            old(self).well_formed(),
            at < old(self).entries@.len(),
        ensures
            final(self).well_formed(),
            entry == old(self).entries@[at as int],
            final(self).entries@ == old(self).entries@.remove(at as int),
            final(self).table@ == old(self).table@.remove(old(self).entries@[at as int].endpoint@),
    {
        let ghost before = self.entries@;
        let ghost key = before[at as int].endpoint@;
        let entry = self.entries.remove(at);
        self.table = Ghost(self.table@.remove(key));
        proof {
            assert forall|j: int| 0 <= j < self.entries@.len() implies self.table@.contains_pair(
                #[trigger] self.entries@[j].endpoint@,
                self.entries@[j].path@,
            ) by {
                let from = if j < at { j } else { j + 1 };
                assert(self.entries@[j] == before[from]);
                assert(old(self).table@.contains_pair(before[from].endpoint@, before[from].path@));
            }
            assert forall|k: (Seq<char>, u16)| #[trigger]
                self.table@.contains_key(k) implies exists|j: int|
                0 <= j < self.entries@.len() && #[trigger] self.entries@[j].endpoint@ == k by {
                let from = choose|j: int|
                    0 <= j < before.len() && #[trigger] before[j].endpoint@ == k;
                let j = if from < at { from } else { from - 1 };
                assert(self.entries@[j] == before[from]);
            }
        }
        entry
    }

    /// Removes the session listed for `endpoint` and returns its path.
    /// Removing an endpoint that is not listed changes nothing.
    pub fn unregister(&mut self, endpoint: &Endpoint) -> (removed: Option<String>)
        requires
            old(self).well_formed(),
        ensures
            final(self).well_formed(),
            final(self)@ == old(self)@.remove(endpoint@),
            removed.deep_view() == old(self)@.get(endpoint@),
    {
        match self.find(endpoint) {
            Some(i) => {
                proof {
                    assert(self.table@.contains_pair(
                        self.entries@[i as int].endpoint@,
                        self.entries@[i as int].path@,
                    ));
                }
                let entry = self.remove_at(i);
                Some(entry.path)
            },
            None => {
                proof {
                    assert(old(self)@.remove(endpoint@) =~= old(self)@);
                }
                None
            },
        }
    }

    /// Whether the session listed for `endpoint` is the one that follows
    /// `path`. A session that was evicted by a later one at its endpoint is
    /// no longer listed.
    pub fn follows(&self, endpoint: &Endpoint, path: &String) -> (listed: bool)
        requires
            self.well_formed(),
        ensures
            listed == self@.contains_pair(endpoint@, path@),
    {
        match self.find(endpoint) {
            Some(i) => {
                proof {
                    assert(self.table@.contains_pair(
                        self.entries@[i as int].endpoint@,
                        self.entries@[i as int].path@,
                    ));
                }
                self.entries[i].path == *path
            },
            None => false,
        }
    }

    /// Removes the session listed for `endpoint` if it is the one that
    /// follows `path`, and says whether it did. The entry of another
    /// session at the endpoint is left alone.
    pub fn release(&mut self, endpoint: &Endpoint, path: &String) -> (released: bool)
        requires
            old(self).well_formed(),
        ensures
            final(self).well_formed(),
            released == old(self)@.contains_pair(endpoint@, path@),
            final(self)@ == released_from(old(self)@, endpoint@, path@),
    {
        if self.follows(endpoint, path) {
            let _ = self.unregister(endpoint);
            true
        } else {
            false
        }
    }

    /// Removes every session that follows `path`, at whatever endpoint, and
    /// says whether there was one.
    pub fn unregister_path(&mut self, path: &String) -> (found: bool)
        requires
            old(self).well_formed(),
        ensures
            final(self).well_formed(),
            found == is_followed(old(self)@, path@),
            final(self)@ == without_path(old(self)@, path@),
    {
        let ghost before = self.table@;
        let mut found = false;
        let mut i: usize = 0;
        while i < self.entries.len()
            invariant
                self.well_formed(),
                i <= self.entries@.len(),
                forall|k: (Seq<char>, u16)| #[trigger]
                    self.table@.contains_key(k) ==> before.contains_pair(k, self.table@[k]),
                forall|k: (Seq<char>, u16)|
                    before.contains_key(k) && before[k] != path@ ==> #[trigger] self.table@.contains_key(
                        k,
                    ),
                forall|j: int| 0 <= j < i ==> (#[trigger] self.entries@[j]).path@ != path@,
                found ==> is_followed(before, path@),
                !found ==> self.table@ == before,
            decreases self.entries@.len() - i,
        {
            proof {
                assert(self.table@.contains_pair(
                    self.entries@[i as int].endpoint@,
                    self.entries@[i as int].path@,
                ));
            }
            if self.entries[i].path == *path {
                let ghost key = self.entries@[i as int].endpoint@;
                assert(before.contains_pair(key, path@));
                let _ = self.remove_at(i);
                found = true;
            } else {
                i += 1;
            }
        }
        proof {
            assert forall|k: (Seq<char>, u16)| #[trigger] self.table@.contains_key(k) implies self.table@[k]
                != path@ by {
                let j = choose|j: int|
                    0 <= j < self.entries@.len() && #[trigger] self.entries@[j].endpoint@ == k;
                assert(self.table@.contains_pair(self.entries@[j].endpoint@, self.entries@[j].path@));
            }
            assert(self.table@ =~= without_path(before, path@));
            if !found && is_followed(before, path@) {
                let k = choose|k: (Seq<char>, u16)| #[trigger] before.contains_pair(k, path@);
                assert(self.table@.contains_key(k));
            }
        }
        found
    }

    proof fn lemma_size(&self)
        requires
            self.well_formed(),
        ensures
            self@.dom().finite(),
            self@.len() == self.entries@.len(),
    {
        lemma_table_size(self.entries@, self.table@);
    }
}

/// The table once the session that follows `path` at `endpoint` has let go
/// of its entry: without the entry if it is that session's, else as it was.
pub open spec fn released_from(
    listed: Map<(Seq<char>, u16), Seq<char>>,
    endpoint: (Seq<char>, u16),
    path: Seq<char>,
) -> Map<(Seq<char>, u16), Seq<char>> {
    if listed.contains_pair(endpoint, path) {
        listed.remove(endpoint)
    } else {
        listed
    }
}

/// Whether some session follows `path`.
pub open spec fn is_followed(listed: Map<(Seq<char>, u16), Seq<char>>, path: Seq<char>) -> bool {
    exists|endpoint: (Seq<char>, u16)| #[trigger] listed.contains_pair(endpoint, path)
}

/// The table without the sessions that follow `path`.
pub open spec fn without_path(listed: Map<(Seq<char>, u16), Seq<char>>, path: Seq<char>) -> Map<
    (Seq<char>, u16),
    Seq<char>,
> {
    Map::new(
        |endpoint: (Seq<char>, u16)| listed.contains_key(endpoint) && listed[endpoint] != path,
        |endpoint: (Seq<char>, u16)| listed[endpoint],
    )
}

/// Read-your-write: right after an endpoint is listed it is active, and
/// right after it is removed it is not, whatever the table held before.
pub proof fn lemma_read_your_write(
    listed: Map<(Seq<char>, u16), Seq<char>>,
    endpoint: (Seq<char>, u16),
    path: Seq<char>,
)
    ensures
        listed.insert(endpoint, path).contains_key(endpoint),
        listed.insert(endpoint, path)[endpoint] == path,
        !listed.remove(endpoint).contains_key(endpoint),
{
}

/// One session per endpoint: listing a second path under an endpoint that
/// already holds one evicts the first, which is what `try_register` hands
/// back, and the table keeps a single entry for the endpoint, so its size
/// does not change. Other endpoints are left alone.
pub proof fn lemma_single_session_per_endpoint(
    listed: Map<(Seq<char>, u16), Seq<char>>,
    endpoint: (Seq<char>, u16),
    prior: Seq<char>,
    path: Seq<char>,
)
    requires
        listed.dom().finite(),
        listed.contains_pair(endpoint, prior),
    ensures
        listed.get(endpoint) == Some(prior),
        listed.insert(endpoint, path).get(endpoint) == Some(path),
        listed.insert(endpoint, path).len() == listed.len(),
        forall|other: (Seq<char>, u16)|
            other != endpoint ==> listed.insert(endpoint, path).get(other) == listed.get(other),
{
    assert(listed.insert(endpoint, path).dom() =~= listed.dom());
}

proof fn lemma_table_size(entries: Seq<Entry>, table: Map<(Seq<char>, u16), Seq<char>>)
    requires
        forall|i: int, j: int|
            0 <= i < j < entries.len() ==> entries[i].endpoint@ != entries[j].endpoint@,
        forall|i: int|
            0 <= i < entries.len() ==> table.contains_key(#[trigger] entries[i].endpoint@),
        forall|k: (Seq<char>, u16)| #[trigger]
            table.contains_key(k) ==> exists|i: int|
                0 <= i < entries.len() && #[trigger] entries[i].endpoint@ == k,
    ensures
        table.dom().finite(),
        table.len() == entries.len(),
    decreases entries.len(),
{
    if entries.len() == 0 {
        assert(table.dom() =~= Set::<(Seq<char>, u16)>::empty());
    } else {
        let last = entries.last().endpoint@;
        let rest = table.remove(last);
        let front = entries.drop_last();
        assert forall|i: int| 0 <= i < front.len() implies rest.contains_key(
            #[trigger] front[i].endpoint@,
        ) by {
            assert(front[i] == entries[i]);
        }
        assert forall|k: (Seq<char>, u16)| #[trigger] rest.contains_key(k) implies exists|i: int|
            0 <= i < front.len() && #[trigger] front[i].endpoint@ == k by {
            let i = choose|i: int| 0 <= i < entries.len() && #[trigger] entries[i].endpoint@ == k;
            assert(front[i] == entries[i]);
        }
        lemma_table_size(front, rest);
        assert(table.contains_key(entries[entries.len() - 1].endpoint@));
        assert(table.dom() =~= rest.dom().insert(last));
    }
}

} // verus!
