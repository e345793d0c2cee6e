//! Which connection each timer belongs to, and which timers each connection has.

use std::collections::{HashMap, HashSet};
use vstd::prelude::*;

use crate::timer::event::ConnectionId;

verus! {

broadcast use vstd::std_specs::hash::group_hash_axioms;

/// The timers of each connection and the connection of each timer. The two
/// directions always agree, and a connection without timers is not listed.
pub struct ConnectionIndex {
    connection_timers: HashMap<ConnectionId, HashSet<u64>>,
    entry_to_connection: HashMap<u64, ConnectionId>,
}

impl View for ConnectionIndex {
    type V = Map<u64, ConnectionId>;

    closed spec fn view(&self) -> Map<u64, ConnectionId> {
        self.entry_to_connection@
    }
}

/// The timers of `connection`.
pub open spec fn entries_of(owners: Map<u64, ConnectionId>, connection: ConnectionId) -> Set<u64> {
    Set::new(|id: u64| owners.contains_key(id) && owners[id] == connection)
}

impl ConnectionIndex {
    pub closed spec fn wf(&self) -> bool {
        &&& forall|c: ConnectionId| #[trigger]
            self.connection_timers@.contains_key(c) ==> self.connection_timers@[c]@ == entries_of(
                self.entry_to_connection@,
                c,
            ) && self.connection_timers@[c]@ != Set::<u64>::empty()
        &&& forall|id: u64| #[trigger]
            self.entry_to_connection@.contains_key(id) ==> self.connection_timers@.contains_key(
                self.entry_to_connection@[id],
            )
    }

    pub fn new() -> (index: Self)
        ensures
            index.wf(),
            index@ == Map::<u64, ConnectionId>::empty(),
    {
        ConnectionIndex { connection_timers: HashMap::new(), entry_to_connection: HashMap::new() }
    }

    /// Lets the timer `id` belong to `connection`.
    pub fn link(&mut self, id: u64, connection: ConnectionId)
        requires
            old(self).wf(),
            !old(self)@.contains_key(id),
        ensures
            final(self).wf(),
            final(self)@ == old(self)@.insert(id, connection),
    {
        let mut entries: HashSet<u64> = match self.connection_timers.remove(&connection) {
            Some(entries) => entries,
            None => HashSet::new(),
        };
        assert(entries@ =~= entries_of(self.entry_to_connection@, connection));
        entries.insert(id);
        assert(entries@.contains(id));
        self.connection_timers.insert(connection, entries);
        self.entry_to_connection.insert(id, connection);
        proof {
            assert forall|c: ConnectionId| #[trigger]
                self.connection_timers@.contains_key(c) implies self.connection_timers@[c]@
                == entries_of(self.entry_to_connection@, c) by {
                if c == connection {
                    assert(self.connection_timers@[c]@ =~= entries_of(
                        self.entry_to_connection@,
                        c,
                    ));
                } else {
                    assert(old(self).connection_timers@.contains_key(c));
                    assert(entries_of(self.entry_to_connection@, c) =~= entries_of(
                        old(self).entry_to_connection@,
                        c,
                    ));
                }
            }
        }
    }

    /// Forgets the timer `id`, and says which connection it belonged to.
    pub fn unlink(&mut self, id: u64) -> (connection: Option<ConnectionId>)
        requires
            old(self).wf(),
        ensures
            final(self).wf(),
            final(self)@ == old(self)@.remove(id),
            connection == (if old(self)@.contains_key(id) {
                Some(old(self)@[id])
            } else {
                None
            }),
    {
        match self.entry_to_connection.remove(&id) {
            None => {
                assert(self.entry_to_connection@ =~= old(self).entry_to_connection@);
                None
            },
            Some(connection) => {
                let ghost owners = self.entry_to_connection@;
                if let Some(mut entries) = self.connection_timers.remove(&connection) {
                    entries.remove(&id);
                    assert(entries@ =~= entries_of(owners, connection));
                    if !entries.is_empty() {
                        self.connection_timers.insert(connection, entries);
                    } else {
                        assert(entries@ =~= Set::<u64>::empty());
                    }
                }
                proof {
                    assert forall|c: ConnectionId| #[trigger]
                        self.connection_timers@.contains_key(c) implies self.connection_timers@[c]@
                        == entries_of(owners, c) by {
                        if c != connection {
                            assert(entries_of(owners, c) =~= entries_of(
                                old(self).entry_to_connection@,
                                c,
                            ));
                        }
                    }
                    assert forall|other: u64| #[trigger]
                        owners.contains_key(other) implies self.connection_timers@.contains_key(
                        owners[other],
                    ) by {
                        if owners[other] == connection {
                            assert(entries_of(owners, connection).contains(other));
                        }
                    }
                }
                Some(connection)
            },
        }
    }

    /// The timers of `connection`, each once.
    pub fn entries(&self, connection: ConnectionId) -> (ids: Vec<u64>)
        requires
            self.wf(),
        ensures
            ids@.no_duplicates(),
            ids@.to_set() == entries_of(self@, connection),
    {
        let mut ids: Vec<u64> = Vec::new();
        match self.connection_timers.get(&connection) {
            Some(entries) => {
                crate::collections::set_elements(entries)
            },
            None => {
                assert(ids@.to_set() =~= entries_of(self@, connection));
                ids
            },
        }
    }

    /// The number of connections that have a timer.
    pub fn connection_count(&self) -> (n: usize)
        requires
            self.wf(),
        ensures
            n == self@.values().len(),
    {
        proof {
            assert(self.connection_timers@.dom() =~= self@.values()) by {
                assert forall|c: ConnectionId| self@.values().contains(c) implies #[trigger] self.connection_timers@.contains_key(
                c) by {
                    let id = choose|id: u64| self@.contains_key(id) && self@[id] == c;
                    assert(self.entry_to_connection@.contains_key(id));
                }
                assert forall|c: ConnectionId| #[trigger] self.connection_timers@.contains_key(
                    c,
                ) implies self@.values().contains(c) by {
                    let entries = self.connection_timers@[c]@;
                    assert(exists|id: u64| entries.contains(id)) by {
                        if !(exists|id: u64| entries.contains(id)) {
                            assert(entries =~= Set::<u64>::empty());
                        }
                    }
                    let id = choose|id: u64| entries.contains(id);
                    assert(self@.contains_key(id) && self@[id] == c);
                }
            }
        }
        self.connection_timers.len()
    }
}

} // verus!
