//! The shared state the two planes rendezvous on.
//!
//! `ServerTable` models the published mapping from slot index to backend
//! MAC together with its entry count; the synchronizer writes it, the
//! per-frame selector reads it. Each `get`/`set` call is independently
//! atomic in the real storage; no cross-call atomicity is assumed, so the
//! selector always bounds its index by the count it read and treats an
//! out-of-capacity index as a transient miss.
//!
//! `SharedState` bundles the table with the two read-only values published
//! at startup: the set of balanced ports and the host's own MAC.

use vstd::prelude::*;

verus! {

/// Bounded capacity of the published server table.
pub const SERVER_TABLE_CAPACITY: usize = 170;

/// Most entries the listening-port set will ever hold.
pub const LISTENING_PORTS_CAPACITY: usize = 512;

/// The published table of healthy-backend MACs plus its valid-entry count.
///
/// Positions at or beyond `count` are stale and must never be read by the
/// data plane; `count` is written strictly after the entries it covers.
pub struct ServerTable {
    pub entries: Vec<[u8; 6]>,
    pub count: u8,
}

impl ServerTable {
    /// The table always holds exactly its fixed capacity of slots.
    pub open spec fn wf(&self) -> bool {
        self.entries@.len() == SERVER_TABLE_CAPACITY
    }

    /// A fresh table: every slot zeroed, no valid entries.
    pub fn new() -> (t: ServerTable)
        ensures
            t.wf(),
            t.count == 0,
            forall|i: int, j: int|
                0 <= i < SERVER_TABLE_CAPACITY && 0 <= j < 6 ==> t.entries@[i]@[j] == 0u8,
    {
        let zero: [u8; 6] = [0u8; 6];
        let entries: Vec<[u8; 6]> = vec![zero; SERVER_TABLE_CAPACITY];
        ServerTable { entries, count: 0 }
    }

    /// Read one slot; `None` exactly when the index is out of capacity.
    pub fn get(&self, index: u32) -> (r: Option<[u8; 6]>)
        requires
            self.wf(),
        ensures
            index < SERVER_TABLE_CAPACITY ==> r == Some(self.entries@[index as int]),
            index >= SERVER_TABLE_CAPACITY ==> r is None,
    {
        if (index as usize) < SERVER_TABLE_CAPACITY {
            Some(self.entries[index as usize])
        } else {
            None
        }
    }

    /// Write one slot, leaving every other slot and the count untouched.
    pub fn set(&mut self, index: usize, mac: [u8; 6])
        requires
            old(self).wf(),
            index < SERVER_TABLE_CAPACITY,
        ensures
            final(self).wf(),
            final(self).entries@ == old(self).entries@.update(index as int, mac),
            final(self).count == old(self).count,
    {
        self.entries[index] = mac;
    }

    /// Publish the valid-entry count, after the entries it covers.
    pub fn set_count(&mut self, count: u8)
        ensures
            final(self).count == count,
            final(self).entries == old(self).entries,
    {
        self.count = count;
    }

    pub fn get_count(&self) -> (count: u8)
        ensures
            count == self.count,
    {
        self.count
    }
}

/// Everything the data plane reads: balanced ports, the published table,
/// and the host's own MAC (to break self-redirect loops).
pub struct SharedState {
    pub listening_ports: Vec<u16>,
    pub servers: ServerTable,
    pub host_mac_address: [u8; 6],
}

impl SharedState {
    pub open spec fn wf(&self) -> bool {
        &&& self.servers.wf()
        &&& self.listening_ports@.len() <= LISTENING_PORTS_CAPACITY
    }
}

/// True exactly when `port` is one of the balanced ports.
pub fn is_listening_port(ports: &Vec<u16>, port: u16) -> (r: bool)
    ensures
        r == ports@.contains(port),
{
    let mut i: usize = 0;
    while i < ports.len()
        invariant
            i <= ports@.len(),
            forall|j: int| 0 <= j < i ==> ports@[j] != port,
        decreases ports@.len() - i,
    {
        if ports[i] == port {
            return true;
        }
        i = i + 1;
    }
    false
}

} // verus!
