//! The control plane: one monitoring cycle and table synchronization.
//!
//! Once per interval the surrounding loop probes every configured server
//! (one attempt each) and hands the outcomes here. `run_cycle` applies the
//! health state machine to every server and republishes the shared table
//! only if at least one state flipped; two consecutive cycles with
//! identical reachability therefore produce zero table writes.
//!
//! `synchronize` republishes the healthy set: healthy MACs are written
//! compacted, in original configuration order, and the count strictly
//! after the entries it covers.

use vstd::prelude::*;
use crate::packet::{select_action, spec_hash_key, spec_lookup, Action, FlowTuple};
use crate::server::{Server, ServerState};
use crate::shared::{ServerTable, SharedState, SERVER_TABLE_CAPACITY};

verus! {

/// The MACs of the healthy servers, in configuration order, compacted.
pub open spec fn healthy_macs(servers: Seq<Server>) -> Seq<[u8; 6]>
    decreases servers.len(),
{
    if servers.len() == 0 {
        Seq::empty()
    } else {
        let rest = healthy_macs(servers.drop_last());
        if servers.last().spec_healthy() {
            rest.push(servers.last().mac_address)
        } else {
            rest
        }
    }
}

/// There are never more healthy MACs than servers.
pub proof fn lemma_healthy_macs_len(servers: Seq<Server>)
    ensures
        healthy_macs(servers).len() <= servers.len(),
    decreases servers.len(),
{
    if servers.len() > 0 {
        lemma_healthy_macs_len(servers.drop_last());
    }
}

/// The healthy set is sound and complete: every published slot carries the
/// MAC of some healthy server, and every healthy server's MAC is published.
pub proof fn lemma_healthy_macs_members(servers: Seq<Server>)
    ensures
        forall|j: int|
            0 <= j < healthy_macs(servers).len() ==> exists|i: int|
                0 <= i < servers.len() && servers[i].spec_healthy() && servers[i].mac_address == #[trigger] healthy_macs(
                    servers,
                )[j],
        forall|i: int|
            0 <= i < servers.len() && #[trigger] servers[i].spec_healthy() ==> healthy_macs(
                servers,
            ).contains(servers[i].mac_address),
    decreases servers.len(),
{
    if servers.len() > 0 {
        lemma_healthy_macs_members(servers.drop_last());
        assert forall|i: int|
            0 <= i < servers.len() && servers[i].spec_healthy() implies healthy_macs(
            servers,
        ).contains(servers[i].mac_address) by {
            if i < servers.len() - 1 {
                assert(servers.drop_last()[i] == servers[i]);
                let j = choose|j: int|
                    0 <= j < healthy_macs(servers.drop_last()).len() && healthy_macs(
                        servers.drop_last(),
                    )[j] == servers[i].mac_address;
                assert(healthy_macs(servers)[j] == servers[i].mac_address);
            } else {
                let n = healthy_macs(servers).len();
                assert(healthy_macs(servers)[n - 1] == servers[i].mac_address);
            }
        }
        let rest = healthy_macs(servers.drop_last());
        assert forall|j: int| 0 <= j < healthy_macs(servers).len() implies exists|i: int|
            0 <= i < servers.len() && servers[i].spec_healthy() && servers[i].mac_address == #[trigger] healthy_macs(
                servers,
            )[j] by {
            if j < rest.len() {
                assert(healthy_macs(servers)[j] == rest[j]);
                let i = choose|i: int|
                    0 <= i < servers.drop_last().len() && servers.drop_last()[i].spec_healthy()
                        && servers.drop_last()[i].mac_address == rest[j];
                assert(servers.drop_last()[i] == servers[i]);
                assert(servers[i].spec_healthy() && servers[i].mac_address == healthy_macs(
                    servers,
                )[j]);
            } else {
                let i = servers.len() - 1;
                assert(servers[i].spec_healthy() && servers[i].mac_address == healthy_macs(
                    servers,
                )[j]);
            }
        }
    }
}

/// The table has been synchronized against this server list: the count is
/// the number of healthy servers, and the slots below it carry their MACs
/// in configuration order with no gap and no unhealthy entry.
pub open spec fn synced(table: ServerTable, servers: Seq<Server>) -> bool {
    &&& table.count as int == healthy_macs(servers).len()
    &&& forall|i: int| 0 <= i < table.count as int ==> table.entries@[i] == healthy_macs(servers)[i]
}

/// Republish the healthy set into the shared table: one pass over the
/// servers in configuration order, each healthy MAC into the next free
/// slot, and the final count written strictly after all the entries.
pub fn synchronize(servers: &Vec<Server>, table: &mut ServerTable)
    requires
        old(table).wf(),
        servers@.len() <= SERVER_TABLE_CAPACITY,
    ensures
        final(table).wf(),
        synced(*final(table), servers@),
{
    let mut idx: usize = 0;
    let mut i: usize = 0;
    while i < servers.len()
        invariant
            i <= servers@.len(),
            servers@.len() <= SERVER_TABLE_CAPACITY,
            table.wf(),
            idx as int == healthy_macs(servers@.take(i as int)).len(),
            idx <= i,
            forall|j: int|
                0 <= j < idx as int ==> table.entries@[j] == healthy_macs(
                    servers@.take(i as int),
                )[j],
        decreases servers@.len() - i,
    {
        proof {
            assert(servers@.take(i as int + 1).drop_last() =~= servers@.take(i as int));
            assert(servers@.take(i as int + 1).last() == servers@[i as int]);
        }
        if servers[i].is_healthy() {
            table.set(idx, servers[i].get_mac_address());
            idx = idx + 1;
        }
        i = i + 1;
    }
    proof {
        assert(servers@.take(i as int) =~= servers@);
        lemma_healthy_macs_len(servers@);
    }
    table.set_count(idx as u8);
}

/// The health states every server will hold after a cycle whose probe
/// outcomes were `reachable`: identity kept, state equal to the outcome.
pub open spec fn cycle_states(servers: Seq<Server>, reachable: Seq<bool>) -> Seq<Server> {
    Seq::new(
        servers.len(),
        |i: int|
            Server {
                mac_address: servers[i].mac_address,
                ip_address: servers[i].ip_address,
                state: if reachable[i] {
                    ServerState::Healthy
                } else {
                    ServerState::Unhealthy
                },
            },
    )
}

/// True when at least one server's probe outcome disagreed with its state,
/// i.e. when this cycle flips some server and the table must be rewritten.
pub open spec fn any_change(servers: Seq<Server>, reachable: Seq<bool>) -> bool {
    exists|i: int| 0 <= i < servers.len() && servers[i].spec_healthy() != reachable[i]
}

/// One monitoring cycle, given this cycle's probe outcome for each server
/// (index-aligned with the server list): apply the state machine to every
/// server, then republish the table — but only if some state flipped.
/// An unchanged cycle writes nothing to the shared table.
pub fn run_cycle(
    servers: &mut Vec<Server>,
    reachable: &Vec<bool>,
    table: &mut ServerTable,
) -> (changed: bool)
    requires
        old(servers)@.len() == reachable@.len(),
        old(servers)@.len() <= SERVER_TABLE_CAPACITY,
        old(table).wf(),
    ensures
        final(servers)@ == cycle_states(old(servers)@, reachable@),
        changed == any_change(old(servers)@, reachable@),
        final(table).wf(),
        changed ==> synced(*final(table), final(servers)@),
        !changed ==> *final(table) == *old(table),
{
    let ghost orig = servers@;
    let mut changed = false;
    let mut i: usize = 0;
    while i < servers.len()
        invariant
            i <= servers@.len(),
            servers@.len() == orig.len(),
            orig.len() == reachable@.len(),
            forall|j: int| 0 <= j < i as int ==> servers@[j] == cycle_states(orig, reachable@)[j],
            forall|j: int| i as int <= j < orig.len() ==> servers@[j] == orig[j],
            changed == exists|j: int|
                0 <= j < i as int && orig[j].spec_healthy() != reachable@[j],
        decreases servers@.len() - i,
    {
        let mut s = servers[i];
        let flipped = s.apply_probe(reachable[i]);
        servers[i] = s;
        if flipped {
            changed = true;
        }
        proof {
            if flipped {
                assert(orig[i as int].spec_healthy() != reachable@[i as int]);
            }
        }
        i = i + 1;
    }
    proof {
        assert(servers@ =~= cycle_states(orig, reachable@));
    }
    if changed {
        synchronize(servers, table);
    }
    changed
}

/// The two planes meet soundly: once the table has been synchronized
/// against a server list, every tuple the selector decides to transmit is
/// directed at the MAC of a currently healthy server — a stale or
/// unhealthy slot can never be selected.
pub proof fn lemma_transmit_targets_healthy_backend(
    t: FlowTuple,
    st: SharedState,
    servers: Seq<Server>,
)
    requires
        synced(st.servers, servers),
        servers.len() <= SERVER_TABLE_CAPACITY,
        select_action(t, st) == Action::Transmit,
    ensures
        exists|i: int|
            0 <= i < servers.len() && (#[trigger] servers[i]).spec_healthy() && Some(
                servers[i].mac_address,
            ) == spec_lookup(st.servers, t),
{
    lemma_healthy_macs_len(servers);
    lemma_healthy_macs_members(servers);
    let k = spec_hash_key(t, st.servers.count as u32);
    assert(st.servers.entries@[k as int] == healthy_macs(servers)[k as int]);
    let i = choose|i: int|
        0 <= i < servers.len() && servers[i].spec_healthy() && servers[i].mac_address
            == healthy_macs(servers)[k as int];
    assert(servers[i].spec_healthy() && Some(servers[i].mac_address) == spec_lookup(st.servers, t));
}

/// Health flips only on a reachability change: after a cycle with some
/// outcome, a second cycle with the identical outcome flips no server —
/// so, through `run_cycle`, it performs zero shared-table writes.
pub proof fn lemma_identical_cycle_is_quiet(servers: Seq<Server>, reachable: Seq<bool>)
    requires
        servers.len() == reachable.len(),
    ensures
        !any_change(cycle_states(servers, reachable), reachable),
{
}

} // verus!
