//! Tests of the control plane: health cycles and table synchronization.

use aeolus::monitor::{run_cycle, synchronize};
use aeolus::packet::get_destination_mac;
use aeolus::server::Server;
use aeolus::shared::ServerTable;

const MAC_A: [u8; 6] = [0x52, 0x54, 0x00, 0x00, 0x00, 0x0a];
const MAC_B: [u8; 6] = [0x52, 0x54, 0x00, 0x00, 0x00, 0x0b];
const MAC_C: [u8; 6] = [0x52, 0x54, 0x00, 0x00, 0x00, 0x0c];

fn three_servers() -> Vec<Server> {
    vec![
        Server::new(MAC_A, 0x0a000001),
        Server::new(MAC_B, 0x0a000002),
        Server::new(MAC_C, 0x0a000003),
    ]
}

fn published(table: &ServerTable) -> Vec<[u8; 6]> {
    (0..table.get_count() as u32).map(|i| table.get(i).unwrap()).collect()
}

#[test]
fn server_state_machine() {
    let mut s = Server::new(MAC_A, 1);
    assert!(s.is_healthy());
    assert_eq!(s.get_mac_address(), MAC_A);
    assert_eq!(s.get_ip_address(), 1);
    // Reachable while healthy: no flip.
    assert!(!s.apply_probe(true));
    assert!(s.is_healthy());
    // Unreachable while healthy: flips to unhealthy, reported once.
    assert!(s.apply_probe(false));
    assert!(!s.is_healthy());
    // Unreachable while unhealthy: no flip.
    assert!(!s.apply_probe(false));
    assert!(!s.is_healthy());
    // Reachable again: flips back.
    assert!(s.apply_probe(true));
    assert!(s.is_healthy());
}

#[test]
fn toggle_health_flips() {
    let mut s = Server::new(MAC_B, 7);
    s.toggle_health();
    assert!(!s.is_healthy());
    s.toggle_health();
    assert!(s.is_healthy());
    assert_eq!(s.get_mac_address(), MAC_B);
}

#[test]
fn synchronize_publishes_healthy_in_order() {
    // B unhealthy: the table holds [A, C], compacted, in config order.
    let mut servers = three_servers();
    servers[1].apply_probe(false);
    let mut table = ServerTable::new();
    synchronize(&servers, &mut table);
    assert_eq!(table.get_count(), 2);
    assert_eq!(published(&table), vec![MAC_A, MAC_C]);
}

#[test]
fn synchronize_with_all_healthy_and_none_healthy() {
    let servers = three_servers();
    let mut table = ServerTable::new();
    synchronize(&servers, &mut table);
    assert_eq!(published(&table), vec![MAC_A, MAC_B, MAC_C]);

    let mut down = three_servers();
    for s in down.iter_mut() {
        s.apply_probe(false);
    }
    synchronize(&down, &mut table);
    assert_eq!(table.get_count(), 0);
}

#[test]
fn cycle_republishes_on_change() {
    // B's probe fails: B flips, the table is republished as [A, C].
    let mut servers = three_servers();
    let mut table = ServerTable::new();
    synchronize(&servers, &mut table);
    let changed = run_cycle(&mut servers, &vec![true, false, true], &mut table);
    assert!(changed);
    assert!(!servers[1].is_healthy());
    assert_eq!(published(&table), vec![MAC_A, MAC_C]);
}

#[test]
fn identical_cycles_write_nothing() {
    // Two consecutive cycles with identical reachability: the second one
    // flips no server and leaves the table bytes exactly as they were.
    let mut servers = three_servers();
    let mut table = ServerTable::new();
    synchronize(&servers, &mut table);
    let outcomes = vec![true, false, true];
    assert!(run_cycle(&mut servers, &outcomes, &mut table));
    let snapshot = published(&table);
    let count = table.get_count();

    let changed = run_cycle(&mut servers, &outcomes, &mut table);
    assert!(!changed);
    assert_eq!(table.get_count(), count);
    assert_eq!(published(&table), snapshot);
}

#[test]
fn health_flips_at_most_once_per_cycle() {
    // One cycle applies exactly one probe outcome per server: a server
    // that was healthy and is unreachable ends the cycle unhealthy, not
    // flapping back, and the cycle reports the change exactly once.
    let mut servers = three_servers();
    let mut table = ServerTable::new();
    assert!(run_cycle(&mut servers, &vec![false, false, false], &mut table));
    assert!(servers.iter().all(|s| !s.is_healthy()));
    assert_eq!(table.get_count(), 0);
    // The recovery cycle flips everything back and republishes.
    assert!(run_cycle(&mut servers, &vec![true, true, true], &mut table));
    assert!(servers.iter().all(|s| s.is_healthy()));
    assert_eq!(published(&table), vec![MAC_A, MAC_B, MAC_C]);
}

#[test]
fn selection_follows_republished_table() {
    // A, B, C all healthy, count 3: the tuple summing to 7 hashes to
    // slot 7 mod 3 = 1 and selects B. After B's probe fails the table is
    // republished as [A, C] with count 2, and the identical tuple now
    // computes 7 mod 2 = 1 and selects C.
    let mut servers = three_servers();
    let mut table = ServerTable::new();
    synchronize(&servers, &mut table);
    assert_eq!(table.get_count(), 3);
    assert_eq!(get_destination_mac(&table, 1, 2, 3, 1), Some(MAC_B));

    assert!(run_cycle(&mut servers, &vec![true, false, true], &mut table));
    assert_eq!(published(&table), vec![MAC_A, MAC_C]);
    assert_eq!(get_destination_mac(&table, 1, 2, 3, 1), Some(MAC_C));
}

#[test]
fn unchanged_cycle_keeps_stale_slots() {
    // A quiet cycle must not touch even the stale slots beyond the count.
    let mut servers = vec![Server::new(MAC_A, 1)];
    let mut table = ServerTable::new();
    table.set(5, MAC_C);
    synchronize(&servers, &mut table);
    let changed = run_cycle(&mut servers, &vec![true], &mut table);
    assert!(!changed);
    assert_eq!(table.get(5), Some(MAC_C));
}
