//! The per-frame data plane: classification, backend selection, rewrite.
//!
//! Every inbound Ethernet frame is pushed through `aeolus`, which decides
//! one of three terminal actions: `Pass` (leave the frame alone), `Transmit`
//! (destination MAC rewritten to the selected backend, everything else
//! bit-identical), or `Abort` (a header ran past the frame bounds; drop the
//! frame, never fail the process). Every header access is preceded by an
//! explicit length check against the caller-supplied `[start, end)` bounds.

use vstd::prelude::*;
use crate::shared::{SharedState, ServerTable, SERVER_TABLE_CAPACITY, is_listening_port};

verus! {

/// Fixed size of an Ethernet header: two MACs plus the ether-type.
pub const ETH_HDR_LEN: usize = 14;

/// Fixed size of the IPv4 header the classifier reads (options ignored).
pub const IPV4_HDR_LEN: usize = 20;

/// Fixed size of a TCP header without options.
pub const TCP_HDR_LEN: usize = 20;

/// Fixed size of a UDP header.
pub const UDP_HDR_LEN: usize = 8;

/// Ether-type of IPv4, as carried big-endian on the wire.
pub const ETHERTYPE_IPV4: u16 = 0x0800;

/// IPv4 protocol number of TCP.
pub const IP_PROTO_TCP: u8 = 6;

/// IPv4 protocol number of UDP.
pub const IP_PROTO_UDP: u8 = 17;

/// The four header fields identifying one logical flow.
#[derive(Clone, Copy, Debug, PartialEq, Eq, Structural)]
pub struct FlowTuple {
    pub src_ip: u32,
    pub dst_ip: u32,
    pub src_port: u16,
    pub dst_port: u16,
}

/// Terminal outcome of processing one frame.
#[derive(Clone, Copy, Debug, PartialEq, Eq, Structural)]
pub enum Action {
    /// Leave the frame untouched and let the stack handle it.
    Pass,
    /// The destination MAC was rewritten; put the frame back on the wire.
    Transmit,
    /// A header bounds violation: drop this frame, a per-frame error only.
    Abort,
}

/// The 16-bit big-endian value at byte offset `i`.
pub open spec fn be16(s: Seq<u8>, i: int) -> u16 {
    ((s[i] as int) * 0x100 + (s[i + 1] as int)) as u16
}

/// The 32-bit big-endian value at byte offset `i`.
pub open spec fn be32(s: Seq<u8>, i: int) -> u32 {
    ((s[i] as int) * 0x100_0000 + (s[i + 1] as int) * 0x1_0000 + (s[i + 2] as int) * 0x100 + (s[i
        + 3] as int)) as u32
}

/// The flow tuple carried by an IPv4 TCP/UDP frame starting at `start`.
pub open spec fn frame_flow(s: Seq<u8>, start: int) -> FlowTuple {
    FlowTuple {
        src_ip: be32(s, start + 26),
        dst_ip: be32(s, start + 30),
        src_port: be16(s, start + 34),
        dst_port: be16(s, start + 36),
    }
}

/// The additive selection hash: the 32-bit wraparound sum of the tuple's
/// fields, reduced modulo the table count. Deliberately simple and
/// non-cryptographic; that it distributes poorly for strongly correlated
/// flows is an accepted trade-off, not something to silently upgrade.
pub open spec fn spec_hash_key(t: FlowTuple, n: u32) -> u32
    recommends
        n > 0,
{
    (((t.src_ip + t.dst_ip + t.src_port + t.dst_port) % 0x1_0000_0000) % (n as int)) as u32
}

/// What the table lookup yields for a tuple: `None` when the table is
/// empty or the hashed slot lies outside the table's capacity (a transient
/// inconsistency), otherwise the MAC in the hashed slot.
pub open spec fn spec_lookup(table: ServerTable, t: FlowTuple) -> Option<[u8; 6]> {
    if table.count == 0 {
        None
    } else {
        let k = spec_hash_key(t, table.count as u32);
        if k as int >= SERVER_TABLE_CAPACITY as int {
            None
        } else {
            Some(table.entries@[k as int])
        }
    }
}

/// The selector's verdict for a tuple: pass when there is no backend to
/// route to or the selection points back at this host, transmit otherwise.
pub open spec fn select_action(t: FlowTuple, st: SharedState) -> Action {
    match spec_lookup(st.servers, t) {
        Option::None => Action::Pass,
        Option::Some(mac) => if mac@ == st.host_mac_address@ {
            Action::Pass
        } else {
            Action::Transmit
        },
    }
}

/// The verdict once a flow tuple has been extracted: not-balanced ports
/// pass through, balanced ones go to the selector.
pub open spec fn port_action(s: Seq<u8>, start: int, st: SharedState) -> Action {
    if !st.listening_ports@.contains(frame_flow(s, start).dst_port) {
        Action::Pass
    } else {
        select_action(frame_flow(s, start), st)
    }
}

/// The complete per-frame decision over the raw bytes in `[start, end)`:
/// header parsing, protocol filtering, port membership, selection.
pub open spec fn frame_action(s: Seq<u8>, start: int, end: int, st: SharedState) -> Action {
    if end - start < ETH_HDR_LEN as int {
        Action::Abort
    } else if be16(s, start + 12) != ETHERTYPE_IPV4 {
        Action::Pass
    } else if end - start < ETH_HDR_LEN as int + IPV4_HDR_LEN as int {
        Action::Abort
    } else if s[start + 23] == IP_PROTO_TCP {
        if end - start < ETH_HDR_LEN as int + IPV4_HDR_LEN as int + TCP_HDR_LEN as int {
            Action::Abort
        } else {
            port_action(s, start, st)
        }
    } else if s[start + 23] == IP_PROTO_UDP {
        if end - start < ETH_HDR_LEN as int + IPV4_HDR_LEN as int + UDP_HDR_LEN as int {
            Action::Abort
        } else {
            port_action(s, start, st)
        }
    } else {
        Action::Pass
    }
}

/// The MAC a transmitted frame is rewritten towards.
pub open spec fn transmit_target(s: Seq<u8>, start: int, st: SharedState) -> [u8; 6] {
    st.servers.entries@[spec_hash_key(frame_flow(s, start), st.servers.count as u32) as int]
}

/// `s` with the six destination-MAC bytes at `start` replaced by `mac`,
/// every other byte identical.
pub open spec fn rewritten(s: Seq<u8>, start: int, mac: Seq<u8>) -> Seq<u8> {
    Seq::new(
        s.len(),
        |i: int|
            if start <= i < start + 6 {
                mac[i - start]
            } else {
                s[i]
            },
    )
}

/// True when the frame carries IPv4 TCP/UDP and every header the
/// classifier reads lies inside `[start, end)`: a flow tuple is extracted.
pub open spec fn parses_flow(s: Seq<u8>, start: int, end: int) -> bool {
    &&& end - start >= ETH_HDR_LEN as int
    &&& be16(s, start + 12) == ETHERTYPE_IPV4
    &&& end - start >= ETH_HDR_LEN as int + IPV4_HDR_LEN as int
    &&& {
        ||| (s[start + 23] == IP_PROTO_TCP && end - start >= ETH_HDR_LEN as int
            + IPV4_HDR_LEN as int + TCP_HDR_LEN as int)
        ||| (s[start + 23] == IP_PROTO_UDP && end - start >= ETH_HDR_LEN as int
            + IPV4_HDR_LEN as int + UDP_HDR_LEN as int)
    }
}

/// A destination port outside the listening set always passes, whatever
/// the table holds.
pub proof fn lemma_unbalanced_port_passes(s: Seq<u8>, start: int, end: int, st: SharedState)
    requires
        parses_flow(s, start, end),
        !st.listening_ports@.contains(frame_flow(s, start).dst_port),
    ensures
        frame_action(s, start, end, st) == Action::Pass,
{
}

/// With no healthy backend published (`count == 0`) the selector always
/// passes: there is nowhere to route to.
pub proof fn lemma_empty_table_passes(t: FlowTuple, st: SharedState)
    requires
        st.servers.count == 0,
    ensures
        select_action(t, st) == Action::Pass,
{
}

/// A selection that points back at this host passes, breaking the
/// forwarding loop that redirecting to ourselves would create.
pub proof fn lemma_self_redirect_passes(t: FlowTuple, st: SharedState)
    requires
        spec_lookup(st.servers, t) matches Some(mac) && mac@ == st.host_mac_address@,
    ensures
        select_action(t, st) == Action::Pass,
{
}

/// A rewrite touches nothing but the six destination-MAC bytes: the new
/// frame carries `mac` at `start`, and every byte outside that window —
/// source MAC, IP addresses, ports, payload — is bit-identical.
pub proof fn lemma_rewrite_touches_only_dst_mac(s: Seq<u8>, start: int, mac: Seq<u8>)
    requires
        0 <= start,
        start + 6 <= s.len(),
        mac.len() == 6,
    ensures
        rewritten(s, start, mac).len() == s.len(),
        rewritten(s, start, mac).subrange(start, start + 6) =~= mac,
        forall|i: int|
            0 <= i < s.len() && !(start <= i < start + 6) ==> rewritten(s, start, mac)[i] == s[i],
{
}

/// Read a 16-bit big-endian field out of the frame.
fn read_be16(frame: &Vec<u8>, i: usize) -> (r: u16)
    requires
        i + 2 <= frame.len(),
    ensures
        r == be16(frame@, i as int),
{
    (frame[i] as u16) * 0x100 + (frame[i + 1] as u16)
}

/// Read a 32-bit big-endian field out of the frame.
fn read_be32(frame: &Vec<u8>, i: usize) -> (r: u32)
    requires
        i + 4 <= frame.len(),
    ensures
        r == be32(frame@, i as int),
{
    (frame[i] as u32) * 0x100_0000 + (frame[i + 1] as u32) * 0x1_0000 + (frame[i + 2] as u32)
        * 0x100 + (frame[i + 3] as u32)
}

/// The selection hash of a tuple against a table of `n` entries; always a
/// valid slot index below `n`.
pub fn hash_key(t: &FlowTuple, n: u32) -> (k: u32)
    requires
        n > 0,
    ensures
        k == spec_hash_key(*t, n),
        k < n,
{
    let sum: u64 = t.src_ip as u64 + t.dst_ip as u64 + t.src_port as u64 + t.dst_port as u64;
    let wrapped: u32 = (sum % 0x1_0000_0000u64) as u32;
    wrapped % n
}

/// The additive hash always lands inside the table: for every tuple and
/// every positive count `n`, the slot index lies in `[0, n)`.
pub proof fn lemma_hash_key_in_range(t: FlowTuple, n: u32)
    requires
        n > 0,
    ensures
        0 <= spec_hash_key(t, n) < n,
{
}

/// Select the backend MAC for a flow, or `None` when the table is empty
/// or the hashed slot lies beyond the table's capacity.
pub fn get_destination_mac(
    table: &ServerTable,
    src_ip: u32,
    dst_ip: u32,
    src_port: u16,
    dst_port: u16,
) -> (r: Option<[u8; 6]>)
    requires
        table.wf(),
    ensures
        r == spec_lookup(*table, FlowTuple { src_ip, dst_ip, src_port, dst_port }),
{
    let count = table.get_count();
    if count == 0 {
        return None;
    }
    let t = FlowTuple { src_ip, dst_ip, src_port, dst_port };
    let k = hash_key(&t, count as u32);
    table.get(k)
}

/// True exactly when the two MACs are byte-for-byte equal; used to detect
/// a selection that points back at this host.
pub fn is_own_address(mac_address: &[u8; 6], host: &[u8; 6]) -> (r: bool)
    ensures
        r == (mac_address@ == host@),
{
    let mut i: usize = 0;
    while i < 6
        invariant
            i <= 6,
            forall|j: int| 0 <= j < i ==> mac_address@[j] == host@[j],
        decreases 6 - i,
    {
        if mac_address[i] != host[i] {
            return false;
        }
        i = i + 1;
    }
    proof {
        assert(mac_address@ =~= host@);
    }
    true
}

/// Classify one frame and, when a backend is selected, rewrite its
/// destination MAC in place. `Err` signals a header bounds violation; the
/// caller maps it to `Abort` and drops the frame.
pub fn try_aeolus(frame: &mut Vec<u8>, start: usize, end: usize, state: &SharedState) -> (r: Result<
    Action,
    (),
>)
    requires
        start <= end,
        end <= old(frame)@.len(),
        state.wf(),
    ensures
        ({
            let a = frame_action(old(frame)@, start as int, end as int, *state);
            &&& (a is Abort <==> r is Err)
            &&& (r matches Ok(got) ==> got == a)
            &&& (a is Transmit ==> final(frame)@ == rewritten(
                old(frame)@,
                start as int,
                transmit_target(old(frame)@, start as int, *state)@,
            ))
            &&& (!(a is Transmit) ==> final(frame)@ == old(frame)@)
        }),
{
    if end - start < ETH_HDR_LEN {
        return Err(());
    }
    let ether_type = read_be16(frame, start + 12);
    if ether_type != ETHERTYPE_IPV4 {
        return Ok(Action::Pass);
    }
    if end - start < ETH_HDR_LEN + IPV4_HDR_LEN {
        return Err(());
    }
    let proto = frame[start + 23];
    if proto == IP_PROTO_TCP {
        if end - start < ETH_HDR_LEN + IPV4_HDR_LEN + TCP_HDR_LEN {
            return Err(());
        }
    } else if proto == IP_PROTO_UDP {
        if end - start < ETH_HDR_LEN + IPV4_HDR_LEN + UDP_HDR_LEN {
            return Err(());
        }
    } else {
        return Ok(Action::Pass);
    }
    let src_ip = read_be32(frame, start + 26);
    let dst_ip = read_be32(frame, start + 30);
    let src_port = read_be16(frame, start + 34);
    let dst_port = read_be16(frame, start + 36);

    // Check whether this destination port is balanced at all.
    if !is_listening_port(&state.listening_ports, dst_port) {
        return Ok(Action::Pass);
    }

    // Select the backend for this flow.
    let dst_mac = match get_destination_mac(&state.servers, src_ip, dst_ip, src_port, dst_port) {
        Option::None => {
            return Ok(Action::Pass);
        },
        Option::Some(mac) => mac,
    };

    // Never redirect a frame back at this host.
    if is_own_address(&dst_mac, &state.host_mac_address) {
        return Ok(Action::Pass);
    }

    // Overwrite the destination MAC in place; nothing else moves.
    let ghost before = frame@;
    frame[start] = dst_mac[0];
    frame[start + 1] = dst_mac[1];
    frame[start + 2] = dst_mac[2];
    frame[start + 3] = dst_mac[3];
    frame[start + 4] = dst_mac[4];
    frame[start + 5] = dst_mac[5];
    proof {
        assert(frame@ =~= rewritten(before, start as int, dst_mac@));
    }
    Ok(Action::Transmit)
}

/// Process one frame: the classifier's verdict, with any bounds violation
/// resolved to `Abort` so that a fault never outlives the frame.
pub fn aeolus(frame: &mut Vec<u8>, start: usize, end: usize, state: &SharedState) -> (action:
    Action)
    requires
        start <= end,
        end <= old(frame)@.len(),
        state.wf(),
    ensures
        action == frame_action(old(frame)@, start as int, end as int, *state),
        action is Transmit ==> final(frame)@ == rewritten(
            old(frame)@,
            start as int,
            transmit_target(old(frame)@, start as int, *state)@,
        ),
        !(action is Transmit) ==> final(frame)@ == old(frame)@,
{
    match try_aeolus(frame, start, end, state) {
        Result::Ok(action) => action,
        Result::Err(_) => Action::Abort,
    }
}

} // verus!
