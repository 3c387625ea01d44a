//! Backend servers and their health state machine.
//!
//! A `Server` is one configured backend: a fixed MAC/IPv4 identity plus a
//! binary health state. Every server starts `Healthy`; the health monitor
//! flips the state only when a probe outcome disagrees with the current
//! state, once per monitoring cycle at most.

use vstd::prelude::*;

verus! {

/// Binary reachability classification of a backend.
#[derive(Clone, Copy, Debug, PartialEq, Eq, Structural)]
pub enum ServerState {
    Healthy,
    Unhealthy,
}

/// One configured backend: immutable identity plus mutable health.
#[derive(Clone, Copy, Debug)]
pub struct Server {
    pub mac_address: [u8; 6],
    pub ip_address: u32,
    pub state: ServerState,
}

impl Server {
    /// True exactly when the server is currently classified `Healthy`.
    pub open spec fn spec_healthy(&self) -> bool {
        self.state is Healthy
    }

    /// A new server starts out healthy, carrying the given identity.
    pub fn new(mac_address: [u8; 6], ip_address: u32) -> (s: Server)
        ensures
            s.mac_address == mac_address,
            s.ip_address == ip_address,
            s.state == ServerState::Healthy,
    {
        Server { mac_address, ip_address, state: ServerState::Healthy }
    }

    pub fn get_mac_address(&self) -> (mac: [u8; 6])
        ensures
            mac == self.mac_address,
    {
        self.mac_address
    }

    pub fn get_ip_address(&self) -> (ip: u32)
        ensures
            ip == self.ip_address,
    {
        self.ip_address
    }

    pub fn is_healthy(&self) -> (healthy: bool)
        ensures
            healthy == self.spec_healthy(),
    {
        match self.state {
            ServerState::Healthy => true,
            ServerState::Unhealthy => false,
        }
    }

    /// Apply one cycle's probe outcome to the state machine. The probe
    /// transport lives with the caller; this is the transition rule alone:
    /// afterwards the state matches the outcome, and `changed` reports
    /// whether it flipped — which it does exactly when the outcome
    /// disagreed with the previous state, so at most once per cycle.
    pub fn apply_probe(&mut self, reachable: bool) -> (changed: bool)
        ensures
            final(self).spec_healthy() == reachable,
            changed == (old(self).spec_healthy() != reachable),
            final(self).mac_address == old(self).mac_address,
            final(self).ip_address == old(self).ip_address,
    {
        match self.state {
            ServerState::Healthy => {
                if reachable {
                    false
                } else {
                    self.state = ServerState::Unhealthy;
                    true
                }
            },
            ServerState::Unhealthy => {
                if reachable {
                    self.state = ServerState::Healthy;
                    true
                } else {
                    false
                }
            },
        }
    }

    /// Flip the health state, leaving the identity untouched.
    pub fn toggle_health(&mut self)
        ensures
            final(self).spec_healthy() == !old(self).spec_healthy(),
            final(self).mac_address == old(self).mac_address,
            final(self).ip_address == old(self).ip_address,
    {
        match self.state {
            ServerState::Healthy => self.state = ServerState::Unhealthy,
            ServerState::Unhealthy => self.state = ServerState::Healthy,
        }
    }
}

} // verus!
