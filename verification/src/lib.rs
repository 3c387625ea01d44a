//! Aeolus: a layer-2 load balancer core.
//!
//! The library holds the verified heart of the balancer: per-frame
//! classification and MAC rewriting over a raw byte buffer, hash-based
//! backend selection against a shared table, the per-backend health state
//! machine, the table-synchronization pass that republishes the healthy
//! set, and configuration validation. Everything that touches the outside
//! world (config files, signals, logging, ICMP probes) lives in the
//! surrounding application, which hands this library plain values.

pub mod config;
pub mod monitor;
pub mod packet;
pub mod server;
pub mod shared;
