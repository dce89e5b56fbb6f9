//! Keeps a DNS provider's records in step with the services of a cluster
//! registry: the record model and its content equality, the diff between the
//! desired and the previously applied state, the reconciliation cycle as a
//! state machine, the provider adapter's decisions (including recovery from
//! create conflicts), and the coordination client's session, lock and watch
//! decisions.

pub mod config;
pub mod record;
pub mod state;
pub mod diff;
pub mod reconcile;
pub mod hetzner_dns;
pub mod consul;
pub mod tags;
