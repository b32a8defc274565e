//! In-memory telemetry for periodic sensor readings.
//!
//! The crate keeps time-ordered measurement sequences for a fixed set of
//! channels, lets concurrent producers append readings, hands a consumer
//! consistent point-in-time snapshots, and paces that consumer with a
//! fixed-interval refresh scheduler.

use vstd::prelude::*;

pub mod history;
pub mod points;
pub mod sched;
pub mod store;

verus! {

/// Configuration of the ingestion server: the port it listens on.
pub struct IOTApp {
    port: u16,
}

impl IOTApp {
    /// The configured listening port.
    pub closed spec fn spec_port(&self) -> u16 {
        self.port
    }

    pub fn new(port: u16) -> (app: Self)
        ensures
            app.spec_port() == port,
    {
        IOTApp { port }
    }

    pub fn port(&self) -> (p: u16)
        ensures
            p == self.spec_port(),
    {
        self.port
    }
}

} // verus!
