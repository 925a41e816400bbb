//! The settings and decisions of opening a connection.

use vstd::prelude::*;

verus! {

/// The timeouts that bound each connection, in seconds.
pub struct ConnectorConfig {
    /// How long to wait for one address to accept.
    pub connect_timeout_secs: u64,
    /// How long one read may block on an open connection.
    pub read_timeout_secs: u64,
    /// How long one write may block on an open connection.
    pub write_timeout_secs: u64,
}

impl ConnectorConfig {
    /// Five seconds to connect, three to read and three to write.
    pub fn standard() -> (r: ConnectorConfig)
        ensures
            r.connect_timeout_secs == 5,
            r.read_timeout_secs == 3,
            r.write_timeout_secs == 3,
    {
        ConnectorConfig { connect_timeout_secs: 5, read_timeout_secs: 3, write_timeout_secs: 3 }
    }
}

/// What to do next while connecting to a host with several addresses.
#[derive(PartialEq, Eq, Structural, Clone, Copy, Debug)]
pub enum ConnectStep {
    /// Try the address at this index of the resolver's list.
    TryAddress(usize),
    /// Every address failed: no host is reachable.
    Unreachable,
}

/// Addresses are tried in the resolver's order until one accepts; after
/// `failed` failures among `address_count` addresses, the next one is tried,
/// and when none is left the host is unreachable.
pub fn next_connect_step(failed: usize, address_count: usize) -> (r: ConnectStep)
    ensures
        failed < address_count ==> r == ConnectStep::TryAddress(failed),
        failed >= address_count ==> r == ConnectStep::Unreachable,
{
    if failed < address_count {
        ConnectStep::TryAddress(failed)
    } else {
        ConnectStep::Unreachable
    }
}

} // verus!
