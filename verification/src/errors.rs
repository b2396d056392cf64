//! Error kinds of the fan-in core.
//!
//! Configuration errors are fatal at startup; protocol errors are
//! fatal inside a feed worker; transient conditions (a failed inflate,
//! an unparsable snapshot) are signalled by `Option` / outcome values
//! instead and never by these types.

use vstd::prelude::*;

verus! {

/// Fatal configuration conditions when sizing the slot table.
#[derive(Clone, Copy, Debug, PartialEq, Eq, Structural)]
pub enum ConfigError {
    /// The stride cannot hold even the smallest header plus a
    /// payload byte and the NUL terminator.
    StrideTooSmall,
    /// `slots * stride` does not fit in `usize`.
    SizeOverflow,
}

/// Fatal protocol conditions inside a feed worker.
#[derive(Clone, Copy, Debug, PartialEq, Eq, Structural)]
pub enum WorkerError {
    /// The frame names an instrument the routing map does not hold.
    RoutingMiss,
    /// The frame holds `market.` but no closing `.bbo` after it.
    MarketChannelMalformed,
    /// The frame is neither keepalive, market data, nor a status
    /// acknowledgment.
    UnrecognizedFrame,
    /// The framed message would exceed the slot stride.
    FrameTooLarge,
    /// The transport failed; a worker cannot continue without it.
    TransportFailed,
}

} // verus!
