//! The message taxonomy between the consumer and the reactor.
//!
//! Consumers drive the reactor with [`Input`] messages and receive [`Output`]
//! messages on the downstream channel.  Token values are opaque to the
//! consumer; the consumer supplies tokens for listeners and dials and
//! receives tokens for accepted peers.

use vstd::prelude::*;
use crate::Token;
use crate::client::Statistics;

verus! {

/// A transport address, held as plain values: whether it is a v6 address,
/// the address bits, and the port.  The reactor never inspects an address;
/// it only carries addresses between the consumer and the sockets.
#[derive(Clone, Copy, PartialEq, Eq, Structural, Hash, Debug)]
pub struct Addr {
    pub v6: bool,
    pub ip: u128,
    pub port: u16,
}

/// An I/O error carried as a plain value: its rendered description.
#[derive(Clone, PartialEq, Debug)]
pub struct IoErr {
    pub message: String,
}

/// A message from the consumer to the reactor.
#[derive(Clone, PartialEq, Debug)]
pub enum Input {
    /// Request that the reactor listen on an address.  On success an
    /// `Output::ListenResponse` is sent downstream; on failure an
    /// `Output::DirtyClose` carrying the error.
    ListenRequest { listener: Token, addr: Addr },
    /// Request that the reactor establish a connection to an address.  On
    /// completion an `Output::ConnectResponse` is sent downstream; on failure
    /// an `Output::DirtyClose` carrying the error.
    ConnectRequest { token: Token, addr: Addr },
    /// Send some data to a client.  The reactor buffers whatever cannot be
    /// written at once.
    Data { token: Token, data: Vec<u8> },
    /// Request statistics for a connection.  If the token names a live
    /// client, an `Output::StatisticsResponse` is sent downstream.
    StatisticsRequest { token: Token },
    /// Request that a connection or listener be closed.  The reactor sends an
    /// `Output::Close` (or `Output::DirtyClose` when `dirty`) once it is.
    Close { token: Token, dirty: bool },
    /// Request that the reactor shut down.  The reactor sends an
    /// `Output::Close` for each client it drops on the way out.
    Shutdown,
}

/// A message from the reactor to the consumer.
#[derive(Clone, PartialEq, Debug)]
pub enum Output {
    /// A listener has been established, in response to a successful
    /// `Input::ListenRequest`.
    ListenResponse { listener: Token },
    /// A listener accepted a client connection.  By the time this message is
    /// produced the connection is recorded in the reactor's registries and
    /// registered with the selector.
    ConnectRequest { listener: Token, client: Token, addr: Addr },
    /// An outgoing connection has completed, in response to an
    /// `Input::ConnectRequest`.
    ConnectResponse { token: Token },
    /// Data has been read from a connection.
    Data { token: Token, data: Vec<u8> },
    /// Statistics for a client, in response to an `Input::StatisticsRequest`.
    StatisticsResponse { token: Token, stats: Statistics },
    /// A connection ended cleanly, or a listener stopped listening.
    Close { token: Token },
    /// A connection ended uncleanly.  Where the originating error is known it
    /// is carried as the reason.
    DirtyClose { token: Token, reason: Option<IoErr> },
}

} // verus!
