//! A non-blocking TCP reactor library.
//!
//! The reactor multiplexes an arbitrary number of TCP listeners and client
//! connections on one thread.  Consumers drive it with input messages
//! (listen, connect, send, query statistics, close, shutdown) and consume
//! output messages (listen established, connection accepted, data received,
//! statistics, clean close, dirty close).
//!
//! The verified core is a state machine: every decision the reactor makes is
//! a function from its state and an event (a control message, or a readiness
//! callback together with the outcome of the socket operation it triggered)
//! to the next state, the output messages to emit, and the effects the event
//! loop must perform on the OS selector and the sockets.

use vstd::prelude::*;

pub mod client;
pub mod downstream;
pub mod handler;
pub mod listener;
pub mod message;
pub mod registry;
pub mod token_factory;

pub use std::sync::mpsc::Receiver;
pub use std::sync::mpsc::Sender;
pub use client::Statistics as ClientStatistics;
pub use downstream::channel;
pub use handler::Handler;
pub use message::Input as InputMessage;
pub use message::Output as OutputMessage;
pub use token_factory::Factory as TokenFactory;
pub use token_factory::SequentialFactory as SequentialTokenFactory;

verus! {

/// An opaque connection or listener identifier, used as the registration key
/// in the OS readiness facility.  Minted by a token factory; never reused
/// within one reactor instance.
#[derive(Clone, Copy, PartialEq, Eq, Structural, Hash, Debug)]
pub struct Token(pub usize);

} // verus!
