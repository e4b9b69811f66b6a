//! The downstream channel: the stream on which the event loop sends the
//! reactor's output messages to the consumer.

use vstd::prelude::*;
use crate::message::Output;

verus! {

#[verifier::external_type_specification]
#[verifier::external_body]
#[verifier::reject_recursive_types(T)]
pub struct ExSender<T>(std::sync::mpsc::Sender<T>);

#[verifier::external_type_specification]
#[verifier::external_body]
#[verifier::reject_recursive_types(T)]
pub struct ExReceiver<T>(std::sync::mpsc::Receiver<T>);

/// Make a downstream channel: the sending half goes to the event loop, the
/// receiving half stays with the consumer.
///
/// Relies on std::sync::mpsc::channel: returns a connected asynchronous
/// sender/receiver pair delivering messages in first-in, first-out order.
#[verifier::external_body]
pub fn channel() -> (std::sync::mpsc::Sender<Output>, std::sync::mpsc::Receiver<Output>) {
    std::sync::mpsc::channel()
}

} // verus!
