//! Listener state: what the reactor records about a listening socket.  The
//! socket itself lives with the event loop.

use vstd::prelude::*;
use crate::message::Addr;

verus! {

/// A listening endpoint: the address it was bound to.
#[derive(Clone, Copy, PartialEq, Eq, Structural, Debug)]
pub struct Listener {
    pub addr: Addr,
}

impl Listener {
    pub fn new(addr: Addr) -> (l: Listener)
        ensures
            l.addr == addr,
    {
        Listener { addr }
    }
}

} // verus!
