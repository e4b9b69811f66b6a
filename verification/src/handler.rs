//! The reactor: owner of the three registries and of a model of the OS
//! selector's registrations.
//!
//! Every decision the reactor makes is a method of [`Handler`]: it takes an
//! event — a control message, or a readiness callback together with the
//! plain-value outcome of the socket operation it triggered — and returns
//! the output messages to emit downstream and the [`Effect`]s the event loop
//! must perform against the OS.  The event loop performs each effect in
//! order and reports the outcome of the fallible ones back as further
//! events; a failed registration, for instance, comes back as a dirty close.

use vstd::prelude::*;
use crate::Token;
use crate::client::{Client, OperationResult, Statistics, concat_of, chunk_views};
use crate::listener::Listener;
use crate::message::{Addr, Input, IoErr, Output};
use crate::registry::Registry;
use crate::token_factory::SequentialFactory;

verus! {

broadcast use vstd::map::group_map_axioms;

/// A selector interest set.
#[derive(Clone, Copy, PartialEq, Eq, Structural, Debug)]
pub struct Interest {
    pub readable: bool,
    pub writable: bool,
    pub hup: bool,
    pub error: bool,
}

/// Interest of a listener and of a quiescent established client:
/// read | hup | error.
pub open spec fn rhe_interest() -> Interest {
    Interest { readable: true, writable: false, hup: true, error: true }
}

/// Interest of a pending (dialing) client: write | hup | error.
pub open spec fn whe_interest() -> Interest {
    Interest { readable: false, writable: true, hup: true, error: true }
}

/// Interest of an established client: read | hup | error, plus write
/// exactly when the client is waiting for writability.
pub open spec fn client_interest(waiting: bool) -> Interest {
    Interest { readable: true, writable: waiting, hup: true, error: true }
}

/// A dial in progress: the target address, while the socket awaits
/// writability to signal connect completion.
#[derive(Clone, Copy, PartialEq, Eq, Structural, Debug)]
pub struct PendingClient {
    pub addr: Addr,
}

/// How the OS reported a just-initiated non-blocking connect.
#[derive(Clone, Copy, PartialEq, Eq, Structural, Debug)]
pub enum ConnectStart {
    /// The connect already completed; the socket is usable at once.
    Complete,
    /// The connect is in progress; completion arrives as a writable event.
    InProgress,
}

/// The readiness hints a readable callback carries besides plain data.
#[derive(Clone, Copy, PartialEq, Eq, Structural, Debug)]
pub struct ReadHint {
    pub error: bool,
    pub hup: bool,
}

/// Which registry, if any, a token currently names.
#[derive(Clone, Copy, PartialEq, Eq, Structural, Debug)]
pub enum TokenKind {
    Listener,
    Pending,
    Client,
    Unknown,
}

/// An action the event loop must perform against the OS on the reactor's
/// behalf.  The loop performs effects in order; when a fallible effect
/// fails, it reports the failure back as an event (a dirty close for a
/// registration failure, a `try_flush` outcome for a write).
#[derive(Clone, PartialEq, Debug)]
pub enum Effect {
    /// Bind a listening socket to `addr`, then report the outcome through
    /// [`Handler::proc_listen_request`].
    OpenListener { token: Token, addr: Addr },
    /// Start a non-blocking connect to `addr`, then report the outcome
    /// through [`Handler::proc_connect_request`].
    OpenConnection { token: Token, addr: Addr },
    /// Register the socket held for `token` with the selector.
    Register { token: Token, interest: Interest },
    /// Change the selector interest of the socket held for `token`.
    Reregister { token: Token, interest: Interest },
    /// Deregister the socket held for `token` and drop it, closing it.
    Deregister { token: Token },
    /// Attempt one non-blocking write of `data` on the socket held for
    /// `token`, then report the outcome through [`Handler::try_flush`].
    Flush { token: Token, data: Vec<u8> },
    /// Stop the event loop; `run` returns after this.
    Shutdown,
}

/// The reactor state: the three token registries, the model of the OS
/// selector's registrations, and the token factory for accepted clients.
pub struct Handler {
    pub listeners: Registry<Listener>,
    pub pending_clients: Registry<PendingClient>,
    pub clients: Registry<Client>,
    pub selector: Registry<Interest>,
    pub factory: SequentialFactory,
}

impl Handler {
    /// Some registry holds this token.
    pub open spec fn owned(self, t: Token) -> bool {
        ||| self.listeners@.dom().contains(t)
        ||| self.pending_clients@.dom().contains(t)
        ||| self.clients@.dom().contains(t)
    }

    /// The reactor's invariants: registries are well-formed and pairwise
    /// disjoint; every registry entry has exactly one selector registration
    /// and vice versa; each registration carries the interest its entry
    /// calls for, with write interest mirroring `waiting_for_write`; and
    /// every client satisfies its write-accounting invariant.
    pub open spec fn wf(self) -> bool {
        &&& self.listeners.wf()
        &&& self.pending_clients.wf()
        &&& self.clients.wf()
        &&& self.selector.wf()
        &&& forall|t: Token| #[trigger] self.listeners@.dom().contains(t)
                ==> !self.pending_clients@.dom().contains(t) && !self.clients@.dom().contains(t)
        &&& forall|t: Token| #[trigger] self.pending_clients@.dom().contains(t)
                ==> !self.clients@.dom().contains(t)
        &&& forall|t: Token| #[trigger] self.listeners@.dom().contains(t)
                ==> self.selector@.dom().contains(t) && self.selector@[t] == rhe_interest()
        &&& forall|t: Token| #[trigger] self.pending_clients@.dom().contains(t)
                ==> self.selector@.dom().contains(t) && self.selector@[t] == whe_interest()
        &&& forall|t: Token| #[trigger] self.clients@.dom().contains(t)
                ==> self.selector@.dom().contains(t)
                    && self.selector@[t] == client_interest(self.clients@[t].waiting_for_write)
        &&& forall|t: Token| #[trigger] self.selector@.dom().contains(t) ==> self.owned(t)
        &&& forall|t: Token| #[trigger] self.clients@.dom().contains(t) ==> self.clients@[t].wf()
    }

    pub fn new(factory: SequentialFactory) -> (h: Handler)
        ensures
            h.wf(),
            h.listeners@ == Map::<Token, Listener>::empty(),
            h.pending_clients@ == Map::<Token, PendingClient>::empty(),
            h.clients@ == Map::<Token, Client>::empty(),
            h.selector@ == Map::<Token, Interest>::empty(),
            h.factory == factory,
    {
        Handler {
            listeners: Registry::new(),
            pending_clients: Registry::new(),
            clients: Registry::new(),
            selector: Registry::new(),
            factory,
        }
    }

    /// Which registry a token names right now.
    pub fn kind_of(&self, token: Token) -> (k: TokenKind)
        requires
            self.wf(),
        ensures
            k == (if self.listeners@.dom().contains(token) {
                TokenKind::Listener
            } else if self.pending_clients@.dom().contains(token) {
                TokenKind::Pending
            } else if self.clients@.dom().contains(token) {
                TokenKind::Client
            } else {
                TokenKind::Unknown
            }),
    {
        if self.listeners.contains(token) {
            TokenKind::Listener
        } else if self.pending_clients.contains(token) {
            TokenKind::Pending
        } else if self.clients.contains(token) {
            TokenKind::Client
        } else {
            TokenKind::Unknown
        }
    }

    fn is_owned(&self, token: Token) -> (r: bool)
        requires
            self.wf(),
        ensures
            r == self.owned(token),
    {
        self.listeners.contains(token) || self.pending_clients.contains(token)
            || self.clients.contains(token)
    }

    /// What [`Handler::proc_close`] does.
    pub open spec fn close_post(
        pre: Handler,
        post: Handler,
        token: Token,
        dirty: bool,
        reason: Option<IoErr>,
        outs: Seq<Output>,
        effs: Seq<Effect>,
    ) -> bool {
        &&& post.factory == pre.factory
        &&& post.pending_clients@ == pre.pending_clients@
        &&& if pre.clients@.dom().contains(token) {
            &&& post.clients@ == pre.clients@.remove(token)
            &&& post.listeners@ == pre.listeners@
            &&& post.selector@ == pre.selector@.remove(token)
            &&& outs.len() == 1
            &&& outs[0] == (if dirty {
                Output::DirtyClose { token, reason }
            } else {
                Output::Close { token }
            })
            &&& effs.len() == 1
            &&& effs[0] == (Effect::Deregister { token })
        } else if pre.listeners@.dom().contains(token) {
            &&& post.listeners@ == pre.listeners@.remove(token)
            &&& post.clients@ == pre.clients@
            &&& post.selector@ == pre.selector@.remove(token)
            &&& outs.len() == 1
            &&& outs[0] == (if dirty {
                Output::DirtyClose { token, reason }
            } else {
                Output::Close { token }
            })
            &&& effs.len() == 1
            &&& effs[0] == (Effect::Deregister { token })
        } else {
            &&& post == pre
            &&& outs.len() == 0
            &&& effs.len() == 0
        }
    }

    /// Close a connection or listener: deregister it, drop it, and tell the
    /// downstream.  A clean close emits `Close`; a dirty one emits
    /// `DirtyClose` carrying the reason.  A token that names neither a
    /// client nor a listener is a silent no-op.
    pub fn proc_close(&mut self, token: Token, dirty: bool, reason: Option<IoErr>) -> (r: (
        Vec<Output>,
        Vec<Effect>,
    ))
        requires
            old(self).wf(),
        ensures
            final(self).wf(),
            Handler::close_post(*old(self), *final(self), token, dirty, reason, r.0@, r.1@),
    {
        let mut outs: Vec<Output> = Vec::new();
        let mut effs: Vec<Effect> = Vec::new();
        match self.clients.remove(token) {
            Some(_client) => {
                let _ = self.selector.remove(token);
                if dirty {
                    outs.push(Output::DirtyClose { token, reason });
                } else {
                    outs.push(Output::Close { token });
                }
                effs.push(Effect::Deregister { token });
            },
            None => {
                match self.listeners.remove(token) {
                    Some(_listener) => {
                        let _ = self.selector.remove(token);
                        if dirty {
                            outs.push(Output::DirtyClose { token, reason });
                        } else {
                            outs.push(Output::Close { token });
                        }
                        effs.push(Effect::Deregister { token });
                    },
                    None => {},
                }
            },
        }
        (outs, effs)
    }

    /// What [`Handler::proc_listen_request`] does.
    pub open spec fn listen_request_post(
        pre: Handler,
        post: Handler,
        token: Token,
        addr: Addr,
        bind: Result<(), IoErr>,
        outs: Seq<Output>,
        effs: Seq<Effect>,
    ) -> bool {
        if pre.owned(token) {
            &&& post == pre
            &&& outs.len() == 0
            &&& effs.len() == 0
        } else {
            match bind {
                Result::Err(e) => {
                    &&& post == pre
                    &&& outs.len() == 1
                    &&& outs[0] == (Output::DirtyClose { token, reason: Some(e) })
                    &&& effs.len() == 0
                },
                Result::Ok(_) => {
                    &&& post.listeners@ == pre.listeners@.insert(token, Listener { addr })
                    &&& post.selector@ == pre.selector@.insert(token, rhe_interest())
                    &&& post.clients@ == pre.clients@
                    &&& post.pending_clients@ == pre.pending_clients@
                    &&& post.factory == pre.factory
                    &&& outs.len() == 1
                    &&& outs[0] == (Output::ListenResponse { listener: token })
                    &&& effs.len() == 1
                    &&& effs[0] == (Effect::Register { token, interest: rhe_interest() })
                },
            }
        }
    }

    /// Record the outcome of binding a listening socket for `token`.  On
    /// success the listener is installed and registered for read, hangup and
    /// error, and a `ListenResponse` is emitted; on failure a `DirtyClose`
    /// carrying the error is emitted.  A token already in use is ignored.
    pub fn proc_listen_request(&mut self, token: Token, addr: Addr, bind: Result<(), IoErr>) -> (r: (
        Vec<Output>,
        Vec<Effect>,
    ))
        requires
            old(self).wf(),
        ensures
            final(self).wf(),
            Handler::listen_request_post(*old(self), *final(self), token, addr, bind, r.0@, r.1@),
    {
        let mut outs: Vec<Output> = Vec::new();
        let mut effs: Vec<Effect> = Vec::new();
        if self.is_owned(token) {
            return (outs, effs);
        }
        match bind {
            Err(e) => {
                outs.push(Output::DirtyClose { token, reason: Some(e) });
            },
            Ok(()) => {
                self.listeners.insert(token, Listener::new(addr));
                self.selector.insert(token, Interest {
                    readable: true,
                    writable: false,
                    hup: true,
                    error: true,
                });
                outs.push(Output::ListenResponse { listener: token });
                effs.push(Effect::Register { token, interest: Interest {
                    readable: true,
                    writable: false,
                    hup: true,
                    error: true,
                } });
            },
        }
        (outs, effs)
    }

    /// Install a fresh client under `token`: record it with an empty
    /// buffer, zeroed statistics and no write interest, and give it a
    /// selector registration for read, hangup and error.  The caller emits
    /// the matching register or reregister effect.
    fn new_client(&mut self, token: Token, addr: Addr)
        requires
            old(self).wf(),
            !old(self).owned(token),
        ensures
            final(self).wf(),
            Handler::installed_client(old(self).clients@, final(self).clients@, token, addr),
            final(self).selector@ == old(self).selector@.insert(token, rhe_interest()),
            final(self).listeners@ == old(self).listeners@,
            final(self).pending_clients@ == old(self).pending_clients@,
            final(self).factory == old(self).factory,
    {
        self.clients.insert(token, Client::new(addr));
        self.selector.insert(token, Interest {
            readable: true,
            writable: false,
            hup: true,
            error: true,
        });
    }

    /// A map of clients grew by exactly one fresh entry at `token` with peer
    /// address `addr`: empty buffer, zeroed statistics, not waiting for
    /// write.
    pub open spec fn installed_client(
        pre: Map<Token, Client>,
        post: Map<Token, Client>,
        token: Token,
        addr: Addr,
    ) -> bool {
        &&& post.dom().contains(token)
        &&& post[token].addr == addr
        &&& post[token].stats == Statistics::zero()
        &&& post[token].write_buffer@ == Seq::<u8>::empty()
        &&& post[token].waiting_for_write == false
        &&& forall|t: Token|
            #[trigger] post.dom().contains(t) && t != token ==> pre.dom().contains(t) && post[t]
                == pre[t]
        &&& forall|t: Token| #[trigger] pre.dom().contains(t) ==> post.dom().contains(t)
    }

    /// What [`Handler::proc_connect_request`] does.
    pub open spec fn connect_request_post(
        pre: Handler,
        post: Handler,
        token: Token,
        addr: Addr,
        outcome: Result<ConnectStart, IoErr>,
        outs: Seq<Output>,
        effs: Seq<Effect>,
    ) -> bool {
        if pre.owned(token) {
            &&& post == pre
            &&& outs.len() == 0
            &&& effs.len() == 0
        } else {
            match outcome {
                Result::Err(e) => {
                    &&& post == pre
                    &&& outs.len() == 1
                    &&& outs[0] == (Output::DirtyClose { token, reason: Some(e) })
                    &&& effs.len() == 0
                },
                Result::Ok(ConnectStart::Complete) => {
                    &&& Handler::installed_client(pre.clients@, post.clients@, token, addr)
                    &&& post.selector@ == pre.selector@.insert(token, rhe_interest())
                    &&& post.listeners@ == pre.listeners@
                    &&& post.pending_clients@ == pre.pending_clients@
                    &&& post.factory == pre.factory
                    &&& outs.len() == 1
                    &&& outs[0] == (Output::ConnectResponse { token })
                    &&& effs.len() == 1
                    &&& effs[0] == (Effect::Register { token, interest: rhe_interest() })
                },
                Result::Ok(ConnectStart::InProgress) => {
                    &&& post.pending_clients@ == pre.pending_clients@.insert(token, PendingClient { addr })
                    &&& post.selector@ == pre.selector@.insert(token, whe_interest())
                    &&& post.listeners@ == pre.listeners@
                    &&& post.clients@ == pre.clients@
                    &&& post.factory == pre.factory
                    &&& outs.len() == 0
                    &&& effs.len() == 1
                    &&& effs[0] == (Effect::Register { token, interest: whe_interest() })
                },
            }
        }
    }

    /// Record the outcome of starting a non-blocking connect for `token`.
    /// A connect the OS reports complete installs the client at once and
    /// emits `ConnectResponse`; one in progress is registered for writable
    /// interest and parked among the pending clients; a failure emits a
    /// `DirtyClose` carrying the error.  A token already in use is ignored.
    pub fn proc_connect_request(
        &mut self,
        token: Token,
        addr: Addr,
        outcome: Result<ConnectStart, IoErr>,
    ) -> (r: (Vec<Output>, Vec<Effect>))
        requires
            old(self).wf(),
        ensures
            final(self).wf(),
            Handler::connect_request_post(*old(self), *final(self), token, addr, outcome, r.0@, r.1@),
    {
        let mut outs: Vec<Output> = Vec::new();
        let mut effs: Vec<Effect> = Vec::new();
        if self.is_owned(token) {
            return (outs, effs);
        }
        match outcome {
            Err(e) => {
                outs.push(Output::DirtyClose { token, reason: Some(e) });
            },
            Ok(ConnectStart::Complete) => {
                self.new_client(token, addr);
                outs.push(Output::ConnectResponse { token });
                effs.push(Effect::Register { token, interest: Interest {
                    readable: true,
                    writable: false,
                    hup: true,
                    error: true,
                } });
            },
            Ok(ConnectStart::InProgress) => {
                self.pending_clients.insert(token, PendingClient { addr });
                self.selector.insert(token, Interest {
                    readable: false,
                    writable: true,
                    hup: true,
                    error: true,
                });
                effs.push(Effect::Register { token, interest: Interest {
                    readable: false,
                    writable: true,
                    hup: true,
                    error: true,
                } });
            },
        }
        (outs, effs)
    }

    /// A map changed at most at `token`, which now holds `v`; every other
    /// entry is untouched.
    pub open spec fn map_updated_at<V>(
        pre: Map<Token, V>,
        post: Map<Token, V>,
        token: Token,
        v: V,
    ) -> bool {
        &&& post.dom().contains(token)
        &&& post[token] == v
        &&& forall|t: Token| #[trigger] pre.dom().contains(t) ==> post.dom().contains(t)
        &&& forall|t: Token| #[trigger] post.dom().contains(t) ==> pre.dom().contains(t) || t == token
        &&& forall|t: Token|
            #[trigger] post.dom().contains(t) && t != token ==> pre.dom().contains(t) && post[t]
                == pre[t]
    }

    /// What [`Handler::proc_data`] does.
    pub open spec fn data_post(
        pre: Handler,
        post: Handler,
        token: Token,
        data: Seq<u8>,
        outs: Seq<Output>,
        effs: Seq<Effect>,
    ) -> bool {
        if pre.clients@.dom().contains(token) {
            &&& Handler::map_updated_at(pre.clients@, post.clients@, token, post.clients@[token])
            &&& Client::queue_write_post(pre.clients@[token], post.clients@[token], data)
            &&& post.listeners@ == pre.listeners@
            &&& post.pending_clients@ == pre.pending_clients@
            &&& post.selector@ == pre.selector@
            &&& post.factory == pre.factory
            &&& outs.len() == 0
            &&& effs.len() == 1
            &&& effs[0] is Flush
            &&& effs[0]->Flush_token == token
            &&& effs[0]->Flush_data@ == post.clients@[token].write_buffer@
        } else {
            &&& post == pre
            &&& outs.len() == 0
            &&& effs.len() == 0
        }
    }

    /// Queue data on a client's write buffer and schedule one flush attempt:
    /// the returned `Flush` effect carries a copy of the whole buffer, and
    /// the event loop reports the write's outcome through
    /// [`Handler::try_flush`].  A token that names no client is a silent
    /// no-op.
    pub fn proc_data(&mut self, token: Token, data: Vec<u8>) -> (r: (Vec<Output>, Vec<Effect>))
        requires
            old(self).wf(),
            old(self).clients@.dom().contains(token) ==> old(self).clients@[token].stats.bytes_written_queued
                + data@.len() <= u64::MAX,
        ensures
            final(self).wf(),
            Handler::data_post(*old(self), *final(self), token, data@, r.0@, r.1@),
    {
        let outs: Vec<Output> = Vec::new();
        let mut effs: Vec<Effect> = Vec::new();
        match self.clients.remove(token) {
            Some(mut client) => {
                client.queue_write(&data);
                let buffer = client.buffered();
                self.clients.insert(token, client);
                effs.push(Effect::Flush { token, data: buffer });
            },
            None => {},
        }
        (outs, effs)
    }

    /// Whether a client should be waiting for writability after a flush
    /// attempt with outcome `wrote` left it with buffer `buf_after`: yes on
    /// would-block, and also when the OS accepted zero bytes while data
    /// remains buffered (else no further writable wake would arrive and the
    /// output would stall).
    pub open spec fn wants_write(buf_after: Seq<u8>, wrote: Option<usize>) -> bool {
        match wrote {
            None => true,
            Some(n) => n == 0 && buf_after.len() > 0,
        }
    }

    /// What [`Handler::try_flush`] does: the central flush protocol.
    pub open spec fn try_flush_post(
        pre: Handler,
        post: Handler,
        token: Token,
        wrote: Result<Option<usize>, IoErr>,
        outs: Seq<Output>,
        effs: Seq<Effect>,
    ) -> bool {
        if !pre.clients@.dom().contains(token) {
            &&& post == pre
            &&& outs.len() == 0
            &&& effs.len() == 0
        } else {
            match wrote {
                Result::Err(e) => {
                    &&& post.clients@ == pre.clients@.remove(token)
                    &&& post.selector@ == pre.selector@.remove(token)
                    &&& post.listeners@ == pre.listeners@
                    &&& post.pending_clients@ == pre.pending_clients@
                    &&& post.factory == pre.factory
                    &&& outs.len() == 1
                    &&& outs[0] == (Output::DirtyClose { token, reason: Some(e) })
                    &&& effs.len() == 1
                    &&& effs[0] == (Effect::Deregister { token })
                },
                Result::Ok(w) => {
                    let c0 = pre.clients@[token];
                    let c1 = post.clients@[token];
                    &&& Handler::map_updated_at(pre.clients@, post.clients@, token, c1)
                    &&& c1.addr == c0.addr
                    &&& c1.stats.bytes_read == c0.stats.bytes_read
                    &&& c1.stats.bytes_written_queued == c0.stats.bytes_written_queued
                    &&& match w {
                        None => {
                            &&& c1.write_buffer@ == c0.write_buffer@
                            &&& c1.stats.bytes_written == c0.stats.bytes_written
                            &&& c1.stats.blocked_writes == c0.stats.blocked_writes + 1
                        },
                        Some(n) => {
                            &&& c1.write_buffer@ == c0.write_buffer@.skip(n as int)
                            &&& c1.stats.bytes_written == c0.stats.bytes_written + n
                            &&& c1.stats.blocked_writes == c0.stats.blocked_writes
                        },
                    }
                    &&& c1.waiting_for_write == Handler::wants_write(c1.write_buffer@, w)
                    &&& Handler::map_updated_at(
                        pre.selector@,
                        post.selector@,
                        token,
                        client_interest(c1.waiting_for_write),
                    )
                    &&& post.listeners@ == pre.listeners@
                    &&& post.pending_clients@ == pre.pending_clients@
                    &&& post.factory == pre.factory
                    &&& outs.len() == 0
                    &&& if c1.waiting_for_write != c0.waiting_for_write {
                        effs.len() == 1 && effs[0] == (Effect::Reregister {
                            token,
                            interest: client_interest(c1.waiting_for_write),
                        })
                    } else {
                        effs.len() == 0
                    }
                },
            }
        }
    }

    /// The flush protocol.  `wrote` is the outcome of the one non-blocking
    /// write the event loop attempted: `Ok(Some(n))` for `n` bytes accepted,
    /// `Ok(None)` for would-block, `Err` for a write error.  Would-block —
    /// and an accepted write of zero bytes with data still buffered — turn
    /// write interest on; any other accepted write turns it off.  A write
    /// error is a dirty disconnect carrying the error.  The flush protocol
    /// emits no `Flush` effect, so it never re-enters itself.
    pub fn try_flush(&mut self, token: Token, wrote: Result<Option<usize>, IoErr>) -> (r: (
        Vec<Output>,
        Vec<Effect>,
    ))
        requires
            old(self).wf(),
            old(self).clients@.dom().contains(token) ==> match wrote {
                Result::Ok(Some(n)) => n <= old(self).clients@[token].write_buffer@.len(),
                Result::Ok(None) => old(self).clients@[token].stats.blocked_writes < u64::MAX,
                Result::Err(_) => true,
            },
        ensures
            final(self).wf(),
            Handler::try_flush_post(*old(self), *final(self), token, wrote, r.0@, r.1@),
            forall|i: int| 0 <= i < r.1@.len() ==> !(#[trigger] r.1@[i] is Flush),
    {
        let mut outs: Vec<Output> = Vec::new();
        let mut effs: Vec<Effect> = Vec::new();
        match self.clients.remove(token) {
            None => {},
            Some(mut client) => {
                match wrote {
                    Err(e) => {
                        let _ = self.selector.remove(token);
                        outs.push(Output::DirtyClose { token, reason: Some(e) });
                        effs.push(Effect::Deregister { token });
                    },
                    Ok(w) => {
                        let res = client.flush_write(w);
                        let want = match res {
                            OperationResult::WouldBlock => true,
                            OperationResult::Success(n) => n == 0 && client.write_buffer.len() > 0,
                        };
                        if want != client.waiting_for_write {
                            client.waiting_for_write = want;
                            let interest = Interest {
                                readable: true,
                                writable: want,
                                hup: true,
                                error: true,
                            };
                            let _ = self.selector.remove(token);
                            self.selector.insert(token, interest);
                            effs.push(Effect::Reregister { token, interest });
                        }
                        self.clients.insert(token, client);
                    },
                }
            },
        }
        (outs, effs)
    }

    /// What [`Handler::readable`] does.
    pub open spec fn readable_post(
        pre: Handler,
        post: Handler,
        token: Token,
        hint: ReadHint,
        read: Result<Vec<Vec<u8>>, IoErr>,
        outs: Seq<Output>,
        effs: Seq<Effect>,
    ) -> bool {
        if !pre.clients@.dom().contains(token) {
            &&& post == pre
            &&& outs.len() == 0
            &&& effs.len() == 0
        } else if hint.error {
            &&& post.clients@ == pre.clients@.remove(token)
            &&& post.selector@ == pre.selector@.remove(token)
            &&& post.listeners@ == pre.listeners@
            &&& post.pending_clients@ == pre.pending_clients@
            &&& post.factory == pre.factory
            &&& outs.len() == 1
            &&& outs[0] == (Output::DirtyClose { token, reason: None })
            &&& effs.len() == 1
            &&& effs[0] == (Effect::Deregister { token })
        } else {
            match read {
                Result::Err(e) => {
                    &&& post.clients@ == pre.clients@.remove(token)
                    &&& post.selector@ == pre.selector@.remove(token)
                    &&& post.listeners@ == pre.listeners@
                    &&& post.pending_clients@ == pre.pending_clients@
                    &&& post.factory == pre.factory
                    &&& outs.len() == 1
                    &&& outs[0] == (Output::DirtyClose { token, reason: Some(e) })
                    &&& effs.len() == 1
                    &&& effs[0] == (Effect::Deregister { token })
                },
                Result::Ok(chunks) => {
                    let data = concat_of(chunk_views(chunks@));
                    let data_outs: int = if data.len() > 0 { 1 } else { 0 };
                    &&& data.len() > 0 ==> outs[0] is Data && outs[0]->Data_token == token
                        && outs[0]->Data_data@ == data
                    &&& if hint.hup {
                        &&& post.clients@ == pre.clients@.remove(token)
                        &&& post.selector@ == pre.selector@.remove(token)
                        &&& outs.len() == data_outs + 1
                        &&& outs[data_outs] == (Output::Close { token })
                        &&& effs.len() == 1
                        &&& effs[0] == (Effect::Deregister { token })
                    } else {
                        &&& Handler::map_updated_at(
                            pre.clients@,
                            post.clients@,
                            token,
                            post.clients@[token],
                        )
                        &&& Client::try_read_all_post(
                            pre.clients@[token],
                            post.clients@[token],
                            chunk_views(chunks@),
                            data,
                        )
                        &&& post.selector@ == pre.selector@
                        &&& outs.len() == data_outs
                        &&& effs.len() == 0
                    }
                    &&& post.listeners@ == pre.listeners@
                    &&& post.pending_clients@ == pre.pending_clients@
                    &&& post.factory == pre.factory
                },
            }
        }
    }

    /// A readable callback for a client.  `hint` carries the selector's
    /// error and hangup hints; `read` is what the event loop drained from
    /// the socket (the chunks read before would-block or a zero read), or
    /// the read error.  An error hint or a read error is a dirty
    /// disconnect.  Otherwise the drained bytes, if any, go downstream as
    /// one `Data` message, and a hangup hint then closes the client
    /// cleanly.  A token that names no client is a silent no-op; a
    /// listener's readable event goes to [`Handler::accept`] instead.
    pub fn readable(&mut self, token: Token, hint: ReadHint, read: Result<Vec<Vec<u8>>, IoErr>) -> (r: (
        Vec<Output>,
        Vec<Effect>,
    ))
        requires
            old(self).wf(),
            old(self).clients@.dom().contains(token) && !hint.error ==> match read {
                Result::Ok(chunks) => old(self).clients@[token].stats.bytes_read + concat_of(
                    chunk_views(chunks@),
                ).len() <= u64::MAX,
                Result::Err(_) => true,
            },
        ensures
            final(self).wf(),
            Handler::readable_post(*old(self), *final(self), token, hint, read, r.0@, r.1@),
    {
        let mut outs: Vec<Output> = Vec::new();
        let mut effs: Vec<Effect> = Vec::new();
        match self.clients.remove(token) {
            None => {},
            Some(mut client) => {
                if hint.error {
                    let _ = self.selector.remove(token);
                    outs.push(Output::DirtyClose { token, reason: None });
                    effs.push(Effect::Deregister { token });
                } else {
                    match read {
                        Err(e) => {
                            let _ = self.selector.remove(token);
                            outs.push(Output::DirtyClose { token, reason: Some(e) });
                            effs.push(Effect::Deregister { token });
                        },
                        Ok(chunks) => {
                            let data = client.try_read_all(&chunks);
                            if data.len() > 0 {
                                outs.push(Output::Data { token, data });
                            }
                            if hint.hup {
                                let _ = self.selector.remove(token);
                                outs.push(Output::Close { token });
                                effs.push(Effect::Deregister { token });
                            } else {
                                self.clients.insert(token, client);
                            }
                        },
                    }
                }
            },
        }
        (outs, effs)
    }

    /// What [`Handler::accept`] does.
    pub open spec fn accept_post(
        pre: Handler,
        post: Handler,
        listener_token: Token,
        outcome: Result<Option<Addr>, IoErr>,
        outs: Seq<Output>,
        effs: Seq<Effect>,
    ) -> bool {
        if !pre.listeners@.dom().contains(listener_token) {
            &&& post == pre
            &&& outs.len() == 0
            &&& effs.len() == 0
        } else {
            match outcome {
                Result::Err(_) => {
                    &&& post == pre
                    &&& outs.len() == 0
                    &&& effs.len() == 0
                },
                Result::Ok(None) => {
                    &&& post == pre
                    &&& outs.len() == 0
                    &&& effs.len() == 0
                },
                Result::Ok(Some(addr)) => {
                    let t = Token(pre.factory.next);
                    &&& post.factory.next == pre.factory.next + 1
                    &&& if pre.owned(t) {
                        &&& post.listeners@ == pre.listeners@
                        &&& post.pending_clients@ == pre.pending_clients@
                        &&& post.clients@ == pre.clients@
                        &&& post.selector@ == pre.selector@
                        &&& outs.len() == 0
                        &&& effs.len() == 0
                    } else {
                        &&& Handler::installed_client(pre.clients@, post.clients@, t, addr)
                        &&& post.selector@ == pre.selector@.insert(t, rhe_interest())
                        &&& post.listeners@ == pre.listeners@
                        &&& post.pending_clients@ == pre.pending_clients@
                        &&& outs.len() == 1
                        &&& outs[0] == (Output::ConnectRequest { listener: listener_token, client: t, addr })
                        &&& effs.len() == 1
                        &&& effs[0] == (Effect::Register { token: t, interest: rhe_interest() })
                    }
                },
            }
        }
    }

    /// A readable callback for a listener: one accept was attempted.
    /// `outcome` is `Ok(Some(addr))` for an accepted connection with peer
    /// address `addr`, `Ok(None)` for would-block, `Err` for an accept or
    /// peer-address failure (logged by the event loop, not fatal, no state
    /// change).  On success a token is minted for the new client, the
    /// client is installed and registered, and a `ConnectRequest` accept
    /// notification goes downstream.  A minted token that collides with a
    /// consumer-supplied one drops the connection instead of corrupting the
    /// registries.
    pub fn accept(&mut self, listener_token: Token, outcome: Result<Option<Addr>, IoErr>) -> (r: (
        Vec<Output>,
        Vec<Effect>,
    ))
        requires
            old(self).wf(),
            old(self).factory.next < usize::MAX,
        ensures
            final(self).wf(),
            Handler::accept_post(*old(self), *final(self), listener_token, outcome, r.0@, r.1@),
    {
        let mut outs: Vec<Output> = Vec::new();
        let mut effs: Vec<Effect> = Vec::new();
        if !self.listeners.contains(listener_token) {
            return (outs, effs);
        }
        match outcome {
            Err(_e) => {},
            Ok(None) => {},
            Ok(Some(addr)) => {
                let token = self.factory.produce();
                if !self.is_owned(token) {
                    self.new_client(token, addr);
                    outs.push(Output::ConnectRequest { listener: listener_token, client: token, addr });
                    effs.push(Effect::Register { token, interest: Interest {
                        readable: true,
                        writable: false,
                        hup: true,
                        error: true,
                    } });
                }
            },
        }
        (outs, effs)
    }

    /// What [`Handler::writable`] does.
    pub open spec fn writable_post(
        pre: Handler,
        post: Handler,
        token: Token,
        outs: Seq<Output>,
        effs: Seq<Effect>,
    ) -> bool {
        if pre.clients@.dom().contains(token) {
            &&& post == pre
            &&& outs.len() == 0
            &&& if pre.clients@[token].waiting_for_write {
                &&& effs.len() == 1
                &&& effs[0] is Flush
                &&& effs[0]->Flush_token == token
                &&& effs[0]->Flush_data@ == pre.clients@[token].write_buffer@
            } else {
                effs.len() == 0
            }
        } else if pre.pending_clients@.dom().contains(token) {
            &&& Handler::installed_client(
                pre.clients@,
                post.clients@,
                token,
                pre.pending_clients@[token].addr,
            )
            &&& post.pending_clients@ == pre.pending_clients@.remove(token)
            &&& Handler::map_updated_at(pre.selector@, post.selector@, token, rhe_interest())
            &&& post.listeners@ == pre.listeners@
            &&& post.factory == pre.factory
            &&& outs.len() == 1
            &&& outs[0] == (Output::ConnectResponse { token })
            &&& effs.len() == 1
            &&& effs[0] == (Effect::Reregister { token, interest: rhe_interest() })
        } else {
            &&& post == pre
            &&& outs.len() == 0
            &&& effs.len() == 0
        }
    }

    /// A writable callback.  For a pending client this is the
    /// connect-completion path: the client is promoted to established,
    /// reregistered for read, hangup and error, and a `ConnectResponse`
    /// goes downstream.  For an established client that is waiting for
    /// writability, one flush attempt is scheduled (a `Flush` effect whose
    /// outcome comes back through [`Handler::try_flush`]); one that is not
    /// waiting is a spurious wake and a no-op, as is an unknown token.
    pub fn writable(&mut self, token: Token) -> (r: (Vec<Output>, Vec<Effect>))
        requires
            old(self).wf(),
        ensures
            final(self).wf(),
            Handler::writable_post(*old(self), *final(self), token, r.0@, r.1@),
    {
        let mut outs: Vec<Output> = Vec::new();
        let mut effs: Vec<Effect> = Vec::new();
        match self.clients.get(token) {
            Some(client) => {
                if client.waiting_for_write {
                    let buffer = client.buffered();
                    effs.push(Effect::Flush { token, data: buffer });
                }
            },
            None => {
                match self.pending_clients.remove(token) {
                    Some(pending) => {
                        let _ = self.selector.remove(token);
                        self.new_client(token, pending.addr);
                        outs.push(Output::ConnectResponse { token });
                        effs.push(Effect::Reregister { token, interest: Interest {
                            readable: true,
                            writable: false,
                            hup: true,
                            error: true,
                        } });
                    },
                    None => {},
                }
            },
        }
        (outs, effs)
    }

    /// Deregister every client: empty the client registry and withdraw each
    /// client's selector registration, in registry order.  Listeners and
    /// pending clients stay put.
    fn deregister_clients(&mut self) -> (r: (Vec<Token>, Vec<Effect>))
        requires
            old(self).wf(),
        ensures
            final(self).wf(),
            r.0@.len() == old(self).clients.seq().len(),
            forall|i: int|
                0 <= i < r.0@.len() ==> r.0@[i] == (#[trigger] old(self).clients.seq()[i]).0,
            r.1@.len() == r.0@.len(),
            forall|i: int|
                0 <= i < r.1@.len() ==> #[trigger] r.1@[i] == (Effect::Deregister {
                    token: r.0@[i],
                }),
            final(self).clients@ == Map::<Token, Client>::empty(),
            final(self).clients.seq() == Seq::<(Token, Client)>::empty(),
            final(self).listeners@ == old(self).listeners@,
            final(self).pending_clients@ == old(self).pending_clients@,
            final(self).factory == old(self).factory,
            forall|t: Token|
                #[trigger] final(self).selector@.dom().contains(t) ==> old(self).selector@.dom().contains(t)
                    && !old(self).clients@.dom().contains(t) && final(self).selector@[t] == old(
                    self,
                ).selector@[t],
            forall|t: Token|
                old(self).selector@.dom().contains(t) && !old(self).clients@.dom().contains(t)
                    ==> #[trigger] final(self).selector@.dom().contains(t),
    {
        let ghost pre = *old(self);
        let drained = self.clients.drain();
        let mut tokens: Vec<Token> = Vec::new();
        let mut effs: Vec<Effect> = Vec::new();
        let n = drained.len();
        let mut i: usize = 0;
        while i < n
            invariant
                n == drained@.len(),
                i <= n,
                drained@ == pre.clients.seq(),
                pre.clients.wf(),
                pre.wf(),
                self.clients@ == Map::<Token, Client>::empty(),
                self.clients.seq() == Seq::<(Token, Client)>::empty(),
                self.clients.wf(),
                self.selector.wf(),
                self.listeners == pre.listeners,
                self.pending_clients == pre.pending_clients,
                self.factory == pre.factory,
                tokens@.len() == i,
                forall|j: int| 0 <= j < i ==> tokens@[j] == (#[trigger] drained@[j]).0,
                effs@.len() == i,
                forall|j: int|
                    0 <= j < i ==> #[trigger] effs@[j] == (Effect::Deregister {
                        token: drained@[j].0,
                    }),
                forall|t: Token|
                    #[trigger] self.selector@.dom().contains(t) ==> pre.selector@.dom().contains(t)
                        && self.selector@[t] == pre.selector@[t] && !(exists|j: int|
                        0 <= j < i && (#[trigger] drained@[j]).0 == t),
                forall|t: Token|
                    pre.selector@.dom().contains(t) && !(exists|j: int|
                        0 <= j < i && (#[trigger] drained@[j]).0 == t)
                        ==> #[trigger] self.selector@.dom().contains(t),
            decreases n - i,
        {
            let token = drained[i].0;
            proof {
                pre.clients.lemma_seq_index(i as int);
            }
            let _ = self.selector.remove(token);
            tokens.push(token);
            effs.push(Effect::Deregister { token });
            i = i + 1;
        }
        proof {
            pre.clients.lemma_view_seq();
            assert forall|t: Token| #[trigger] self.selector@.dom().contains(t) implies
                pre.selector@.dom().contains(t) && !pre.clients@.dom().contains(t)
                    && self.selector@[t] == pre.selector@[t]
            by {
                if pre.clients@.dom().contains(t) {
                    let j = choose|j: int|
                        0 <= j < pre.clients.seq().len() && (#[trigger] pre.clients.seq()[j]).0 == t;
                    assert(drained@[j].0 == t);
                }
            }
            assert forall|t: Token|
                pre.selector@.dom().contains(t) && !pre.clients@.dom().contains(t) implies
                #[trigger] self.selector@.dom().contains(t)
            by {
                if exists|j: int| 0 <= j < n && (#[trigger] drained@[j]).0 == t {
                    let j = choose|j: int| 0 <= j < n && (#[trigger] drained@[j]).0 == t;
                    assert(pre.clients.seq()[j].0 == t);
                }
            }
        }
        (tokens, effs)
    }

    /// What [`Handler::proc_shutdown`] does.
    pub open spec fn shutdown_post(
        pre: Handler,
        post: Handler,
        outs: Seq<Output>,
        effs: Seq<Effect>,
    ) -> bool {
        &&& post.clients@ == Map::<Token, Client>::empty()
        &&& post.clients.seq() == Seq::<(Token, Client)>::empty()
        &&& post.listeners@ == pre.listeners@
        &&& post.pending_clients@ == pre.pending_clients@
        &&& post.factory == pre.factory
        &&& outs.len() == pre.clients.seq().len()
        &&& forall|i: int|
            0 <= i < outs.len() ==> #[trigger] outs[i] == (Output::Close {
                token: pre.clients.seq()[i].0,
            })
        &&& effs.len() == outs.len() + 1
        &&& forall|i: int|
            0 <= i < outs.len() ==> #[trigger] effs[i] == (Effect::Deregister {
                token: pre.clients.seq()[i].0,
            })
        &&& effs[effs.len() - 1] == Effect::Shutdown
        &&& forall|t: Token|
            #[trigger] post.selector@.dom().contains(t) ==> pre.selector@.dom().contains(t)
                && !pre.clients@.dom().contains(t) && post.selector@[t] == pre.selector@[t]
        &&& forall|t: Token|
            pre.selector@.dom().contains(t) && !pre.clients@.dom().contains(t)
                ==> #[trigger] post.selector@.dom().contains(t)
    }

    /// Shut the reactor down: deregister and drop every client, emit one
    /// `Close` per dropped client, and tell the event loop to stop.
    pub fn proc_shutdown(&mut self) -> (r: (Vec<Output>, Vec<Effect>))
        requires
            old(self).wf(),
        ensures
            final(self).wf(),
            Handler::shutdown_post(*old(self), *final(self), r.0@, r.1@),
    {
        let (tokens, mut effs) = self.deregister_clients();
        let mut outs: Vec<Output> = Vec::new();
        let n = tokens.len();
        let mut i: usize = 0;
        while i < n
            invariant
                n == tokens@.len(),
                i <= n,
                outs@.len() == i,
                forall|j: int|
                    0 <= j < i ==> #[trigger] outs@[j] == (Output::Close { token: tokens@[j] }),
            decreases n - i,
        {
            outs.push(Output::Close { token: tokens[i] });
            i = i + 1;
        }
        effs.push(Effect::Shutdown);
        (outs, effs)
    }

    /// Snapshot a client's statistics.  A request for a token that names no
    /// client emits nothing.
    pub fn proc_stats_request(&self, token: Token) -> (outs: Vec<Output>)
        requires
            self.wf(),
        ensures
            self.clients@.dom().contains(token) ==> outs@.len() == 1
                && outs@[0] == (Output::StatisticsResponse { token, stats: self.clients@[token].stats }),
            !self.clients@.dom().contains(token) ==> outs@.len() == 0,
    {
        let mut outs: Vec<Output> = Vec::new();
        match self.clients.get(token) {
            Some(c) => {
                let stats = c.stats;
                outs.push(Output::StatisticsResponse { token, stats });
            },
            None => {},
        }
        outs
    }

    /// What [`Handler::notify`] does: dispatch one input message.
    pub open spec fn notify_post(
        pre: Handler,
        post: Handler,
        message: Input,
        outs: Seq<Output>,
        effs: Seq<Effect>,
    ) -> bool {
        match message {
            Input::ListenRequest { listener, addr } => {
                &&& post == pre
                &&& outs.len() == 0
                &&& effs.len() == 1
                &&& effs[0] == (Effect::OpenListener { token: listener, addr })
            },
            Input::ConnectRequest { token, addr } => {
                &&& post == pre
                &&& outs.len() == 0
                &&& effs.len() == 1
                &&& effs[0] == (Effect::OpenConnection { token, addr })
            },
            Input::Data { token, data } => Handler::data_post(pre, post, token, data@, outs, effs),
            Input::StatisticsRequest { token } => {
                &&& post == pre
                &&& effs.len() == 0
                &&& pre.clients@.dom().contains(token) ==> outs.len() == 1 && outs[0]
                    == (Output::StatisticsResponse { token, stats: pre.clients@[token].stats })
                &&& !pre.clients@.dom().contains(token) ==> outs.len() == 0
            },
            Input::Close { token, dirty } => Handler::close_post(
                pre,
                post,
                token,
                dirty,
                None,
                outs,
                effs,
            ),
            Input::Shutdown => Handler::shutdown_post(pre, post, outs, effs),
        }
    }

    /// Dispatch one input message from the consumer.  Requests that must
    /// open a socket first (`ListenRequest`, `ConnectRequest`) come back as
    /// `OpenListener` / `OpenConnection` effects whose outcomes the event
    /// loop reports through [`Handler::proc_listen_request`] and
    /// [`Handler::proc_connect_request`]; the rest are handled in place.
    pub fn notify(&mut self, message: Input) -> (r: (Vec<Output>, Vec<Effect>))
        requires
            old(self).wf(),
            message matches Input::Data { token, data } ==> (old(self).clients@.dom().contains(
                token,
            ) ==> old(self).clients@[token].stats.bytes_written_queued + data@.len() <= u64::MAX),
        ensures
            final(self).wf(),
            Handler::notify_post(*old(self), *final(self), message, r.0@, r.1@),
    {
        match message {
            Input::ListenRequest { listener, addr } => {
                let outs: Vec<Output> = Vec::new();
                let mut effs: Vec<Effect> = Vec::new();
                effs.push(Effect::OpenListener { token: listener, addr });
                (outs, effs)
            },
            Input::ConnectRequest { token, addr } => {
                let outs: Vec<Output> = Vec::new();
                let mut effs: Vec<Effect> = Vec::new();
                effs.push(Effect::OpenConnection { token, addr });
                (outs, effs)
            },
            Input::Data { token, data } => self.proc_data(token, data),
            Input::StatisticsRequest { token } => {
                let outs = self.proc_stats_request(token);
                (outs, Vec::new())
            },
            Input::Close { token, dirty } => self.proc_close(token, dirty, None),
            Input::Shutdown => self.proc_shutdown(),
        }
    }
}

/// Law: token disjointness.  In every reachable reactor state a token
/// belongs to at most one of the three registries.
pub proof fn lemma_token_disjoint(h: Handler, t: Token)
    requires
        h.wf(),
    ensures
        !(h.listeners@.dom().contains(t) && h.pending_clients@.dom().contains(t)),
        !(h.listeners@.dom().contains(t) && h.clients@.dom().contains(t)),
        !(h.pending_clients@.dom().contains(t) && h.clients@.dom().contains(t)),
{
}

/// Law: write accounting, lifted to the reactor.  Every client in every
/// reachable reactor state satisfies
/// `bytes_written_queued == bytes_written + buffer length`.
pub proof fn lemma_reactor_write_accounting(h: Handler, t: Token)
    requires
        h.wf(),
        h.clients@.dom().contains(t),
    ensures
        h.clients@[t].stats.bytes_written_queued == h.clients@[t].stats.bytes_written
            + h.clients@[t].write_buffer@.len(),
{
}

/// Law: write-interest correspondence.  The selector registration of every
/// client has writable interest enabled exactly when `waiting_for_write` is
/// set; readable, hangup and error interest are always enabled.
pub proof fn lemma_write_interest_correspondence(h: Handler, t: Token)
    requires
        h.wf(),
        h.clients@.dom().contains(t),
    ensures
        h.selector@.dom().contains(t),
        h.selector@[t].writable == h.clients@[t].waiting_for_write,
        h.selector@[t].readable,
        h.selector@[t].hup,
        h.selector@[t].error,
{
}

/// Law: registration correspondence.  Every registry entry has exactly one
/// selector registration under the same token, and every selector
/// registration has a registry entry.
pub proof fn lemma_registration_correspondence(h: Handler, t: Token)
    requires
        h.wf(),
    ensures
        h.selector@.dom().contains(t) <==> (h.listeners@.dom().contains(t)
            || h.pending_clients@.dom().contains(t) || h.clients@.dom().contains(t)),
{
}

/// Law: shutdown emits exactly one `Close` per live client — one output per
/// entry of the client registry, whose tokens are pairwise distinct — and
/// is idempotent in effect: a second shutdown finds no clients, emits no
/// `Close`, and only stops the loop again.
pub proof fn lemma_shutdown_idempotent(
    h0: Handler,
    h1: Handler,
    h2: Handler,
    o1: Seq<Output>,
    e1: Seq<Effect>,
    o2: Seq<Output>,
    e2: Seq<Effect>,
)
    requires
        h0.wf(),
        Handler::shutdown_post(h0, h1, o1, e1),
        Handler::shutdown_post(h1, h2, o2, e2),
    ensures
        o1.len() == h0.clients.seq().len(),
        forall|i: int|
            0 <= i < o1.len() ==> #[trigger] o1[i] == (Output::Close {
                token: h0.clients.seq()[i].0,
            }),
        forall|i: int, j: int|
            0 <= i < j < o1.len() ==> h0.clients.seq()[i].0 != h0.clients.seq()[j].0,
        o2.len() == 0,
        e2.len() == 1,
        e2[0] == Effect::Shutdown,
{
}

/// Law: echo round trip at the reactor.  A client starts with an empty
/// buffer; the consumer sends two byte chunks as `Data` inputs; one flush
/// has the whole buffer accepted by the kernel; an echo peer hands the same
/// bytes back, in chunks of its choosing, as one readable event.  The
/// reactor then emits exactly one `Data` output for the token, carrying the
/// concatenation of the queued chunks.
pub proof fn lemma_reactor_echo_round_trip(
    h0: Handler,
    h1: Handler,
    h2: Handler,
    h3: Handler,
    h4: Handler,
    token: Token,
    d1: Seq<u8>,
    d2: Seq<u8>,
    o1: Seq<Output>,
    e1: Seq<Effect>,
    o2: Seq<Output>,
    e2: Seq<Effect>,
    o3: Seq<Output>,
    e3: Seq<Effect>,
    o4: Seq<Output>,
    e4: Seq<Effect>,
    n: usize,
    echoed: Vec<Vec<u8>>,
)
    requires
        h0.wf(),
        h0.clients@.dom().contains(token),
        h0.clients@[token].write_buffer@.len() == 0,
        d1.len() + d2.len() > 0,
        Handler::data_post(h0, h1, token, d1, o1, e1),
        Handler::data_post(h1, h2, token, d2, o2, e2),
        n == h2.clients@[token].write_buffer@.len(),
        Handler::try_flush_post(h2, h3, token, Result::Ok(Some(n)), o3, e3),
        concat_of(chunk_views(echoed@)) == h2.clients@[token].write_buffer@.take(n as int),
        Handler::readable_post(
            h3,
            h4,
            token,
            ReadHint { error: false, hup: false },
            Result::Ok(echoed),
            o4,
            e4,
        ),
    ensures
        o4.len() == 1,
        o4[0] is Data,
        o4[0]->Data_token == token,
        o4[0]->Data_data@ == d1 + d2,
{
    assert(h1.clients@[token].write_buffer@ =~= d1);
    assert(h2.clients@[token].write_buffer@ =~= d1 + d2);
    assert(h2.clients@[token].write_buffer@.take(n as int) =~= d1 + d2);
}

/// Law: a readable callback that observed only a zero-byte read emits no
/// `Data` message but still honors the hangup hint with a clean `Close`.
pub proof fn lemma_zero_read_then_hup(
    h0: Handler,
    h1: Handler,
    token: Token,
    chunks: Vec<Vec<u8>>,
    outs: Seq<Output>,
    effs: Seq<Effect>,
)
    requires
        h0.wf(),
        h0.clients@.dom().contains(token),
        concat_of(chunk_views(chunks@)).len() == 0,
        Handler::readable_post(
            h0,
            h1,
            token,
            ReadHint { error: false, hup: true },
            Result::Ok(chunks),
            outs,
            effs,
        ),
    ensures
        outs.len() == 1,
        outs[0] == (Output::Close { token }),
        forall|i: int| 0 <= i < outs.len() ==> !(#[trigger] outs[i] is Data),
        !h1.clients@.dom().contains(token),
{
}

/// Law: under a peer that advertises writability but accepts zero bytes per
/// write, each flush yields `Success(0)`; for a client already waiting for
/// writability this does not toggle `waiting_for_write` — write interest
/// stays enabled and no reregistration is issued, so output cannot stall.
pub proof fn lemma_flush_zero_keeps_write_interest(
    h0: Handler,
    h1: Handler,
    token: Token,
    outs: Seq<Output>,
    effs: Seq<Effect>,
)
    requires
        h0.wf(),
        h0.clients@.dom().contains(token),
        h0.clients@[token].waiting_for_write,
        h0.clients@[token].write_buffer@.len() > 0,
        Handler::try_flush_post(h0, h1, token, Result::Ok(Some(0)), outs, effs),
    ensures
        h1.clients@[token].waiting_for_write,
        h1.selector@[token].writable,
        effs.len() == 0,
        outs.len() == 0,
{
    assert(h1.clients@[token].write_buffer@ =~= h0.clients@[token].write_buffer@);
}

/// Law: issuing `Close` twice for the same token emits at most one close
/// output — the second request finds the token gone and is a silent no-op.
pub proof fn lemma_close_idempotent(
    h0: Handler,
    h1: Handler,
    h2: Handler,
    token: Token,
    d1: bool,
    d2: bool,
    r1: Option<IoErr>,
    r2: Option<IoErr>,
    o1: Seq<Output>,
    e1: Seq<Effect>,
    o2: Seq<Output>,
    e2: Seq<Effect>,
)
    requires
        h0.wf(),
        Handler::close_post(h0, h1, token, d1, r1, o1, e1),
        Handler::close_post(h1, h2, token, d2, r2, o2, e2),
    ensures
        o2.len() == 0,
        e2.len() == 0,
{
}

} // verus!
