//! Per-connection state: the write buffer, cumulative I/O statistics, and
//! the flag tracking whether writable readiness is currently requested.
//!
//! The socket itself lives with the event loop; the reactor's decisions are
//! functions of this record and of the outcomes of the socket operations,
//! which the callers pass in as plain values.

use vstd::prelude::*;
use crate::message::Addr;

verus! {

/// The outcome of one non-blocking write attempt: either the OS accepted
/// `Success(n)` bytes (possibly zero), or it reported would-block.
#[derive(Clone, Copy, PartialEq, Eq, Structural, Debug)]
pub enum OperationResult {
    Success(usize),
    WouldBlock,
}

/// Cumulative I/O counters of one client.  All are monotonic.
#[derive(Clone, Copy, PartialEq, Eq, Structural, Debug)]
pub struct Statistics {
    pub bytes_read: u64,
    pub bytes_written_queued: u64,
    pub bytes_written: u64,
    pub blocked_writes: u64,
}

impl Statistics {
    /// All counters at zero: the state of a fresh client.
    pub open spec fn zero() -> Statistics {
        Statistics { bytes_read: 0, bytes_written_queued: 0, bytes_written: 0, blocked_writes: 0 }
    }
}

impl Default for Statistics {
    fn default() -> (s: Statistics)
        ensures
            s == Statistics::zero(),
    {
        Statistics { bytes_read: 0, bytes_written_queued: 0, bytes_written: 0, blocked_writes: 0 }
    }
}

/// The concatenation of a sequence of byte chunks.
pub open spec fn concat_of(cs: Seq<Seq<u8>>) -> Seq<u8>
    decreases cs.len(),
{
    if cs.len() == 0 {
        Seq::empty()
    } else {
        concat_of(cs.drop_last()) + cs.last()
    }
}

/// The abstract contents of a vector of byte chunks.
pub open spec fn chunk_views(cs: Seq<Vec<u8>>) -> Seq<Seq<u8>> {
    cs.map_values(|c: Vec<u8>| c@)
}

/// A connected client: its peer address, statistics, FIFO write buffer, and
/// whether the selector has been asked to signal writability for it.
pub struct Client {
    pub addr: Addr,
    pub stats: Statistics,
    pub write_buffer: Vec<u8>,
    pub waiting_for_write: bool,
}

impl Client {
    /// The accounting invariant: everything ever queued has either been
    /// written or still sits in the buffer.
    pub open spec fn wf(self) -> bool {
        self.stats.bytes_written_queued == self.stats.bytes_written + self.write_buffer@.len()
    }

    /// What [`Client::queue_write`] does.
    pub open spec fn queue_write_post(pre: Client, post: Client, data: Seq<u8>) -> bool {
        &&& post.write_buffer@ == pre.write_buffer@ + data
        &&& post.stats.bytes_written_queued == pre.stats.bytes_written_queued + data.len()
        &&& post.stats.bytes_written == pre.stats.bytes_written
        &&& post.stats.bytes_read == pre.stats.bytes_read
        &&& post.stats.blocked_writes == pre.stats.blocked_writes
        &&& post.addr == pre.addr
        &&& post.waiting_for_write == pre.waiting_for_write
    }

    /// What [`Client::flush_write`] does, given the outcome `wrote` of the
    /// one non-blocking write attempt (`None` meaning would-block).
    pub open spec fn flush_write_post(pre: Client, post: Client, wrote: Option<usize>, r: OperationResult) -> bool {
        &&& post.addr == pre.addr
        &&& post.waiting_for_write == pre.waiting_for_write
        &&& post.stats.bytes_read == pre.stats.bytes_read
        &&& post.stats.bytes_written_queued == pre.stats.bytes_written_queued
        &&& match wrote {
            None => {
                &&& r is WouldBlock
                &&& post.write_buffer@ == pre.write_buffer@
                &&& post.stats.bytes_written == pre.stats.bytes_written
                &&& post.stats.blocked_writes == pre.stats.blocked_writes + 1
            },
            Some(n) => {
                &&& r == OperationResult::Success(n)
                &&& post.write_buffer@ == pre.write_buffer@.skip(n as int)
                &&& post.stats.bytes_written == pre.stats.bytes_written + n
                &&& post.stats.blocked_writes == pre.stats.blocked_writes
            },
        }
    }

    /// What [`Client::try_read_all`] does, given the chunks drained from the
    /// socket.
    pub open spec fn try_read_all_post(pre: Client, post: Client, chunks: Seq<Seq<u8>>, r: Seq<u8>) -> bool {
        &&& r == concat_of(chunks)
        &&& post.stats.bytes_read == pre.stats.bytes_read + concat_of(chunks).len()
        &&& post.stats.bytes_written_queued == pre.stats.bytes_written_queued
        &&& post.stats.bytes_written == pre.stats.bytes_written
        &&& post.stats.blocked_writes == pre.stats.blocked_writes
        &&& post.write_buffer@ == pre.write_buffer@
        &&& post.addr == pre.addr
        &&& post.waiting_for_write == pre.waiting_for_write
    }

    pub fn new(addr: Addr) -> (c: Client)
        ensures
            c.wf(),
            c.addr == addr,
            c.stats == Statistics::zero(),
            c.write_buffer@ == Seq::<u8>::empty(),
            c.waiting_for_write == false,
    {
        Client {
            addr,
            stats: Statistics::default(),
            write_buffer: Vec::new(),
            waiting_for_write: false,
        }
    }

    /// A copy of the bytes currently buffered for writing.
    pub fn buffered(&self) -> (r: Vec<u8>)
        ensures
            r@ == self.write_buffer@,
    {
        let mut out: Vec<u8> = Vec::new();
        let n = self.write_buffer.len();
        let mut i: usize = 0;
        while i < n
            invariant
                n == self.write_buffer@.len(),
                i <= n,
                out@ == self.write_buffer@.take(i as int),
            decreases n - i,
        {
            out.push(self.write_buffer[i]);
            i = i + 1;
            proof {
                assert(out@ =~= self.write_buffer@.take(i as int));
            }
        }
        proof {
            assert(out@ =~= self.write_buffer@);
        }
        out
    }

    /// Append bytes to the end of the write buffer and account for them.
    pub fn queue_write(&mut self, data: &Vec<u8>)
        requires
            old(self).wf(),
            old(self).stats.bytes_written_queued + data@.len() <= u64::MAX,
        ensures
            final(self).wf(),
            Client::queue_write_post(*old(self), *final(self), data@),
    {
        let n = data.len();
        let mut i: usize = 0;
        while i < n
            invariant
                n == data@.len(),
                i <= n,
                self.write_buffer@ == old(self).write_buffer@ + data@.take(i as int),
                self.stats == old(self).stats,
                self.addr == old(self).addr,
                self.waiting_for_write == old(self).waiting_for_write,
            decreases n - i,
        {
            self.write_buffer.push(data[i]);
            i = i + 1;
            proof {
                assert(self.write_buffer@ =~= old(self).write_buffer@ + data@.take(i as int));
            }
        }
        proof {
            assert(self.write_buffer@ =~= old(self).write_buffer@ + data@);
        }
        self.stats.bytes_written_queued = self.stats.bytes_written_queued + n as u64;
    }

    /// Account for one non-blocking write attempt of the current buffer.
    /// `wrote` is what the OS reported: `Some(n)` bytes accepted (the first
    /// `n` buffered bytes leave the buffer), or `None` for would-block.
    pub fn flush_write(&mut self, wrote: Option<usize>) -> (r: OperationResult)
        requires
            old(self).wf(),
            match wrote {
                Some(n) => n <= old(self).write_buffer@.len(),
                None => old(self).stats.blocked_writes < u64::MAX,
            },
        ensures
            final(self).wf(),
            Client::flush_write_post(*old(self), *final(self), wrote, r),
    {
        match wrote {
            None => {
                self.stats.blocked_writes = self.stats.blocked_writes + 1;
                OperationResult::WouldBlock
            },
            Some(n) => {
                let len = self.write_buffer.len();
                let mut rest: Vec<u8> = Vec::new();
                let mut i: usize = n;
                while i < len
                    invariant
                        n <= i <= len,
                        len == self.write_buffer@.len(),
                        self.write_buffer@ == old(self).write_buffer@,
                        rest@ == self.write_buffer@.subrange(n as int, i as int),
                    decreases len - i,
                {
                    rest.push(self.write_buffer[i]);
                    i = i + 1;
                    proof {
                        assert(rest@ =~= self.write_buffer@.subrange(n as int, i as int));
                    }
                }
                proof {
                    assert(rest@ =~= old(self).write_buffer@.skip(n as int));
                }
                self.write_buffer = rest;
                self.stats.bytes_written = self.stats.bytes_written + n as u64;
                OperationResult::Success(n)
            },
        }
    }

    /// Absorb the byte chunks one readable callback drained from the socket:
    /// account for them and return their concatenation.  A zero-length
    /// result is meaningful — the socket was readable but yielded no bytes —
    /// and callers resolve it via the hangup hint.
    pub fn try_read_all(&mut self, chunks: &Vec<Vec<u8>>) -> (r: Vec<u8>)
        requires
            old(self).wf(),
            old(self).stats.bytes_read + concat_of(chunk_views(chunks@)).len() <= u64::MAX,
        ensures
            final(self).wf(),
            Client::try_read_all_post(*old(self), *final(self), chunk_views(chunks@), r@),
    {
        let mut out: Vec<u8> = Vec::new();
        let n = chunks.len();
        let mut i: usize = 0;
        while i < n
            invariant
                n == chunks@.len(),
                i <= n,
                out@ == concat_of(chunk_views(chunks@).take(i as int)),
            decreases n - i,
        {
            let chunk = &chunks[i];
            let m = chunk.len();
            let mut j: usize = 0;
            while j < m
                invariant
                    m == chunk@.len(),
                    j <= m,
                    out@ == concat_of(chunk_views(chunks@).take(i as int)) + chunk@.take(j as int),
                decreases m - j,
            {
                out.push(chunk[j]);
                j = j + 1;
                proof {
                    assert(out@ =~= concat_of(chunk_views(chunks@).take(i as int)) + chunk@.take(j as int));
                }
            }
            i = i + 1;
            proof {
                let cv = chunk_views(chunks@);
                assert(cv.take(i as int).drop_last() =~= cv.take(i as int - 1));
                assert(cv.take(i as int).last() == chunk@);
                assert(chunk@.take(m as int) =~= chunk@);
                assert(out@ =~= concat_of(cv.take(i as int)));
            }
        }
        proof {
            assert(chunk_views(chunks@).take(n as int) =~= chunk_views(chunks@));
            lemma_concat_len(chunk_views(chunks@));
        }
        let total = out.len();
        self.stats.bytes_read = self.stats.bytes_read + total as u64;
        out
    }
}

/// The concatenation is as long as its parts together; in particular it fits
/// in the counters whenever the parts do.
pub proof fn lemma_concat_len(cs: Seq<Seq<u8>>)
    ensures
        concat_of(cs).len() <= usize::MAX ==> forall|i: int|
            0 <= i < cs.len() ==> (#[trigger] cs[i]).len() <= usize::MAX,
    decreases cs.len(),
{
    if cs.len() > 0 {
        lemma_concat_len(cs.drop_last());
        assert forall|i: int| 0 <= i < cs.len() && concat_of(cs).len() <= usize::MAX implies
            (#[trigger] cs[i]).len() <= usize::MAX
        by {
            if i < cs.len() - 1 {
                assert(cs.drop_last()[i] == cs[i]);
            }
        }
    }
}

/// Law: write accounting.  For every well-formed client,
/// `bytes_written_queued == bytes_written + buffer length`.
pub proof fn lemma_write_accounting(c: Client)
    requires
        c.wf(),
    ensures
        c.stats.bytes_written_queued == c.stats.bytes_written + c.write_buffer@.len(),
{
}

/// Law: the write path is FIFO.  A client that starts with an empty buffer
/// and queues two chunks hands the socket exactly their concatenation, in
/// order, when a flush has the whole buffer accepted; nothing stays behind.
pub proof fn lemma_flush_writes_queued_in_order(
    c0: Client,
    c1: Client,
    c2: Client,
    c3: Client,
    d1: Seq<u8>,
    d2: Seq<u8>,
    n: usize,
    r: OperationResult,
)
    requires
        c0.write_buffer@.len() == 0,
        Client::queue_write_post(c0, c1, d1),
        Client::queue_write_post(c1, c2, d2),
        Client::flush_write_post(c2, c3, Some(n), r),
        n == c2.write_buffer@.len(),
    ensures
        c2.write_buffer@.take(n as int) == d1 + d2,
        c3.write_buffer@.len() == 0,
{
    assert(c2.write_buffer@ =~= d1 + d2);
    assert(c2.write_buffer@.take(n as int) =~= c2.write_buffer@);
}

} // verus!
