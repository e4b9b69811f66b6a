//! Token factories: mint unique, monotonically increasing connection
//! identifiers used as registration keys in the OS readiness facility.

use vstd::prelude::*;
use crate::Token;

verus! {

/// A source of tokens.  Consumers may supply their own scheme (for example a
/// counter whose values are tagged by role); the reactor ships with
/// [`SequentialFactory`].
pub trait Factory {
    fn produce(&mut self) -> Token;
}

/// The default factory: a counter starting at 1.  Value 0 is reserved for
/// schemes that use it as a sentinel, so it is never produced.
pub struct SequentialFactory {
    /// The value the next produced token will carry.
    pub next: usize,
}

impl SequentialFactory {
    /// Relation between a factory before a `produce` call, the factory after
    /// it, and the token it returned.
    pub open spec fn produce_post(pre: SequentialFactory, post: SequentialFactory, t: Token) -> bool {
        &&& t.0 == pre.next
        &&& post.next == pre.next + 1
    }

    pub fn new() -> (f: SequentialFactory)
        ensures
            f.next == 1,
    {
        SequentialFactory { next: 1 }
    }

    /// Mint one token.  Each produced token is numerically greater than every
    /// token this factory produced before it.
    pub fn produce(&mut self) -> (t: Token)
        requires
            old(self).next < usize::MAX,
        ensures
            Self::produce_post(*old(self), *final(self), t),
            old(self).next >= 1 ==> t.0 >= 1,
    {
        let t = Token(self.next);
        self.next = self.next + 1;
        t
    }
}

/// Law: token monotonicity within a factory instance.  Two consecutive
/// `produce` calls on the same factory return strictly increasing tokens, so
/// a token value is never reused.
pub proof fn lemma_produce_monotonic(
    f0: SequentialFactory,
    f1: SequentialFactory,
    f2: SequentialFactory,
    t1: Token,
    t2: Token,
)
    requires
        SequentialFactory::produce_post(f0, f1, t1),
        SequentialFactory::produce_post(f1, f2, t2),
    ensures
        t2.0 > t1.0,
{
}

} // verus!
