//! Token-keyed registries.
//!
//! The reactor keeps three disjoint mappings from [`Token`] to per-connection
//! state, plus a model of the OS selector's registrations.  Each is a
//! `Registry`: an association list with unique tokens, viewed abstractly as a
//! `Map<Token, V>`.

use vstd::prelude::*;
use crate::Token;

verus! {

pub struct Registry<V> {
    entries: Vec<(Token, V)>,
}

/// The map denoted by an association list: later entries win, though under
/// [`Registry::uniq`] every token occurs at most once.
pub open spec fn map_of<V>(s: Seq<(Token, V)>) -> Map<Token, V>
    decreases s.len(),
{
    if s.len() == 0 {
        Map::empty()
    } else {
        map_of(s.drop_last()).insert(s.last().0, s.last().1)
    }
}

/// No token occurs twice.
pub open spec fn uniq<V>(s: Seq<(Token, V)>) -> bool {
    forall|i: int, j: int|
        0 <= i < j < s.len() ==> (#[trigger] s[i]).0 != (#[trigger] s[j]).0
}

pub proof fn lemma_map_of_contains<V>(s: Seq<(Token, V)>, t: Token)
    ensures
        map_of(s).dom().contains(t) <==> (exists|i: int|
            0 <= i < s.len() && (#[trigger] s[i]).0 == t),
    decreases s.len(),
{
    if s.len() > 0 {
        lemma_map_of_contains(s.drop_last(), t);
        if s.last().0 == t {
            assert(s[s.len() - 1].0 == t);
        } else {
            if map_of(s).dom().contains(t) {
                let i = choose|i: int| 0 <= i < s.drop_last().len() && (#[trigger] s.drop_last()[i]).0 == t;
                assert(s[i].0 == t);
            }
            if exists|i: int| 0 <= i < s.len() && (#[trigger] s[i]).0 == t {
                let i = choose|i: int| 0 <= i < s.len() && (#[trigger] s[i]).0 == t;
                assert(i < s.len() - 1);
                assert(s.drop_last()[i].0 == t);
            }
        }
    }
}

pub proof fn lemma_map_of_index<V>(s: Seq<(Token, V)>, i: int)
    requires
        uniq(s),
        0 <= i < s.len(),
    ensures
        map_of(s).dom().contains(s[i].0),
        map_of(s)[s[i].0] == s[i].1,
    decreases s.len(),
{
    if i == s.len() - 1 {
    } else {
        assert(s[i].0 != s.last().0);
        assert(s.drop_last()[i] == s[i]);
        lemma_map_of_index(s.drop_last(), i);
    }
}

pub proof fn lemma_map_of_remove<V>(s: Seq<(Token, V)>, i: int)
    requires
        uniq(s),
        0 <= i < s.len(),
    ensures
        map_of(s.remove(i)) == map_of(s).remove(s[i].0),
        uniq(s.remove(i)),
    decreases s.len(),
{
    lemma_map_of_contains(s, s[i].0);
    assert forall|a: int, b: int| 0 <= a < b < s.remove(i).len() implies
        (#[trigger] s.remove(i)[a]).0 != (#[trigger] s.remove(i)[b]).0
    by {
        let a0: int = if a < i { a } else { a + 1 };
        let b0: int = if b < i { b } else { b + 1 };
        assert(s.remove(i)[a] == s[a0]);
        assert(s.remove(i)[b] == s[b0]);
    }
    if i == s.len() - 1 {
        assert(s.remove(i) =~= s.drop_last());
        lemma_map_of_contains(s.drop_last(), s[i].0);
        assert(!map_of(s.drop_last()).dom().contains(s[i].0)) by {
            if map_of(s.drop_last()).dom().contains(s[i].0) {
                let j = choose|j: int|
                    0 <= j < s.drop_last().len() && (#[trigger] s.drop_last()[j]).0 == s[i].0;
                assert(s[j].0 == s[i].0);
            }
        }
        assert(map_of(s).remove(s[i].0) =~= map_of(s.drop_last()));
    } else {
        let t = s[i].0;
        let r = s.remove(i);
        assert(r.last() == s.last());
        assert(r.drop_last() =~= s.drop_last().remove(i));
        lemma_map_of_remove(s.drop_last(), i);
        assert(s.drop_last()[i] == s[i]);
        // map_of(r) == map_of(s.drop_last()).remove(t).insert(last.0, last.1)
        //           == map_of(s.drop_last()).insert(last.0, last.1).remove(t)
        assert(s.last().0 != t);
        assert(map_of(r) =~= map_of(s).remove(t));
    }
}

impl<V> Registry<V> {
    /// The entries in insertion order.
    pub closed spec fn seq(self) -> Seq<(Token, V)> {
        self.entries@
    }

    pub closed spec fn view(self) -> Map<Token, V> {
        map_of(self.entries@)
    }

    pub open spec fn wf(self) -> bool {
        uniq(self.seq())
    }

    /// The tokens of `seq` and the domain of the map view agree.
    pub proof fn lemma_view_seq(self)
        ensures
            forall|t: Token| self.view().dom().contains(t) <==> (exists|i: int|
                0 <= i < self.seq().len() && (#[trigger] self.seq()[i]).0 == t),
    {
        assert forall|t: Token| self.view().dom().contains(t) <==> (exists|i: int|
            0 <= i < self.seq().len() && (#[trigger] self.seq()[i]).0 == t)
        by {
            lemma_map_of_contains(self.seq(), t);
        }
    }

    pub proof fn lemma_seq_index(self, i: int)
        requires
            self.wf(),
            0 <= i < self.seq().len(),
        ensures
            self.view().dom().contains(self.seq()[i].0),
            self.view()[self.seq()[i].0] == self.seq()[i].1,
    {
        lemma_map_of_index(self.seq(), i);
    }

    pub fn new() -> (r: Registry<V>)
        ensures
            r.wf(),
            r@ == Map::<Token, V>::empty(),
            r.seq() == Seq::<(Token, V)>::empty(),
    {
        Registry { entries: Vec::new() }
    }

    fn find(&self, t: Token) -> (r: Option<usize>)
        ensures
            match r {
                Some(i) => i < self.seq().len() && self.seq()[i as int].0 == t,
                None => forall|i: int|
                    0 <= i < self.seq().len() ==> (#[trigger] self.seq()[i]).0 != t,
            },
    {
        let n = self.entries.len();
        let mut i: usize = 0;
        while i < n
            invariant
                n == self.seq().len(),
                i <= n,
                forall|j: int| 0 <= j < i ==> (#[trigger] self.seq()[j]).0 != t,
            decreases n - i,
        {
            if self.entries[i].0 == t {
                return Some(i);
            }
            i = i + 1;
        }
        None
    }

    pub fn contains(&self, t: Token) -> (r: bool)
        ensures
            r == self@.dom().contains(t),
    {
        proof {
            lemma_map_of_contains(self.seq(), t);
        }
        self.find(t).is_some()
    }

    pub fn get(&self, t: Token) -> (r: Option<&V>)
        requires
            self.wf(),
        ensures
            match r {
                Some(v) => self@.dom().contains(t) && *v == self@[t],
                None => !self@.dom().contains(t),
            },
    {
        proof {
            lemma_map_of_contains(self.seq(), t);
        }
        match self.find(t) {
            Some(i) => {
                proof {
                    lemma_map_of_index(self.seq(), i as int);
                }
                Some(&self.entries[i].1)
            },
            None => None,
        }
    }

    pub fn insert(&mut self, t: Token, v: V)
        requires
            old(self).wf(),
            !old(self)@.dom().contains(t),
        ensures
            final(self).wf(),
            final(self)@ == old(self)@.insert(t, v),
            final(self).seq() == old(self).seq().push((t, v)),
    {
        proof {
            lemma_map_of_contains(self.seq(), t);
        }
        self.entries.push((t, v));
        proof {
            assert(self.seq().drop_last() =~= old(self).seq());
            assert forall|i: int, j: int| 0 <= i < j < self.seq().len() implies
                (#[trigger] self.seq()[i]).0 != (#[trigger] self.seq()[j]).0
            by {
                if j == self.seq().len() - 1 {
                    if self.seq()[i].0 == t {
                        assert(old(self).seq()[i].0 == t);
                    }
                } else {
                    assert(old(self).seq()[i] == self.seq()[i]);
                    assert(old(self).seq()[j] == self.seq()[j]);
                }
            }
        }
    }

    pub fn remove(&mut self, t: Token) -> (r: Option<V>)
        requires
            old(self).wf(),
        ensures
            final(self).wf(),
            match r {
                Some(v) => {
                    &&& old(self)@.dom().contains(t)
                    &&& v == old(self)@[t]
                    &&& final(self)@ == old(self)@.remove(t)
                },
                None => {
                    &&& !old(self)@.dom().contains(t)
                    &&& *final(self) == *old(self)
                },
            },
    {
        proof {
            lemma_map_of_contains(self.seq(), t);
        }
        match self.find(t) {
            Some(i) => {
                proof {
                    lemma_map_of_index(self.seq(), i as int);
                    lemma_map_of_remove(self.seq(), i as int);
                }
                let (_, v) = self.entries.remove(i);
                Some(v)
            },
            None => None,
        }
    }

    /// Remove and return every entry, in insertion order.
    pub fn drain(&mut self) -> (r: Vec<(Token, V)>)
        requires
            old(self).wf(),
        ensures
            final(self).wf(),
            r@ == old(self).seq(),
            final(self)@ == Map::<Token, V>::empty(),
            final(self).seq() == Seq::<(Token, V)>::empty(),
    {
        let mut out: Vec<(Token, V)> = Vec::new();
        core::mem::swap(&mut out, &mut self.entries);
        out
    }

    pub fn len(&self) -> (r: usize)
        ensures
            r == self.seq().len(),
    {
        self.entries.len()
    }
}

} // verus!
