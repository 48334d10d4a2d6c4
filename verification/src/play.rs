//! The play coordinator's spectator feed.
//!
//! The coordinator owns the growing history of spectator bytes; a
//! subscription atomically returns the history so far, and every
//! later chunk reaches the subscriber through the broadcast.  The law
//! at the end states that a spectator therefore observes the history
//! up to its subscription followed by exactly the bytes produced
//! after it: no gaps and no duplicates.

use vstd::prelude::*;
use crate::tuning::CHUNK_SIZE;

verus! {

/// The spectator byte stream of one running match.
pub struct MatchFeed {
    pub history: Vec<u8>,
}

impl MatchFeed {
    /// An empty feed at match start.
    pub fn new() -> (r: MatchFeed)
        ensures
            r.history@.len() == 0,
    {
        MatchFeed { history: Vec::new() }
    }

    /// Appends a chunk read from the game's spectator pipe; the same
    /// chunk is broadcast to subscribers.
    pub fn append(&mut self, chunk: &Vec<u8>)
        ensures
            final(self).history@ == old(self).history@ + chunk@,
    {
        let mut i: usize = 0;
        while i < chunk.len()
            invariant
                i <= chunk@.len(),
                self.history@ == old(self).history@ + chunk@.take(i as int),
            decreases chunk@.len() - i,
        {
            self.history.push(chunk[i]);
            proof {
                assert(chunk@.take(i + 1 as int) =~= chunk@.take(i as int).push(chunk@[i as int]));
                assert(old(self).history@ + chunk@.take(i + 1 as int)
                    =~= (old(self).history@ + chunk@.take(i as int)).push(chunk@[i as int]));
            }
            i = i + 1;
        }
        proof {
            assert(chunk@.take(chunk@.len() as int) =~= chunk@);
        }
    }

    /// The snapshot handed to a new subscriber, taken in the same
    /// actor step that registers the broadcast receiver.
    pub fn subscribe(&self) -> (r: Vec<u8>)
        ensures
            r@ == self.history@,
    {
        crate::play::clone_bytes(&self.history)
    }
}

/// A copy of a byte vector.
pub fn clone_bytes(s: &Vec<u8>) -> (r: Vec<u8>)
    ensures
        r@ == s@,
{
    let mut r: Vec<u8> = Vec::new();
    let mut i: usize = 0;
    while i < s.len()
        invariant
            i <= s@.len(),
            r@ == s@.take(i as int),
        decreases s@.len() - i,
    {
        r.push(s[i]);
        proof {
            assert(s@.take(i + 1 as int) =~= s@.take(i as int).push(s@[i as int]));
        }
        i = i + 1;
    }
    proof {
        assert(s@.take(s@.len() as int) =~= s@);
    }
    r
}

/// The concatenation of broadcast chunks, in order.
pub open spec fn flatten_chunks(cs: Seq<Seq<u8>>) -> Seq<u8>
    decreases cs.len(),
{
    if cs.len() == 0 {
        Seq::empty()
    } else {
        flatten_chunks(cs.drop_last()) + cs.last()
    }
}

/// The feed's history after a sequence of appends.
pub open spec fn feed_after(h0: Seq<u8>, cs: Seq<Seq<u8>>) -> Seq<u8>
    decreases cs.len(),
{
    if cs.len() == 0 {
        h0
    } else {
        feed_after(h0, cs.drop_last()) + cs.last()
    }
}

/// Spectator stream law: a subscriber that receives the snapshot
/// `h0` and then every chunk appended after its subscription, in
/// order, observes exactly the feed's final history: the history up
/// to the subscription concatenated with the bytes produced after
/// it, with no gaps and no duplicates.
pub proof fn lemma_spectator_stream(h0: Seq<u8>, cs: Seq<Seq<u8>>)
    ensures
        h0 + flatten_chunks(cs) == feed_after(h0, cs),
    decreases cs.len(),
{
    if cs.len() == 0 {
        assert(h0 + flatten_chunks(cs) =~= h0);
    } else {
        lemma_spectator_stream(h0, cs.drop_last());
        assert(h0 + (flatten_chunks(cs.drop_last()) + cs.last())
            =~= (h0 + flatten_chunks(cs.drop_last())) + cs.last());
    }
}

/// Splits a history into maximal replay chunks: every chunk but the
/// last holds exactly `CHUNK_SIZE` bytes, so the chunk count is the
/// history's length divided by `CHUNK_SIZE`, rounded up, and the
/// chunks concatenate back to the history itself.
#[verifier::rlimit(100)]
pub fn chunk_history(h: &Vec<u8>) -> (r: Vec<Vec<u8>>)
    ensures
        flatten_chunks(r.deep_view()) == h@,
        forall|i: int| 0 <= i < r.deep_view().len() ==> (#[trigger] r.deep_view()[i]).len() <= CHUNK_SIZE,
        forall|i: int| 0 <= i < r.deep_view().len() - 1 ==> (#[trigger] r.deep_view()[i]).len() == CHUNK_SIZE,
        r.deep_view().len() == (h@.len() + CHUNK_SIZE - 1) as int / CHUNK_SIZE as int,
{
    let mut r: Vec<Vec<u8>> = Vec::new();
    let mut base: usize = 0;
    proof {
        assert(flatten_chunks(r.deep_view()) =~= h@.take(0));
    }
    while base < h.len()
        invariant
            base <= h@.len(),
            flatten_chunks(r.deep_view()) == h@.take(base as int),
            forall|i: int| 0 <= i < r.deep_view().len()
                ==> (#[trigger] r.deep_view()[i]).len() <= CHUNK_SIZE,
            base < h@.len() ==> base == r.deep_view().len() * CHUNK_SIZE,
            base < h@.len() ==> forall|i: int| 0 <= i < r.deep_view().len()
                ==> (#[trigger] r.deep_view()[i]).len() == CHUNK_SIZE,
            forall|i: int| 0 <= i < r.deep_view().len() - 1
                ==> (#[trigger] r.deep_view()[i]).len() == CHUNK_SIZE,
            base == h@.len() ==> r.deep_view().len() == (h@.len() + CHUNK_SIZE - 1) as int / CHUNK_SIZE as int,
        decreases h@.len() - base,
    {
        proof {
            let count = r.deep_view().len() as int;
            assert(base == count * CHUNK_SIZE);
        }
        let end = if h.len() - base > CHUNK_SIZE {
            base + CHUNK_SIZE
        } else {
            h.len()
        };
        let mut chunk: Vec<u8> = Vec::new();
        let mut i: usize = base;
        while i < end
            invariant
                base <= i <= end <= h@.len(),
                chunk@ == h@.subrange(base as int, i as int),
            decreases end - i,
        {
            chunk.push(h[i]);
            proof {
                assert(h@.subrange(base as int, i + 1 as int)
                    =~= h@.subrange(base as int, i as int).push(h@[i as int]));
            }
            i = i + 1;
        }
        let ghost prev = r.deep_view();
        let ghost cv = chunk@;
        r.push(chunk);
        proof {
            assert(r.deep_view() =~~= prev.push(cv));
            assert(r.deep_view().drop_last() =~= prev);
            assert(flatten_chunks(r.deep_view())
                == flatten_chunks(prev) + cv);
            assert(h@.take(base as int) + h@.subrange(base as int, end as int)
                =~= h@.take(end as int));
            assert(cv.len() == end - base);
            let count = prev.len() as int;
            let ch = CHUNK_SIZE as int;
            assert(base == count * ch);
            if end < h@.len() {
                assert(end == (count + 1) * ch) by (nonlinear_arith)
                    requires
                        base == count * ch,
                        end == base + ch,
                {}
            } else {
                assert(end == h@.len());
                assert(count * ch < end <= (count + 1) * ch) by (nonlinear_arith)
                    requires
                        base == count * ch,
                        base < end,
                        end <= base + ch,
                {}
                assert((end + ch - 1) / ch == count + 1) by (nonlinear_arith)
                    requires
                        count >= 0,
                        ch > 0,
                        count * ch < end <= (count + 1) * ch,
                {}
            }
        }
        base = end;
    }
    proof {
        assert(h@.take(h@.len() as int) =~= h@);
    }
    r
}

} // verus!
