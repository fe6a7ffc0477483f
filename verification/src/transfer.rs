//! Moving a block of samples through a ring buffer that accepts (or yields)
//! only part of it at a time.
//!
//! The audio threads hand blocks to a bounded single-producer ring buffer and
//! retry until the whole block went through: the producer pushes
//! `block[done..]`, learns how many items the buffer took, and goes on from
//! there. `Transfer` holds that progress; the thread that talks to the ring
//! buffer performs the pushes and reports how many items each one moved.
use vstd::prelude::*;

verus! {

/// Progress of a block transfer: `done` of `total` items have been moved.
pub struct Transfer {
    done: usize,
    total: usize,
}

/// Items handed over by a run of partial transfers of `data` that started at
/// offset `start` and moved `moved[0]`, `moved[1]`, ... items in turn.
pub open spec fn delivered<T>(data: Seq<T>, start: int, moved: Seq<nat>) -> Seq<T>
    decreases moved.len(),
{
    if moved.len() == 0 {
        Seq::empty()
    } else {
        data.subrange(start, start + moved[0]) + delivered(data, start + moved[0], moved.drop_first())
    }
}

/// Sum of a sequence of item counts.
pub open spec fn total_moved(moved: Seq<nat>) -> nat
    decreases moved.len(),
{
    if moved.len() == 0 {
        0
    } else {
        moved[0] + total_moved(moved.drop_first())
    }
}

impl Transfer {
    #[verifier::type_invariant]
    spec fn inv(self) -> bool {
        self.done <= self.total
    }

    /// Items moved so far.
    pub closed spec fn moved(self) -> nat {
        self.done as nat
    }

    /// Size of the block.
    pub closed spec fn size(self) -> nat {
        self.total as nat
    }

    /// Starts the transfer of a block of `total` items.
    pub fn new(total: usize) -> (t: Transfer)
        ensures
            t.moved() == 0,
            t.size() == total,
    {
        Transfer { done: 0, total }
    }

    /// Number of items moved so far, i.e. the offset of the next piece.
    pub fn offset(&self) -> (r: usize)
        ensures
            r == self.moved(),
            r <= self.size(),
    {
        proof { use_type_invariant(self); }
        self.done
    }

    /// Number of items still to move.
    pub fn remaining(&self) -> (r: usize)
        ensures
            r == self.size() - self.moved(),
    {
        proof { use_type_invariant(self); }
        self.total - self.done
    }

    /// Whether the whole block has been moved.
    pub fn is_complete(&self) -> (r: bool)
        ensures
            r <==> self.moved() == self.size(),
    {
        proof { use_type_invariant(self); }
        self.done == self.total
    }

    /// The part of `data` that has not been moved yet.
    pub fn pending<'a, T>(&self, data: &'a [T]) -> (r: &'a [T])
        requires
            data@.len() == self.size(),
        ensures
            r@ == data@.subrange(self.moved() as int, self.size() as int),
    {
        proof { use_type_invariant(self); }
        &data[self.done..self.total]
    }

    /// Records that the ring buffer took `count` items of the pending part.
    pub fn record(&mut self, count: usize)
        requires
            count <= old(self).size() - old(self).moved(),
        ensures
            final(self).size() == old(self).size(),
            final(self).moved() == old(self).moved() + count,
    {
        proof { use_type_invariant(&*self); }
        self.done = self.done + count;
    }
}

/// Moving pieces in turn, each taken from the front of what is still pending,
/// hands over exactly the leading items of the block, in order, with nothing
/// repeated or skipped: after pieces of sizes `moved`, what the ring buffer
/// received is `data[start .. start + sum(moved)]`.
pub proof fn lemma_pieces_deliver_prefix<T>(data: Seq<T>, start: int, moved: Seq<nat>)
    requires
        0 <= start,
        start + total_moved(moved) <= data.len(),
    ensures
        delivered(data, start, moved) == data.subrange(start, start + total_moved(moved)),
    decreases moved.len(),
{
    if moved.len() == 0 {
        assert(data.subrange(start, start) =~= Seq::<T>::empty());
    } else {
        let rest = moved.drop_first();
        lemma_pieces_deliver_prefix(data, start + moved[0], rest);
        assert(data.subrange(start, start + moved[0]) + data.subrange(
            start + moved[0],
            start + moved[0] + total_moved(rest),
        ) =~= data.subrange(start, start + total_moved(moved)));
    }
}

} // verus!
