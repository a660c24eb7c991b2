use std::collections::VecDeque;
use vstd::prelude::*;

verus! {

/// The record of the items that a stream has yielded while its head was
/// probed.
pub struct Cueable<I> {
    items: VecDeque<I>,
}

/// The items recorded by a [`Cueable`] that are still to be played back.
pub struct Cued<I> {
    items: VecDeque<I>,
}

impl<I> View for Cueable<I> {
    type V = Seq<I>;

    closed spec fn view(&self) -> Seq<I> {
        self.items@
    }
}

impl<I> View for Cued<I> {
    type V = Seq<I>;

    closed spec fn view(&self) -> Seq<I> {
        self.items@
    }
}

/// Starts a record without any item.
pub fn cueable<I>() -> (c: Cueable<I>)
    ensures
        c@ == Seq::<I>::empty(),
{
    Cueable { items: VecDeque::new() }
}

impl<I> Cueable<I> {
    /// Records one more item that the stream has yielded.
    pub fn cue(&mut self, item: I)
        ensures
            final(self)@ == old(self)@.push(item),
    {
        self.items.push_back(item);
    }

    /// Ends the probing: what was recorded is to be played back, in the
    /// order in which it was recorded.
    pub fn cue_up(self) -> (cued: Cued<I>)
        ensures
            cued@ == self@,
    {
        Cued { items: self.items }
    }
}

impl<I> Cued<I> {
    /// Gives the next recorded item; once none is left, the stream itself
    /// is to be asked.
    pub fn next(&mut self) -> (item: Option<I>)
        ensures
            old(self)@.len() == 0 ==> item is None && final(self)@ == old(self)@,
            old(self)@.len() > 0 ==> item == Some(old(self)@[0]) && final(self)@ == old(self)@.skip(
                1,
            ),
    {
        let item = self.items.pop_front();
        proof {
            if old(self)@.len() > 0 {
                assert(self.items@ =~= old(self)@.skip(1));
            }
        }
        item
    }
}

/// Playing back a record gives the items in the order in which they were
/// recorded: after the items `items` have been recorded one after the
/// other, the record holds them in that order.
pub proof fn lemma_cue_keeps_order<I>(items: Seq<I>, n: int)
    requires
        0 <= n <= items.len(),
    ensures
        spec_cued(Seq::empty(), items, n) == items.take(n),
    decreases n,
{
    if n > 0 {
        lemma_cue_keeps_order(items, n - 1);
        assert(items.take(n - 1).push(items[n - 1]) =~= items.take(n));
    } else {
        assert(items.take(0) =~= Seq::<I>::empty());
    }
}

/// The record `record` after the first `n` of `items` have been recorded.
pub open spec fn spec_cued<I>(record: Seq<I>, items: Seq<I>, n: int) -> Seq<I>
    decreases n,
{
    if n <= 0 {
        record
    } else {
        spec_cued(record, items, n - 1).push(items[n - 1])
    }
}

} // verus!
