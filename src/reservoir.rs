//! The reservoir of a sampling run, fed one stream item at a time.
//!
//! The reservoir first stores the opening items of the stream until it holds
//! `capacity` of them. From then on it discards as many items as the pending
//! skip says, and puts the item after them in a slot drawn uniformly below
//! the capacity. Whoever drives the run sets a fresh skip after each
//! replacement (and once when the reservoir becomes full).

use crate::rng::random_below;
use rand::rngs::StdRng;
use vstd::prelude::*;

verus! {

/// What a reservoir did with an offered item.
#[derive(Clone, Copy, Debug, PartialEq, Eq)]
pub enum Outcome {
    /// The reservoir was not yet full: the item went into a new slot.
    Stored,
    /// The item went into the last free slot: the reservoir is now full.
    Filled,
    /// The item fell within the pending skip (or the capacity is zero): it was dropped.
    Discarded,
    /// The item overwrote one slot of the full reservoir.
    Replaced,
}

impl Outcome {
    /// Whether a fresh skip is due: once the reservoir has become full, and after each replacement.
    pub fn needs_skip(self) -> (r: bool)
        ensures
            r == (self == Outcome::Filled || self == Outcome::Replaced),
    {
        match self {
            Outcome::Filled | Outcome::Replaced => true,
            Outcome::Stored | Outcome::Discarded => false,
        }
    }
}

/// The smaller of two counts.
pub open spec fn min_nat(a: nat, b: nat) -> nat {
    if a <= b {
        a
    } else {
        b
    }
}

/// `pos` holds pairwise distinct positions of `items`, and `sample[i]` is the item at `pos[i]`.
pub open spec fn drawn_at<T>(sample: Seq<T>, items: Seq<T>, pos: Seq<int>) -> bool {
    &&& pos.len() == sample.len()
    &&& forall|i: int|
        0 <= i < pos.len() ==> 0 <= #[trigger] pos[i] < items.len() && sample[i] == items[pos[i]]
    &&& forall|i: int, j: int| 0 <= i < j < pos.len() ==> pos[i] != pos[j]
}

/// Each slot holds the item that filled it, or an item offered after the reservoir became full.
pub open spec fn fill_or_later(pos: Seq<int>, capacity: nat) -> bool {
    forall|i: int| 0 <= i < pos.len() ==> #[trigger] pos[i] == i || pos[i] >= capacity
}

pub struct Reservoir<T> {
    slots: Vec<T>,
    capacity: usize,
    skip: usize,
    /// Every item offered so far, in order.
    offered: Ghost<Seq<T>>,
    /// For each slot, the position in `offered` of the item it holds.
    origin: Ghost<Seq<int>>,
}

impl<T> Reservoir<T> {
    /// The items the reservoir holds, slot by slot.
    pub closed spec fn sample(&self) -> Seq<T> {
        self.slots@
    }

    /// The number of items the reservoir is to hold.
    pub closed spec fn capacity(&self) -> nat {
        self.capacity as nat
    }

    /// How many items are still to be discarded before the next replacement.
    pub closed spec fn skip(&self) -> nat {
        self.skip as nat
    }

    /// Every item offered so far, in the order of offering.
    pub closed spec fn offered(&self) -> Seq<T> {
        self.offered@
    }

    /// What the reservoir does with the next item offered to it.
    pub open spec fn next_outcome(&self) -> Outcome {
        if self.sample().len() + 1 < self.capacity() {
            Outcome::Stored
        } else if self.sample().len() < self.capacity() {
            Outcome::Filled
        } else if self.capacity() == 0 || self.skip() > 0 {
            Outcome::Discarded
        } else {
            Outcome::Replaced
        }
    }

    pub closed spec fn wf(&self) -> bool {
        &&& self.slots@.len() == min_nat(self.capacity as nat, self.offered@.len())
        &&& self.offered@.len() <= self.capacity ==> self.slots@ == self.offered@
        &&& drawn_at(self.slots@, self.offered@, self.origin@)
        &&& fill_or_later(self.origin@, self.capacity as nat)
    }

    /// An empty reservoir that will hold `capacity` items.
    pub fn new(capacity: usize) -> (r: Self)
        ensures
            r.wf(),
            r.capacity() == capacity,
            r.skip() == 0,
            r.offered() == Seq::<T>::empty(),
            r.sample() == Seq::<T>::empty(),
    {
        Reservoir {
            slots: Vec::new(),
            capacity,
            skip: 0,
            offered: Ghost(Seq::empty()),
            origin: Ghost(Seq::empty()),
        }
    }

    /// Whether the reservoir holds as many items as its capacity.
    pub fn is_full(&self) -> (r: bool)
        requires
            self.wf(),
        ensures
            r == (self.sample().len() == self.capacity()),
    {
        self.slots.len() == self.capacity
    }

    /// The number of items the reservoir holds.
    pub fn len(&self) -> (r: usize)
        requires
            self.wf(),
        ensures
            r == self.sample().len(),
    {
        self.slots.len()
    }

    /// Sets how many of the next offered items are discarded before one replaces a slot.
    pub fn set_skip(&mut self, skip: usize)
        requires
            old(self).wf(),
        ensures
            final(self).wf(),
            final(self).skip() == skip,
            final(self).capacity() == old(self).capacity(),
            final(self).sample() == old(self).sample(),
            final(self).offered() == old(self).offered(),
    {
        self.skip = skip;
    }

    /// Offers the next stream item; a replacement goes into `slot`.
    pub fn offer_at(&mut self, item: T, slot: usize) -> (r: Outcome)
        requires
            old(self).wf(),
            old(self).next_outcome() == Outcome::Replaced ==> slot < old(self).capacity(),
        ensures
            final(self).wf(),
            r == old(self).next_outcome(),
            final(self).capacity() == old(self).capacity(),
            final(self).offered() == old(self).offered().push(item),
            r == Outcome::Stored || r == Outcome::Filled ==> final(self).sample() == old(
                self,
            ).sample().push(item)
                && final(self).skip() == old(self).skip(),
            r == Outcome::Discarded ==> final(self).sample() == old(self).sample()
                && final(self).skip() == (if old(self).skip() > 0 {
                    old(self).skip() - 1
                } else {
                    0
                }),
            r == Outcome::Replaced ==> final(self).sample() == old(self).sample().update(
                slot as int,
                item,
            ) && final(self).skip() == 0,
    {
        let ghost old_offered = self.offered@;
        let ghost old_origin = self.origin@;
        let ghost pos = old_offered.len() as int;
        let ghost new_offered = old_offered.push(item);
        if self.slots.len() < self.capacity {
            self.slots.push(item);
            proof {
                self.offered@ = new_offered;
                self.origin@ = old_origin.push(pos);
                assert(drawn_at(self.slots@, self.offered@, self.origin@)) by {
                    assert forall|i: int| 0 <= i < self.origin@.len() implies 0
                        <= #[trigger] self.origin@[i] < self.offered@.len() && self.slots@[i]
                        == self.offered@[self.origin@[i]] by {
                        if i < old_origin.len() {
                            assert(old_origin[i] < old_offered.len());
                        }
                    }
                }
            }
            if self.slots.len() < self.capacity {
                Outcome::Stored
            } else {
                Outcome::Filled
            }
        } else if self.capacity == 0 || self.skip > 0 {
            if self.skip > 0 {
                self.skip = self.skip - 1;
            }
            proof {
                self.offered@ = new_offered;
                assert forall|i: int| 0 <= i < self.origin@.len() implies 0
                    <= #[trigger] self.origin@[i] < self.offered@.len() && self.slots@[i]
                    == self.offered@[self.origin@[i]] by {
                    assert(old_origin[i] < old_offered.len());
                }
            }
            Outcome::Discarded
        } else {
            self.slots.set(slot, item);
            proof {
                self.offered@ = new_offered;
                self.origin@ = old_origin.update(slot as int, pos);
                assert forall|i: int| 0 <= i < self.origin@.len() implies 0
                    <= #[trigger] self.origin@[i] < self.offered@.len() && self.slots@[i]
                    == self.offered@[self.origin@[i]] by {
                    if i != slot {
                        assert(old_origin[i] < old_offered.len());
                    }
                }
                assert forall|i: int, j: int| 0 <= i < j < self.origin@.len() implies self.origin@[i]
                    != self.origin@[j] by {
                    assert(old_origin[i] < pos);
                    assert(old_origin[j] < pos);
                }
            }
            Outcome::Replaced
        }
    }

    /// Offers the next stream item. A replacement goes into a slot drawn from `rng`,
    /// uniformly among the reservoir's slots.
    pub fn offer(&mut self, rng: &mut StdRng, item: T) -> (r: Outcome)
        requires
            old(self).wf(),
        ensures
            final(self).wf(),
            r == old(self).next_outcome(),
            final(self).capacity() == old(self).capacity(),
            final(self).offered() == old(self).offered().push(item),
            r == Outcome::Stored || r == Outcome::Filled ==> final(self).sample() == old(
                self,
            ).sample().push(item)
                && final(self).skip() == old(self).skip(),
            r == Outcome::Discarded ==> final(self).sample() == old(self).sample()
                && final(self).skip() == (if old(self).skip() > 0 {
                    old(self).skip() - 1
                } else {
                    0
                }),
            r == Outcome::Replaced ==> final(self).skip() == 0 && exists|k: int|
                0 <= k < old(self).capacity() && final(self).sample() == old(self).sample().update(
                    k,
                    item,
                ),
    {
        let replacing = self.slots.len() == self.capacity && self.capacity > 0 && self.skip == 0;
        let slot: usize = if replacing {
            random_below(rng, self.capacity)
        } else {
            0
        };
        let r = self.offer_at(item, slot);
        proof {
            if r == Outcome::Replaced {
                assert(self.sample() == old(self).sample().update(slot as int, item));
            }
        }
        r
    }

    /// The items held, slot by slot.
    pub fn into_sample(self) -> (r: Vec<T>)
        requires
            self.wf(),
        ensures
            r@ == self.sample(),
    {
        self.slots
    }
}

/// However many items were offered, the reservoir holds as many as the smaller
/// of its capacity and that number.
pub proof fn lemma_sample_size<T>(r: Reservoir<T>)
    requires
        r.wf(),
    ensures
        r.sample().len() == min_nat(r.capacity(), r.offered().len()),
{
}

/// When no more items were offered than the capacity, the reservoir holds
/// exactly those items, in the order they were offered.
pub proof fn lemma_short_stream_identity<T>(r: Reservoir<T>)
    requires
        r.wf(),
        r.offered().len() <= r.capacity(),
    ensures
        r.sample() == r.offered(),
{
}

/// A reservoir of capacity zero stays empty, whatever was offered to it.
pub proof fn lemma_zero_capacity_empty<T>(r: Reservoir<T>)
    requires
        r.wf(),
        r.capacity() == 0,
    ensures
        r.sample().len() == 0,
{
}

/// Every held item is an offered one, and no offered item is held twice:
/// the slots come from pairwise distinct positions of the stream. Each slot
/// holds either the item that filled it or one offered after the reservoir
/// became full.
pub proof fn lemma_sample_from_distinct_positions<T>(r: Reservoir<T>)
    requires
        r.wf(),
    ensures
        exists|pos: Seq<int>|
            drawn_at(r.sample(), r.offered(), pos) && fill_or_later(pos, r.capacity()),
{
    assert(drawn_at(r.sample(), r.offered(), r.origin@) && fill_or_later(
        r.origin@,
        r.capacity(),
    ));
}

} // verus!
