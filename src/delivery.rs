use std::collections::VecDeque;
use vstd::prelude::*;

verus! {

/// What a full delivery queue does with one more frame.
#[derive(Clone, Copy, Debug, PartialEq, Eq, Structural)]
pub enum OverflowPolicy {
    /// Make room by dropping the oldest queued frame.
    DropOldest,
    /// Refuse the frame; the producer waits for the consumer.
    Block,
}

/// The outcome of offering a frame to the queue.
#[derive(Debug, PartialEq, Eq)]
pub enum Offer {
    /// The frame was queued.
    Accepted,
    /// The frame was queued, and this oldest frame was dropped for it.
    DroppedOldest(String),
    /// The queue is full; the frame is handed back.
    Full(String),
}

/// The queue's contents and the outcome after offering `frame` to a queue
/// holding `items`.
pub open spec fn offer_outcome(items: Seq<String>, capacity: nat, policy: OverflowPolicy, frame: String) -> (
    Seq<String>,
    Offer,
) {
    if items.len() < capacity {
        (items.push(frame), Offer::Accepted)
    } else if policy == OverflowPolicy::DropOldest {
        (items.drop_first().push(frame), Offer::DroppedOldest(items[0]))
    } else {
        (items, Offer::Full(frame))
    }
}

/// The queue's contents after offering each frame in turn.
pub open spec fn offer_all(items: Seq<String>, capacity: nat, policy: OverflowPolicy, frames: Seq<String>) -> Seq<
    String,
>
    decreases frames.len(),
{
    if frames.len() == 0 {
        items
    } else {
        offer_all(
            offer_outcome(items, capacity, policy, frames[0]).0,
            capacity,
            policy,
            frames.subrange(1, frames.len() as int),
        )
    }
}

/// A bounded first-in first-out queue of frames between a session and a
/// consumer, so that a slow consumer cannot make memory grow without bound.
pub struct DeliveryQueue {
    items: VecDeque<String>,
    capacity: usize,
    policy: OverflowPolicy,
}

impl View for DeliveryQueue {
    type V = Seq<String>;

    closed spec fn view(&self) -> Seq<String> {
        self.items@
    }
}

impl DeliveryQueue {
    pub closed spec fn spec_capacity(&self) -> nat {
        self.capacity as nat
    }

    pub closed spec fn spec_policy(&self) -> OverflowPolicy {
        self.policy
    }

    /// The capacity is positive and never exceeded.
    pub open spec fn wf(&self) -> bool {
        0 < self.spec_capacity() && self@.len() <= self.spec_capacity()
    }

    /// An empty queue; `None` where the capacity is zero.
    pub fn new(capacity: usize, policy: OverflowPolicy) -> (r: Option<DeliveryQueue>)
        ensures
            r is Some <==> capacity > 0,
            r is Some ==> r->Some_0.wf() && r->Some_0@ == Seq::<String>::empty()
                && r->Some_0.spec_capacity() == capacity && r->Some_0.spec_policy() == policy,
    {
        if capacity == 0 {
            None
        } else {
            Some(DeliveryQueue { items: VecDeque::new(), capacity, policy })
        }
    }

    /// Offers a frame: queued where there is room, otherwise dealt with as
    /// the overflow policy says.
    pub fn offer(&mut self, frame: String) -> (r: Offer)
        requires
            old(self).wf(),
        ensures
            final(self).wf(),
            final(self).spec_capacity() == old(self).spec_capacity(),
            final(self).spec_policy() == old(self).spec_policy(),
            (final(self)@, r) == offer_outcome(old(self)@, old(self).spec_capacity(), old(self).spec_policy(), frame),
    {
        if self.items.len() < self.capacity {
            self.items.push_back(frame);
            Offer::Accepted
        } else {
            match self.policy {
                OverflowPolicy::DropOldest => {
                    let oldest = self.items.pop_front();
                    self.items.push_back(frame);
                    match oldest {
                        Some(o) => Offer::DroppedOldest(o),
                        None => Offer::Accepted,
                    }
                },
                OverflowPolicy::Block => Offer::Full(frame),
            }
        }
    }

    /// Takes the oldest frame, if any.
    pub fn take(&mut self) -> (r: Option<String>)
        requires
            old(self).wf(),
        ensures
            final(self).wf(),
            final(self).spec_capacity() == old(self).spec_capacity(),
            final(self).spec_policy() == old(self).spec_policy(),
            r is None <==> old(self)@.len() == 0,
            r is Some ==> r->Some_0 == old(self)@[0] && final(self)@ == old(self)@.drop_first(),
            r is None ==> final(self)@ == old(self)@,
    {
        let r = self.items.pop_front();
        proof {
            if r is Some {
                assert(self.items@ =~= old(self)@.drop_first());
            }
        }
        r
    }

    /// How many frames wait.
    pub fn len(&self) -> (r: usize)
        ensures
            r == self@.len(),
    {
        self.items.len()
    }
}

/// While the queue has room for every frame offered, nothing is dropped or
/// refused: the frames join the queue in the order they were offered.
pub proof fn lemma_room_keeps_every_frame(
    items: Seq<String>,
    capacity: nat,
    policy: OverflowPolicy,
    frames: Seq<String>,
)
    requires
        items.len() + frames.len() <= capacity,
    ensures
        offer_all(items, capacity, policy, frames) == items + frames,
    decreases frames.len(),
{
    if frames.len() == 0 {
        assert(items + frames =~= items);
    } else {
        let rest = frames.subrange(1, frames.len() as int);
        lemma_room_keeps_every_frame(items.push(frames[0]), capacity, policy, rest);
        assert(items.push(frames[0]) + rest =~= items + frames);
    }
}

} // verus!
