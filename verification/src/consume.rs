use vstd::prelude::*;

use crate::event::{Event, EventModel};

verus! {

/// The consumer side of a traversal: receives one event at a time and
/// answers whether it took it. Declining an event suspends the traversal
/// with its position still at that event, so a later call offers the same
/// event again; this is the designed suspension mechanism, not an error.
pub trait EventConsumer<'a>: Sized {
    /// Models of the events accepted so far, oldest first.
    spec fn taken(&self) -> Seq<EventModel>;

    /// Whether the consumer, in its current state, would take this event.
    spec fn ready(&self, e: EventModel) -> bool;

    /// True for consumer types that can never decline an event.
    spec fn infallible() -> bool;

    /// How accepting events may change the consumer's state beyond its
    /// event history: every accepted event moves the consumer along this
    /// relation, so whatever it preserves (a buffer's capacity, a sink's
    /// identity) survives a whole traversal call.
    spec fn advanced(pre: Self, post: Self) -> bool;

    proof fn advanced_refl(a: Self)
        ensures
            Self::advanced(a, a),
    ;

    proof fn advanced_trans(a: Self, b: Self, c: Self)
        requires
            Self::advanced(a, b),
            Self::advanced(b, c),
        ensures
            Self::advanced(a, c),
    ;

    fn accept(&mut self, e: Event<'a>) -> (r: bool)
        ensures
            r == old(self).ready(e@),
            r ==> final(self).taken() == old(self).taken().push(e@),
            r ==> Self::advanced(*old(self), *final(self)),
            !r ==> *final(self) == *old(self),
            Self::infallible() ==> r,
    ;
}

/// Collects every event it is offered and never declines one: the strict,
/// uninterruptible fold over a value's whole stream.
pub struct Collector<'a> {
    pub events: Vec<Event<'a>>,
}

impl<'a> Collector<'a> {
    pub fn new() -> (c: Collector<'a>)
        ensures
            c.taken() == Seq::<EventModel>::empty(),
    {
        let c = Collector { events: Vec::new() };
        proof {
            assert(c.taken() =~= Seq::<EventModel>::empty());
        }
        c
    }
}

impl<'a> EventConsumer<'a> for Collector<'a> {
    open spec fn taken(&self) -> Seq<EventModel> {
        self.events@.map_values(|e: Event<'a>| e@)
    }

    open spec fn ready(&self, e: EventModel) -> bool {
        true
    }

    open spec fn infallible() -> bool {
        true
    }

    open spec fn advanced(pre: Self, post: Self) -> bool {
        true
    }

    proof fn advanced_refl(a: Self) {
    }

    proof fn advanced_trans(a: Self, b: Self, c: Self) {
    }

    fn accept(&mut self, e: Event<'a>) -> (r: bool) {
        let ghost before = self.events@;
        self.events.push(e);
        proof {
            assert(self.events@.map_values(|ev: Event<'a>| ev@) =~= before.map_values(
                |ev: Event<'a>| ev@,
            ).push(e@));
        }
        true
    }
}

/// Accepts events while a fixed capacity is not yet reached, then declines:
/// the best-effort bounded buffering consumer.
pub struct BufConsumer<'a> {
    pub buf: Vec<Event<'a>>,
    pub cap: usize,
}

impl<'a> EventConsumer<'a> for BufConsumer<'a> {
    open spec fn taken(&self) -> Seq<EventModel> {
        self.buf@.map_values(|e: Event<'a>| e@)
    }

    open spec fn ready(&self, e: EventModel) -> bool {
        self.buf@.len() < self.cap
    }

    open spec fn infallible() -> bool {
        false
    }

    open spec fn advanced(pre: Self, post: Self) -> bool {
        post.cap == pre.cap
    }

    proof fn advanced_refl(a: Self) {
    }

    proof fn advanced_trans(a: Self, b: Self, c: Self) {
    }

    fn accept(&mut self, e: Event<'a>) -> (r: bool) {
        if self.buf.len() < self.cap {
            let ghost before = self.buf@;
            self.buf.push(e);
            proof {
                assert(self.buf@.map_values(|ev: Event<'a>| ev@) =~= before.map_values(
                    |ev: Event<'a>| ev@,
                ).push(e@));
            }
            true
        } else {
            false
        }
    }
}

} // verus!
