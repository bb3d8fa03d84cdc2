//! A format-agnostic engine that turns nested in-memory values into a flat,
//! ordered stream of structural events, produced incrementally: a consumer
//! may stop taking events at any point and resume the same traversal later,
//! with no event re-emitted, skipped, or reordered.

use vstd::prelude::*;

pub mod cbor;
pub mod consume;
pub mod event;
pub mod flow;
pub mod impls;
pub mod json;
pub mod laws;
pub mod model;
pub mod state;

use crate::consume::{BufConsumer, EventConsumer};
use crate::event::{AtomModel, Event, EventModel};
use crate::flow::{Flow, Try};
use crate::impls::list::{fold_slice, slice_model};
use crate::model::{events_of, value_fits, ValueModel};
use crate::state::{lemma_state_fresh, state_pos, state_wf};

verus! {

/// The shared per-traversal position: one counter per nesting depth,
/// recording how many children are already fully emitted at that depth
/// (see `state::state_wf` for the exact encoding). Owned by the caller,
/// created once per traversal, and mutated in place by every call.
pub struct Stack {
    stack: Vec<usize>,
}

impl View for Stack {
    type V = Seq<usize>;

    closed spec fn view(&self) -> Seq<usize> {
        self.stack@
    }
}

impl Stack {
    /// A stack with no position recorded yet.
    pub fn new() -> (s: Stack)
        ensures
            s@ == Seq::<usize>::empty(),
    {
        Stack { stack: Vec::with_capacity(8) }
    }

    /// Begins or resumes a traversal: makes sure a top-level counter
    /// exists and hands out the cursor for depth 0.
    pub fn start(&mut self) -> (c: Cursor)
        ensures
            c.depth == 0,
            old(self)@.len() == 0 ==> final(self)@ == seq![0usize],
            old(self)@.len() > 0 ==> final(self)@ == old(self)@,
            final(self)@.len() >= 1,
    {
        if self.stack.len() == 0 {
            self.stack.push(0);
        }
        Cursor { depth: 0 }
    }
}

impl Default for Stack {
    fn default() -> (s: Self)
        ensures
            s@ == Seq::<usize>::empty(),
    {
        Stack::new()
    }
}

/// A view of the position stack at one nesting depth. A traversal call
/// reads and advances its own depth's counter and hands a deeper cursor
/// to each child it recurses into.
#[derive(Clone, Copy)]
pub struct Cursor {
    pub depth: usize,
}

impl Cursor {
    /// The counter at this depth.
    pub fn get(&self, stack: &Stack) -> (n: usize)
        requires
            self.depth < stack@.len(),
        ensures
            n == stack@[self.depth as int],
    {
        stack.stack[self.depth]
    }

    /// Advances the counter at this depth: one more child is complete.
    pub fn next(&self, stack: &mut Stack)
        requires
            self.depth < old(stack)@.len(),
            old(stack)@[self.depth as int] < usize::MAX,
        ensures
            final(stack)@ == old(stack)@.update(
                self.depth as int,
                (old(stack)@[self.depth as int] + 1) as usize,
            ),
    {
        let n = stack.stack[self.depth];
        stack.stack.set(self.depth, n + 1);
    }

    /// The cursor one depth deeper, making sure its counter exists; a
    /// child whose traversal was suspended keeps its recorded position.
    pub fn deeper(&self, stack: &mut Stack) -> (c: Cursor)
        requires
            self.depth < old(stack)@.len(),
        ensures
            c.depth == self.depth + 1,
            old(stack)@.len() == self.depth + 1 ==> final(stack)@ == old(stack)@.push(0usize),
            old(stack)@.len() > self.depth + 1 ==> final(stack)@ == old(stack)@,
            c.depth < final(stack)@.len(),
            final(stack)@.subrange(0, self.depth + 1) == old(stack)@.subrange(0, self.depth + 1),
    {
        let n = stack.stack.len();
        let depth = self.depth + 1;
        if n == depth {
            stack.stack.push(0);
        }
        proof {
            assert(stack@.subrange(0, self.depth + 1) =~= old(stack)@.subrange(
                0,
                self.depth + 1,
            ));
        }
        Cursor { depth }
    }

    /// Removes this depth's counter and everything below it: the value
    /// traversed at this depth is fully emitted.
    pub fn complete(self, stack: &mut Stack)
        requires
            self.depth <= old(stack)@.len(),
        ensures
            final(stack)@ == old(stack)@.subrange(0, self.depth as int),
    {
        stack.stack.truncate(self.depth);
        proof {
            assert(stack@ =~= old(stack)@.subrange(0, self.depth as int));
        }
    }
}

/// How a traversal call ended: the value's remaining events were all
/// delivered, or the consumer declined one and the position stays at it.
#[derive(PartialEq, Eq, Structural, Clone, Copy, Debug)]
pub enum FoldOutcome {
    Complete,
    Suspended,
}

/// The contract every traversal call obeys, stated over the value's model:
/// the consumer receives exactly the next events of `events_of(v)`,
/// starting at the position the stack denoted on entry; counters above
/// this call's depth are untouched; on completion this call's counters are
/// gone, and on suspension they denote exactly the first undelivered event.
pub open spec fn fold_contract(
    v: ValueModel,
    stack0: Seq<usize>,
    stack1: Seq<usize>,
    depth: int,
    taken0: Seq<EventModel>,
    taken1: Seq<EventModel>,
    r: FoldOutcome,
) -> bool {
    let evs = events_of(v);
    let p0 = state_pos(v, stack0.skip(depth));
    let n_new = taken1.len() - taken0.len();
    &&& stack1.subrange(0, depth) == stack0.subrange(0, depth)
    &&& taken1.len() >= taken0.len()
    &&& p0 + n_new <= evs.len()
    &&& taken1 == taken0 + evs.subrange(p0 as int, p0 + n_new)
    &&& match r {
        FoldOutcome::Complete => p0 + n_new == evs.len() && stack1.len() == depth,
        FoldOutcome::Suspended => {
            &&& p0 + n_new < evs.len()
            &&& stack1.len() > depth
            &&& state_wf(v, stack1.skip(depth))
            &&& state_pos(v, stack1.skip(depth)) == p0 + n_new
        },
    }
}

/// The traversal capability: a serializable value knows its mathematical
/// model and can fold the model's event stream into any consumer, one
/// event at a time, suspending and resuming at the consumer's pace.
pub trait Serializer: Sized {
    /// The value tree this object serializes as.
    spec fn model(&self) -> ValueModel;

    /// Whether values of this type serialize as single bytes, so that a
    /// whole sequence of them collapses into one byte-string atom.
    spec fn is_byte() -> bool;

    /// The byte a value stands for, meaningful only when `is_byte()`.
    spec fn byte_value(&self) -> u8;

    /// A cheap lower bound on how many events this value will emit, for
    /// buffer pre-sizing only; never a correctness dependency.
    fn estimate_size(&self) -> (n: usize)
        ensures
            n as nat <= events_of(self.model()).len(),
    ;

    /// The byte-specialization hook: reinterprets a whole slice of this
    /// type as one contiguous borrowed byte view, if and only if the
    /// element type serializes as bytes. Invoked by every sequence shape
    /// before any generic per-element logic runs.
    fn slice_as_bytes(v: &[Self]) -> (r: Option<&[u8]>)
        ensures
            match r {
                Some(bs) => Self::is_byte() && bs@ == v@.map_values(|t: Self| t.byte_value()),
                None => !Self::is_byte(),
            },
    ;

    /// The core operation: delivers the value's next events to `consumer`,
    /// in stream order, until the consumer declines one or the stream is
    /// exhausted, leaving `stack` so that a later call resumes exactly
    /// after the last delivered event.
    fn try_fold<'a, C: EventConsumer<'a>>(
        &'a self,
        stack: &mut Stack,
        cursor: Cursor,
        consumer: &mut C,
    ) -> (r: FoldOutcome)
        requires
            cursor.depth < old(stack)@.len(),
            state_wf(self.model(), old(stack)@.skip(cursor.depth as int)),
            value_fits(self.model()),
        ensures
            fold_contract(
                self.model(),
                old(stack)@,
                final(stack)@,
                cursor.depth as int,
                old(consumer).taken(),
                final(consumer).taken(),
                r,
            ),
            r == FoldOutcome::Suspended ==> !final(consumer).ready(
                events_of(self.model())[state_pos(
                    self.model(),
                    final(stack)@.skip(cursor.depth as int),
                ) as int],
            ),
            C::advanced(*old(consumer), *final(consumer)),
            C::infallible() ==> r == FoldOutcome::Complete,
    ;
}


/// Folds a value's whole remaining stream into a consumer that can never
/// decline an event: the strict, uninterruptible collection path. It is
/// `try_fold` applied to such a consumer, with no behaviour of its own.
pub fn fold_events<'a, T: Serializer, C: EventConsumer<'a>>(
    v: &'a T,
    stack: &mut Stack,
    cursor: Cursor,
    consumer: &mut C,
)
    requires
        C::infallible(),
        cursor.depth < old(stack)@.len(),
        state_wf(v.model(), old(stack)@.skip(cursor.depth as int)),
        value_fits(v.model()),
    ensures
        fold_contract(
            v.model(),
            old(stack)@,
            final(stack)@,
            cursor.depth as int,
            old(consumer).taken(),
            final(consumer).taken(),
            FoldOutcome::Complete,
        ),
        final(consumer).taken() == old(consumer).taken() + events_of(v.model()).subrange(
            state_pos(v.model(), old(stack)@.skip(cursor.depth as int)) as int,
            events_of(v.model()).len() as int,
        ),
        final(stack)@ == old(stack)@.subrange(0, cursor.depth as int),
{
    let ghost stack0 = stack@;
    let ghost depth = cursor.depth as int;
    let r = v.try_fold(stack, cursor, consumer);
    proof {
        assert(r == FoldOutcome::Complete);
        assert(stack@ =~= stack0.subrange(0, depth));
    }
}

/// Runs one traversal call and reports its outcome through any
/// short-circuit carrier: completion continues with the unit value,
/// suspension breaks with `stall`.
pub fn try_for_each_event<'a, T: Serializer, C: EventConsumer<'a>, R: Try<Continue = ()>>(
    v: &'a T,
    stack: &mut Stack,
    cursor: Cursor,
    consumer: &mut C,
    stall: R::Break,
) -> (r: R)
    requires
        cursor.depth < old(stack)@.len(),
        state_wf(v.model(), old(stack)@.skip(cursor.depth as int)),
        value_fits(v.model()),
    ensures
        match r.flow() {
            Flow::Continue(u) => fold_contract(
                v.model(),
                old(stack)@,
                final(stack)@,
                cursor.depth as int,
                old(consumer).taken(),
                final(consumer).taken(),
                FoldOutcome::Complete,
            ),
            Flow::Break(b) => b == stall && fold_contract(
                v.model(),
                old(stack)@,
                final(stack)@,
                cursor.depth as int,
                old(consumer).taken(),
                final(consumer).taken(),
                FoldOutcome::Suspended,
            ),
        },
        C::infallible() ==> r.flow() is Continue,
{
    match v.try_fold(stack, cursor, consumer) {
        FoldOutcome::Complete => R::from_continue(()),
        FoldOutcome::Suspended => R::from_break(stall),
    }
}

/// Best-effort fill of an event buffer: appends the value's next events
/// to `buf` until it holds `cap` events or the stream is exhausted. A
/// suspended outcome means the buffer reached its capacity.
pub fn fill_buffer<'a, T: Serializer>(
    v: &'a T,
    stack: &mut Stack,
    cursor: Cursor,
    buf: &mut Vec<Event<'a>>,
    cap: usize,
) -> (r: FoldOutcome)
    requires
        cursor.depth < old(stack)@.len(),
        state_wf(v.model(), old(stack)@.skip(cursor.depth as int)),
        value_fits(v.model()),
    ensures
        fold_contract(
            v.model(),
            old(stack)@,
            final(stack)@,
            cursor.depth as int,
            old(buf)@.map_values(|e: Event<'a>| e@),
            final(buf)@.map_values(|e: Event<'a>| e@),
            r,
        ),
        r == FoldOutcome::Suspended ==> final(buf)@.len() >= cap,
{
    let mut consumer = BufConsumer { buf: Vec::new(), cap: cap };
    core::mem::swap(&mut consumer.buf, buf);
    let r = v.try_fold(stack, cursor, &mut consumer);
    proof {
        if r == FoldOutcome::Suspended {
            let ev = events_of(v.model())[state_pos(
                v.model(),
                stack@.skip(cursor.depth as int),
            ) as int];
            assert(!consumer.ready(ev));
            assert(consumer.buf@.len() >= cap);
        }
    }
    core::mem::swap(&mut consumer.buf, buf);
    r
}

/// Serializes a byte slice into a fresh event buffer: by byte
/// specialization this is always exactly one event, the borrowed
/// byte-string atom, whatever the slice's length.
pub fn bytes(x: &[u8]) -> (v: Vec<Event<'_>>)
    ensures
        v@.len() == 1,
        v@[0]@ == EventModel::Atom(AtomModel::Bytes(x@)),
{
    let mut stack = Stack::new();
    let cursor = stack.start();
    let mut consumer = BufConsumer { buf: Vec::with_capacity(128), cap: 128 };
    proof {
        lemma_state_fresh(slice_model(x@));
        assert(stack@.skip(0) =~= seq![0usize]);
        assert(consumer.taken() =~= Seq::<EventModel>::empty());
    }
    let r = fold_slice(x, &mut stack, cursor, &mut consumer);
    proof {
        let v = slice_model(x@);
        let evs = events_of(v);
        assert(x@.map_values(|t: u8| t.byte_value()) =~= x@);
        assert(evs =~= seq![EventModel::Atom(AtomModel::Bytes(x@))]);
        if r == FoldOutcome::Suspended {
            // impossible: the consumer's buffer is empty, far below its capacity
            assert(consumer.taken().len() == 0);
            assert(consumer.buf@.len() == 0);
            assert(false);
        }
        assert(consumer.taken() =~= evs);
        assert(consumer.buf@[0]@ == evs[0]);
    }
    consumer.buf
}

/// Serializes a slice of integers into a fresh event buffer of at most
/// 128 events: the whole stream when it fits, else a prefix of it.
pub fn ints(x: &[i32]) -> (v: Vec<Event<'_>>)
    requires
        x@.len() < usize::MAX,
    ensures
        ({
            let evs = events_of(slice_model(x@));
            &&& v@.len() <= evs.len()
            &&& v@.map_values(|e: Event| e@) == evs.subrange(0, v@.len() as int)
            &&& (v@.len() == evs.len() || v@.len() >= 128)
        }),
{
    let ghost m = slice_model(x@);
    proof {
        let elems = x@.map_values(|t: i32| t.model());
        assert(m == ValueModel::Sequence(elems));
        assert forall|i: int| 0 <= i < elems.len() implies value_fits(#[trigger] elems[i]) by {
            assert(elems[i] == x@[i].model());
        }
        assert(value_fits(m));
    }
    let mut stack = Stack::new();
    let cursor = stack.start();
    let mut consumer = BufConsumer { buf: Vec::with_capacity(128), cap: 128 };
    proof {
        lemma_state_fresh(m);
        assert(stack@.skip(0) =~= seq![0usize]);
        assert(consumer.taken() =~= Seq::<EventModel>::empty());
    }
    let r = fold_slice(x, &mut stack, cursor, &mut consumer);
    proof {
        let evs = events_of(m);
        assert(consumer.taken() =~= Seq::<EventModel>::empty() + evs.subrange(
            0,
            consumer.taken().len() as int,
        ));
        assert(consumer.taken() =~= evs.subrange(0, consumer.buf@.len() as int));
        if r == FoldOutcome::Suspended {
            assert(consumer.buf@.len() >= 128);
        }
    }
    consumer.buf
}


/// Why an encoder declined an event: the atom kind has no rendering in
/// that format.
#[derive(PartialEq, Eq, Structural, Clone, Copy, Debug)]
pub enum EncodeError {
    UnsupportedAtom,
}

} // verus!
