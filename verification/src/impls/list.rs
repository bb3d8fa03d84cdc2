use vstd::prelude::*;

use super::{emit_atom, fold_child};
use crate::consume::EventConsumer;
use crate::event::{Atom, AtomModel, Blob, Event};
use crate::model::{events_cat_upto, events_of, lemma_cat_len_ge, value_fits, ValueModel};
use crate::state::{
    lemma_container_layout, lemma_pos_bound, lemma_state_child, lemma_state_end, state_pos,
    state_wf,
};
use crate::{fold_contract, Cursor, FoldOutcome, Serializer, Stack};

verus! {

/// The value a slice of `T` denotes: one byte-string atom when the element
/// type serializes as bytes, otherwise the ordered sequence of the
/// elements' values.
pub open spec fn slice_model<T: Serializer>(s: Seq<T>) -> ValueModel {
    if T::is_byte() {
        ValueModel::Atom(AtomModel::Bytes(s.map_values(|t: T| t.byte_value())))
    } else {
        ValueModel::Sequence(s.map_values(|t: T| t.model()))
    }
}

/// Traversal shared by every sequence shape. Emits the start marker with
/// the exact element count, each element's sub-traversal in order, and the
/// end marker — unless the elements are bytes, in which case the whole
/// slice collapses into a single borrowed byte-string atom before any
/// generic sequence logic runs.
#[verifier::loop_isolation(false)]
#[verifier::rlimit(100)]
pub(crate) fn fold_slice<'a, T: Serializer, C: EventConsumer<'a>>(
    slice: &'a [T],
    stack: &mut Stack,
    cursor: Cursor,
    consumer: &mut C,
) -> (r: FoldOutcome)
    requires
        cursor.depth < old(stack)@.len(),
        state_wf(slice_model(slice@), old(stack)@.skip(cursor.depth as int)),
        value_fits(slice_model(slice@)),
    ensures
        fold_contract(
            slice_model(slice@),
            old(stack)@,
            final(stack)@,
            cursor.depth as int,
            old(consumer).taken(),
            final(consumer).taken(),
            r,
        ),
        r == FoldOutcome::Suspended ==> !final(consumer).ready(
            events_of(slice_model(slice@))[state_pos(
                slice_model(slice@),
                final(stack)@.skip(cursor.depth as int),
            ) as int],
        ),
        C::advanced(*old(consumer), *final(consumer)),
        C::infallible() ==> r == FoldOutcome::Complete,
{
    proof {
        C::advanced_refl(*consumer);
    }
    let ghost v = slice_model(slice@);
    let ghost evs = events_of(v);
    let ghost depth = cursor.depth as int;
    let ghost stack0 = stack@;
    let ghost taken0 = consumer.taken();
    let ghost con0 = *consumer;
    let ghost p0 = state_pos(v, stack0.skip(depth));

    match T::slice_as_bytes(slice) {
        Some(bs) => {
            let atom = Atom::Bytes(Blob::Borrowed(bs));
            proof {
                assert(v == ValueModel::Atom(atom@));
            }
            emit_atom(atom, stack, cursor, consumer)
        },
        None => {
            let ghost elems = slice@.map_values(|t: T| t.model());
            proof {
                assert(v == ValueModel::Sequence(elems));
                assert(v.children() == elems);
                lemma_container_layout(v);
            }
            let len = slice.len();
            let mut c = cursor.get(stack);
            proof {
                assert(stack0.skip(depth)[0] == c);
            }

            if c == 0 {
                proof {
                    assert(stack0.skip(depth) =~= seq![0usize]);
                    assert(p0 == 0);
                }
                let ok = consumer.accept(Event::SeqStart(Some(len)));
                if !ok {
                    proof {
                        assert(consumer.taken() =~= taken0 + evs.subrange(0, 0));
                        assert(stack@.subrange(0, depth) =~= stack0.subrange(0, depth));
                        crate::model::lemma_events_len_ge_one(v);
                    }
                    return FoldOutcome::Suspended;
                }
                cursor.next(stack);
                c = 1;
                proof {
                    assert(stack@.skip(depth) =~= seq![1usize]);
                    if len == 0 {
                        lemma_state_end(v);
                        assert(state_pos(v, stack@.skip(depth)) == 1);
                    } else {
                        assert(seq![1usize] =~= seq![1usize] + Seq::<usize>::empty());
                        lemma_state_child(v, 1, Seq::<usize>::empty());
                    }
                    assert(evs[0] == v.start_event());
                    assert(consumer.taken() =~= taken0 + evs.subrange(0, 1));
                    assert(stack@.subrange(0, depth) =~= stack0.subrange(0, depth));
                }
            }

            proof {
                lemma_pos_bound(v, stack@.skip(depth));
                assert(taken0 + evs.subrange(p0 as int, p0 as int) =~= taken0);
            }
            while c <= len
                invariant
                    1 <= c <= len + 1,
                    stack@.len() > depth,
                    stack@[depth] == c,
                    stack@.subrange(0, depth) == stack0.subrange(0, depth),
                    state_wf(v, stack@.skip(depth)),
                    consumer.taken().len() >= taken0.len(),
                C::advanced(con0, *consumer),
                    p0 <= state_pos(v, stack@.skip(depth)),
                    consumer.taken() == taken0 + evs.subrange(
                        p0 as int,
                        state_pos(v, stack@.skip(depth)) as int,
                    ),
                decreases len + 1 - c,
            {
                let ghost q_in = state_pos(v, stack@.skip(depth));
                let elem = &slice[c - 1];
                proof {
                    assert((*elem).model() == elems[c - 1]);
                    assert(value_fits((*elem).model()));
                }
                let ghost con_pre = *consumer;
                let out = fold_child(elem, Ghost(v), c, stack, cursor, consumer);
                proof {
                    C::advanced_trans(con0, con_pre, *consumer);
                    assert(stack@.subrange(0, depth) =~= stack0.subrange(0, depth));
                }
                match out {
                    FoldOutcome::Suspended => {
                        proof {
                            let q = state_pos(v, stack@.skip(depth));
                            assert(consumer.taken() =~= taken0 + evs.subrange(p0 as int, q_in as int)
                                + evs.subrange(q_in as int, q as int));
                            assert(consumer.taken() =~= taken0 + evs.subrange(p0 as int, q as int));
                        }
                        return FoldOutcome::Suspended;
                    },
                    FoldOutcome::Complete => {
                        let ghost q = 1 + events_cat_upto(elems, c as int).len();
                        proof {
                            assert(stack@.len() == depth + 1);
                            assert(stack@[depth] == c);
                            assert(c < usize::MAX);
                            assert(consumer.taken() =~= taken0 + evs.subrange(p0 as int, q_in as int)
                                + evs.subrange(q_in as int, q as int));
                            assert(consumer.taken() =~= taken0 + evs.subrange(p0 as int, q as int));
                        }
                        cursor.next(stack);
                        c = c + 1;
                        proof {
                            assert(stack@.skip(depth) =~= seq![c]);
                            if c <= len {
                                assert(seq![c] =~= seq![c] + Seq::<usize>::empty());
                                lemma_state_child(v, c, Seq::<usize>::empty());
                                assert(state_pos(v, stack@.skip(depth)) == q);
                            } else {
                                lemma_state_end(v);
                                lemma_container_layout(v);
                                assert(state_pos(v, stack@.skip(depth)) == q);
                            }
                            assert(stack@.subrange(0, depth) =~= stack0.subrange(0, depth));
                        }
                    },
                }
            }

            proof {
                assert(c == len + 1);
                assert(stack@.skip(depth) =~= seq![(len + 1) as usize]);
                lemma_state_end(v);
                assert(state_pos(v, stack@.skip(depth)) == evs.len() - 1);
            }
            let ghost q_end = state_pos(v, stack@.skip(depth));
            let ghost taken_end = consumer.taken();
            let ghost con_end = *consumer;
            let ok = consumer.accept(Event::SeqEnd);
            proof {
                if ok {
                    C::advanced_trans(con0, con_end, *consumer);
                }
            }
            if !ok {
                return FoldOutcome::Suspended;
            }
            proof {
                assert(evs[evs.len() - 1] == v.end_event());
                assert(consumer.taken() =~= taken_end.push(evs[evs.len() - 1]));
                assert(consumer.taken() =~= taken0 + evs.subrange(p0 as int, q_end as int)
                    + evs.subrange(q_end as int, evs.len() as int));
                assert(consumer.taken() =~= taken0 + evs.subrange(p0 as int, evs.len() as int));
            }
            cursor.complete(stack);
            proof {
                assert(stack@ =~= stack0.subrange(0, depth));
                assert(stack@.subrange(0, depth) =~= stack0.subrange(0, depth));
            }
            FoldOutcome::Complete
        },
    }
}

impl<'s, T: Serializer> Serializer for &'s [T] {
    open spec fn model(&self) -> ValueModel {
        slice_model((*self)@)
    }

    open spec fn is_byte() -> bool {
        false
    }

    open spec fn byte_value(&self) -> u8 {
        0
    }

    fn estimate_size(&self) -> (n: usize) {
        estimate_slice(*self)
    }

    fn slice_as_bytes<'x>(v: &'x [&'s [T]]) -> (r: Option<&'x [u8]>) {
        None
    }

    fn try_fold<'a, C: EventConsumer<'a>>(
        &'a self,
        stack: &mut Stack,
        cursor: Cursor,
        consumer: &mut C,
    ) -> (r: FoldOutcome) {
        fold_slice(*self, stack, cursor, consumer)
    }
}

impl<T: Serializer> Serializer for Vec<T> {
    open spec fn model(&self) -> ValueModel {
        slice_model(self@)
    }

    open spec fn is_byte() -> bool {
        false
    }

    open spec fn byte_value(&self) -> u8 {
        0
    }

    fn estimate_size(&self) -> (n: usize) {
        estimate_slice(self.as_slice())
    }

    fn slice_as_bytes(v: &[Vec<T>]) -> (r: Option<&[u8]>) {
        None
    }

    fn try_fold<'a, C: EventConsumer<'a>>(
        &'a self,
        stack: &mut Stack,
        cursor: Cursor,
        consumer: &mut C,
    ) -> (r: FoldOutcome) {
        fold_slice(self.as_slice(), stack, cursor, consumer)
    }
}

/// Event-count lower bound shared by the sequence shapes: one event for a
/// byte slice, the element count plus the two markers otherwise.
fn estimate_slice<T: Serializer>(slice: &[T]) -> (n: usize)
    ensures
        n as nat <= events_of(slice_model(slice@)).len(),
{
    let ghost v = slice_model(slice@);
    match T::slice_as_bytes(slice) {
        Some(_) => 1,
        None => {
            proof {
                let elems = slice@.map_values(|t: T| t.model());
                lemma_container_layout(v);
                lemma_cat_len_ge(elems, 0);
            }
            let len = slice.len();
            if len <= usize::MAX - 2 {
                len + 2
            } else {
                usize::MAX
            }
        },
    }
}


impl<T: Serializer, const N: usize> Serializer for [T; N] {
    open spec fn model(&self) -> ValueModel {
        slice_model(self@)
    }

    open spec fn is_byte() -> bool {
        false
    }

    open spec fn byte_value(&self) -> u8 {
        0
    }

    fn estimate_size(&self) -> (n: usize) {
        estimate_slice(vstd::array::array_as_slice(self))
    }

    fn slice_as_bytes(v: &[[T; N]]) -> (r: Option<&[u8]>) {
        None
    }

    fn try_fold<'a, C: EventConsumer<'a>>(
        &'a self,
        stack: &mut Stack,
        cursor: Cursor,
        consumer: &mut C,
    ) -> (r: FoldOutcome) {
        fold_slice(vstd::array::array_as_slice(self), stack, cursor, consumer)
    }
}

} // verus!
