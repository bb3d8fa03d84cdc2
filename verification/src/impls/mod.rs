use vstd::prelude::*;

pub mod atoms;
pub mod list;
pub mod map;

use crate::consume::EventConsumer;
use crate::event::{Atom, Event};
use crate::model::{events_cat_upto, events_of, value_fits, ValueModel};
use crate::state::{
    lemma_child_window, lemma_state_child, lemma_state_fresh, state_pos, state_wf,
};
use crate::{fold_contract, Cursor, FoldOutcome, Serializer, Stack};

verus! {

/// Shared traversal of every leaf shape: a leaf emits exactly one event,
/// then its position becomes terminal.
pub(crate) fn emit_atom<'a, C: EventConsumer<'a>>(
    atom: Atom<'a>,
    stack: &mut Stack,
    cursor: Cursor,
    consumer: &mut C,
) -> (r: FoldOutcome)
    requires
        cursor.depth < old(stack)@.len(),
        crate::state::state_wf(ValueModel::Atom(atom@), old(stack)@.skip(cursor.depth as int)),
    ensures
        fold_contract(
            ValueModel::Atom(atom@),
            old(stack)@,
            final(stack)@,
            cursor.depth as int,
            old(consumer).taken(),
            final(consumer).taken(),
            r,
        ),
        r == FoldOutcome::Suspended ==> !final(consumer).ready(
            events_of(ValueModel::Atom(atom@))[state_pos(
                ValueModel::Atom(atom@),
                final(stack)@.skip(cursor.depth as int),
            ) as int],
        ),
        C::advanced(*old(consumer), *final(consumer)),
        C::infallible() ==> r == FoldOutcome::Complete,
{
    let ghost v = ValueModel::Atom(atom@);
    proof {
        C::advanced_refl(*consumer);
    }
    let ghost evs = events_of(v);
    let ghost taken0 = consumer.taken();
    let ghost e_model = atom@;
    let ok = consumer.accept(Event::Atom(atom));
    proof {
        assert(evs =~= seq![crate::event::EventModel::Atom(e_model)]);
        assert(state_pos(v, old(stack)@.skip(cursor.depth as int)) == 0);
    }
    if ok {
        cursor.complete(stack);
        proof {
            assert(consumer.taken() =~= taken0 + evs.subrange(0, 1));
            assert(stack@.subrange(0, cursor.depth as int) =~= old(stack)@.subrange(
                0,
                cursor.depth as int,
            ));
        }
        FoldOutcome::Complete
    } else {
        proof {
            assert(consumer.taken() =~= taken0 + evs.subrange(0, 0));
        }
        FoldOutcome::Suspended
    }
}

/// Shared traversal of one direct child of a container whose counter at
/// this depth already points at it: descends one depth, folds the child's
/// remaining events, and aligns them with the parent's stream. On
/// completion the child's counters are gone and the parent's position
/// stands one past the child's window; on suspension the position points
/// at the first event the consumer declined.
#[verifier::rlimit(100)]
pub(crate) fn fold_child<'a, E: Serializer, C: EventConsumer<'a>>(
    elem: &'a E,
    Ghost(v): Ghost<ValueModel>,
    c: usize,
    stack: &mut Stack,
    cursor: Cursor,
    consumer: &mut C,
) -> (r: FoldOutcome)
    requires
        v.is_container(),
        1 <= c <= v.children().len(),
        v.children()[c - 1] == elem.model(),
        value_fits(elem.model()),
        cursor.depth < old(stack)@.len(),
        old(stack)@[cursor.depth as int] == c,
        state_wf(v, old(stack)@.skip(cursor.depth as int)),
    ensures
        ({
            let depth = cursor.depth as int;
            let evs = events_of(v);
            let q0 = state_pos(v, old(stack)@.skip(depth));
            let n_new = final(consumer).taken().len() - old(consumer).taken().len();
            &&& final(stack)@.subrange(0, depth + 1) == old(stack)@.subrange(0, depth + 1)
            &&& final(consumer).taken().len() >= old(consumer).taken().len()
            &&& q0 + n_new <= evs.len() - 1
            &&& final(consumer).taken() == old(consumer).taken() + evs.subrange(
                q0 as int,
                q0 + n_new,
            )
            &&& match r {
                FoldOutcome::Complete => {
                    &&& final(stack)@ == old(stack)@.subrange(0, depth + 1)
                    &&& q0 + n_new == 1 + events_cat_upto(v.children(), c as int).len()
                },
                FoldOutcome::Suspended => {
                    &&& final(stack)@.len() > depth
                    &&& state_wf(v, final(stack)@.skip(depth))
                    &&& state_pos(v, final(stack)@.skip(depth)) == q0 + n_new
                    &&& !final(consumer).ready(events_of(v)[q0 + n_new])
                },
            }
        }),
        C::advanced(*old(consumer), *final(consumer)),
        C::infallible() ==> r == FoldOutcome::Complete,
{
    let ghost depth = cursor.depth as int;
    let ghost stack00 = stack@;
    let ghost suffix_in = stack@.skip(depth);
    let ghost taken00 = consumer.taken();
    let ghost q_in = state_pos(v, suffix_in);
    let ghost child = v.children()[c - 1];
    let ghost off = 1 + events_cat_upto(v.children(), c as int - 1).len() as int;
    proof {
        assert(suffix_in[0] == c);
        lemma_child_window(v, c as int - 1);
        if suffix_in.len() == 1 {
            assert(suffix_in =~= seq![c] + Seq::<usize>::empty());
            lemma_state_child(v, c, Seq::<usize>::empty());
        } else {
            assert(suffix_in =~= seq![c] + suffix_in.drop_first());
            lemma_state_child(v, c, suffix_in.drop_first());
        }
    }
    let ghost stack_pre = stack@;
    let cc = cursor.deeper(stack);
    proof {
        if suffix_in.len() == 1 {
            assert(stack_pre.len() == depth + 1);
            assert(stack@ =~= stack_pre.push(0usize));
            assert(stack@.skip(depth + 1) =~= seq![0usize]);
            lemma_state_fresh(child);
        } else {
            assert(stack@ == stack_pre);
            assert(stack@.skip(depth + 1) =~= suffix_in.drop_first());
        }
        assert(stack_pre.subrange(0, depth + 1)[depth] == c);
        assert(stack@.subrange(0, depth + 1)[depth] == c);
        assert(stack@[depth] == c);
    }
    let ghost stack_mid = stack@;
    let ghost cp0 = state_pos(child, stack_mid.skip(depth + 1));
    proof {
        // the parent position decomposes as start + earlier children + child progress
        assert(stack_mid.skip(depth) =~= seq![c] + stack_mid.skip(depth + 1));
        lemma_state_child(v, c, stack_mid.skip(depth + 1));
        assert(state_pos(v, stack_mid.skip(depth)) == off + cp0);
        assert(state_pos(v, stack_mid.skip(depth)) == q_in);
    }
    let out = elem.try_fold(stack, cc, consumer);
    let ghost m = consumer.taken().len() - taken00.len();
    proof {
        // align the child's emitted window with the parent stream
        let cevs = events_of(child);
        assert(consumer.taken() =~= taken00 + cevs.subrange(cp0 as int, cp0 + m));
        assert(events_of(v).subrange(off + cp0, off + cp0 + m) =~= cevs.subrange(
            cp0 as int,
            cp0 + m,
        ));
        assert(consumer.taken() =~= taken00 + events_of(v).subrange(q_in as int, q_in + m));
        // this call's frame is untouched below the child's depth
        assert(stack@.subrange(0, depth + 1) == stack_mid.subrange(0, depth + 1));
        assert(stack@.subrange(0, depth + 1) =~= stack00.subrange(0, depth + 1));
    }
    match out {
        FoldOutcome::Suspended => {
            proof {
                let cevs = events_of(child);
                assert(stack@.skip(depth) =~= seq![c] + stack@.skip(depth + 1));
                lemma_state_child(v, c, stack@.skip(depth + 1));
                assert(state_pos(v, stack@.skip(depth)) == off + cp0 + m);
                assert(cp0 + m < cevs.len());
                assert(off + cevs.len() <= events_of(v).len() - 1);
            }
            FoldOutcome::Suspended
        },
        FoldOutcome::Complete => {
            proof {
                let cevs = events_of(child);
                assert(cp0 + m == cevs.len());
                assert(stack@ =~= stack00.subrange(0, depth + 1));
                assert(events_cat_upto(v.children(), c as int).len() == events_cat_upto(
                    v.children(),
                    c as int - 1,
                ).len() + cevs.len());
            }
            FoldOutcome::Complete
        },
    }
}

} // verus!
