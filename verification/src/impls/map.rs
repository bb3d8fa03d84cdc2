use vstd::prelude::*;

use super::fold_child;
use crate::consume::EventConsumer;
use crate::event::Event;
use crate::model::{
    events_cat_upto, events_of, interleaved, lemma_cat_len_ge, value_fits, ValueModel,
};
use crate::state::{
    lemma_container_layout, lemma_pos_bound, lemma_state_child, lemma_state_end, pair_child,
    state_pos, state_wf,
};
use crate::{Cursor, FoldOutcome, Serializer, Stack};

verus! {

/// An associative container of key/value pairs, kept in insertion order.
/// It serializes as a map: a start marker carrying the exact pair count,
/// then for each pair the key's full sub-traversal followed by the
/// value's, then an end marker. The data model expects keys to be unique;
/// the traversal neither needs nor checks that, so callers keep it.
pub struct Assoc<K, V> {
    entries: Vec<(K, V)>,
}

impl<K, V> View for Assoc<K, V> {
    type V = Seq<(K, V)>;

    closed spec fn view(&self) -> Seq<(K, V)> {
        self.entries@
    }
}

impl<K, V> Assoc<K, V> {
    /// An empty container.
    pub fn new() -> (a: Assoc<K, V>)
        ensures
            a@ == Seq::<(K, V)>::empty(),
    {
        Assoc { entries: Vec::new() }
    }

    /// Appends one pair; the caller keeps keys unique.
    pub fn push(&mut self, key: K, value: V)
        ensures
            final(self)@ == old(self)@.push((key, value)),
    {
        self.entries.push((key, value));
    }

    /// How many pairs the container holds.
    pub fn len(&self) -> (n: usize)
        ensures
            n == self@.len(),
    {
        self.entries.len()
    }
}

impl<K: Serializer, V: Serializer> Assoc<K, V> {
    /// The data model's expectation on an associative container: no two
    /// pairs share a key, keys compared by the value they serialize as.
    /// The traversal neither needs nor checks it; whoever builds the
    /// container keeps it.
    pub open spec fn keys_unique(&self) -> bool {
        forall|i: int, j: int|
            0 <= i < j < self@.len() ==> self@[i].0.model() != self@[j].0.model()
    }
}

/// The value an associative container denotes: the ordered list of its
/// pairs' models.
pub open spec fn assoc_model<K: Serializer, V: Serializer>(s: Seq<(K, V)>) -> ValueModel {
    ValueModel::Mapping(s.map_values(|p: (K, V)| (p.0.model(), p.1.model())))
}

impl<K: Serializer, V: Serializer> Serializer for Assoc<K, V> {
    open spec fn model(&self) -> ValueModel {
        assoc_model(self@)
    }

    open spec fn is_byte() -> bool {
        false
    }

    open spec fn byte_value(&self) -> u8 {
        0
    }

    fn estimate_size(&self) -> (n: usize) {
        let ghost v = self.model();
        proof {
            let pairs = self@.map_values(|p: (K, V)| (p.0.model(), p.1.model()));
            lemma_container_layout(v);
            lemma_cat_len_ge(interleaved(pairs), 0);
        }
        let len = self.entries.len();
        if len <= (usize::MAX - 2) / 2 {
            len * 2 + 2
        } else {
            usize::MAX
        }
    }

    fn slice_as_bytes(v: &[Assoc<K, V>]) -> (r: Option<&[u8]>) {
        None
    }

    #[verifier::loop_isolation(false)]
    #[verifier::rlimit(100)]
    fn try_fold<'a, C: EventConsumer<'a>>(
        &'a self,
        stack: &mut Stack,
        cursor: Cursor,
        consumer: &mut C,
    ) -> (r: FoldOutcome) {
        proof {
            C::advanced_refl(*consumer);
        }
        let ghost v = self.model();
        let ghost evs = events_of(v);
        let ghost depth = cursor.depth as int;
        let ghost stack0 = stack@;
        let ghost taken0 = consumer.taken();
    let ghost con0 = *consumer;
        let ghost p0 = state_pos(v, stack0.skip(depth));
        let ghost pairs = self@.map_values(|p: (K, V)| (p.0.model(), p.1.model()));
        proof {
            assert(v == ValueModel::Mapping(pairs));
            assert(v.children() == interleaved(pairs));
            lemma_container_layout(v);
        }
        let len = self.entries.len();
        let total = 2 * len;
        let mut c = cursor.get(stack);
        proof {
            assert(stack0.skip(depth)[0] == c);
        }

        if c == 0 {
            proof {
                assert(stack0.skip(depth) =~= seq![0usize]);
                assert(p0 == 0);
            }
            let ok = consumer.accept(Event::MapStart(Some(len)));
            if !ok {
                proof {
                    assert(consumer.taken() =~= taken0 + evs.subrange(0, 0));
                    assert(stack@.subrange(0, depth) =~= stack0.subrange(0, depth));
                    crate::model::lemma_events_len_ge_one(v);
                }
                return FoldOutcome::Suspended;
            }
            cursor.next(stack);
            c = 1;
            proof {
                assert(stack@.skip(depth) =~= seq![1usize]);
                if len == 0 {
                    lemma_state_end(v);
                    assert(state_pos(v, stack@.skip(depth)) == 1);
                } else {
                    assert(seq![1usize] =~= seq![1usize] + Seq::<usize>::empty());
                    lemma_state_child(v, 1, Seq::<usize>::empty());
                }
                assert(evs[0] == v.start_event());
                assert(consumer.taken() =~= taken0 + evs.subrange(0, 1));
                assert(stack@.subrange(0, depth) =~= stack0.subrange(0, depth));
            }
        }

        proof {
            lemma_pos_bound(v, stack@.skip(depth));
            assert(taken0 + evs.subrange(p0 as int, p0 as int) =~= taken0);
        }
        while c <= total
            invariant
                1 <= c <= total + 1,
                stack@.len() > depth,
                stack@[depth] == c,
                stack@.subrange(0, depth) == stack0.subrange(0, depth),
                state_wf(v, stack@.skip(depth)),
                consumer.taken().len() >= taken0.len(),
                C::advanced(con0, *consumer),
                p0 <= state_pos(v, stack@.skip(depth)),
                consumer.taken() == taken0 + evs.subrange(
                    p0 as int,
                    state_pos(v, stack@.skip(depth)) as int,
                ),
            decreases total + 1 - c,
        {
            let ghost q_in = state_pos(v, stack@.skip(depth));
            let j = c - 1;
            let i = j / 2;
            proof {
                assert(v.children()[j as int] == pair_child(pairs, j as int));
                assert(pairs[i as int] == (self@[i as int].0.model(), self@[i as int].1.model()));
                assert(value_fits(pair_child(pairs, j as int)));
            }
            let ghost con_pre = *consumer;
            let out = if j % 2 == 0 {
                let elem = &self.entries[i].0;
                proof {
                    assert((*elem).model() == v.children()[j as int]);
                }
                fold_child(elem, Ghost(v), c, stack, cursor, consumer)
            } else {
                let elem = &self.entries[i].1;
                proof {
                    assert((*elem).model() == v.children()[j as int]);
                }
                fold_child(elem, Ghost(v), c, stack, cursor, consumer)
            };
            proof {
                C::advanced_trans(con0, con_pre, *consumer);
                assert(stack@.subrange(0, depth) =~= stack0.subrange(0, depth));
            }
            match out {
                FoldOutcome::Suspended => {
                    proof {
                        let q = state_pos(v, stack@.skip(depth));
                        assert(consumer.taken() =~= taken0 + evs.subrange(p0 as int, q_in as int)
                            + evs.subrange(q_in as int, q as int));
                        assert(consumer.taken() =~= taken0 + evs.subrange(p0 as int, q as int));
                    }
                    return FoldOutcome::Suspended;
                },
                FoldOutcome::Complete => {
                    let ghost q = 1 + events_cat_upto(v.children(), c as int).len();
                    proof {
                        assert(stack@.len() == depth + 1);
                        assert(stack@[depth] == c);
                        assert(c < usize::MAX);
                        assert(consumer.taken() =~= taken0 + evs.subrange(p0 as int, q_in as int)
                            + evs.subrange(q_in as int, q as int));
                        assert(consumer.taken() =~= taken0 + evs.subrange(p0 as int, q as int));
                    }
                    cursor.next(stack);
                    c = c + 1;
                    proof {
                        assert(stack@.skip(depth) =~= seq![c]);
                        if c <= total {
                            assert(seq![c] =~= seq![c] + Seq::<usize>::empty());
                            lemma_state_child(v, c, Seq::<usize>::empty());
                            assert(state_pos(v, stack@.skip(depth)) == q);
                        } else {
                            lemma_state_end(v);
                            lemma_container_layout(v);
                            assert(state_pos(v, stack@.skip(depth)) == q);
                        }
                        assert(stack@.subrange(0, depth) =~= stack0.subrange(0, depth));
                    }
                },
            }
        }

        proof {
            assert(c == total + 1);
            assert(stack@.skip(depth) =~= seq![(total + 1) as usize]);
            lemma_state_end(v);
            assert(state_pos(v, stack@.skip(depth)) == evs.len() - 1);
        }
        let ghost q_end = state_pos(v, stack@.skip(depth));
        let ghost taken_end = consumer.taken();
        let ghost con_end = *consumer;
        let ok = consumer.accept(Event::MapEnd);
        proof {
            if ok {
                C::advanced_trans(con0, con_end, *consumer);
            }
        }
        if !ok {
            return FoldOutcome::Suspended;
        }
        proof {
            assert(evs[evs.len() - 1] == v.end_event());
            assert(consumer.taken() =~= taken_end.push(evs[evs.len() - 1]));
            assert(consumer.taken() =~= taken0 + evs.subrange(p0 as int, q_end as int)
                + evs.subrange(q_end as int, evs.len() as int));
            assert(consumer.taken() =~= taken0 + evs.subrange(p0 as int, evs.len() as int));
        }
        cursor.complete(stack);
        proof {
            assert(stack@ =~= stack0.subrange(0, depth));
            assert(stack@.subrange(0, depth) =~= stack0.subrange(0, depth));
        }
        FoldOutcome::Complete
    }
}

} // verus!
