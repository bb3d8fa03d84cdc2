use vstd::prelude::*;

use crate::model::{
    events_cat, events_cat_upto, events_of, interleaved, lemma_cat_split, lemma_cat_step,
    lemma_events_structure, ValueModel,
};

verus! {

/// The `j`-th child of a mapping in emission order: the key of pair `j/2`
/// when `j` is even, its value when `j` is odd.
pub open spec fn pair_child(pairs: Seq<(ValueModel, ValueModel)>, j: int) -> ValueModel {
    if j % 2 == 0 {
        pairs[j / 2].0
    } else {
        pairs[j / 2].1
    }
}

/// Whether a traversal position, read from depth `d` of the shared counter
/// stack as the suffix `s`, is a meaningful position for the value `v`.
///
/// The counter `s[0]` of a container holds 0 before the start marker was
/// delivered, `c` while child `c - 1` is being traversed (the child's own
/// position, if any, is the rest of the suffix), and one past the child
/// count when only the end marker is still owed. A leaf has no progress to
/// record: its counter stays 0 until its single event is delivered.
pub open spec fn state_wf(v: ValueModel, s: Seq<usize>) -> bool
    decreases v,
{
    match v {
        ValueModel::Atom(_) => s == seq![0usize],
        ValueModel::Sequence(elems) => s.len() >= 1 && {
            let c = s[0] as int;
            if c == 0 {
                s.len() == 1
            } else if c <= elems.len() {
                s.len() == 1 || state_wf(elems[c - 1], s.drop_first())
            } else {
                c == elems.len() + 1 && s.len() == 1
            }
        },
        ValueModel::Mapping(pairs) => s.len() >= 1 && {
            let c = s[0] as int;
            if c == 0 {
                s.len() == 1
            } else if c <= 2 * pairs.len() {
                s.len() == 1 || state_wf(pair_child(pairs, c - 1), s.drop_first())
            } else {
                c == 2 * pairs.len() + 1 && s.len() == 1
            }
        },
    }
}

/// How many events of `events_of(v)` a position `s` says were already
/// delivered. A fresh position denotes 0; the position holding only the
/// end marker denotes all but one.
pub open spec fn state_pos(v: ValueModel, s: Seq<usize>) -> nat
    decreases v,
{
    match v {
        ValueModel::Atom(_) => 0,
        ValueModel::Sequence(elems) => {
            if s.len() == 0 || s[0] == 0 {
                0
            } else {
                let c = s[0] as int;
                if c <= elems.len() {
                    (1 + events_cat_upto(elems, c - 1).len() + if s.len() == 1 {
                        0
                    } else {
                        state_pos(elems[c - 1], s.drop_first())
                    }) as nat
                } else {
                    (events_of(v).len() - 1) as nat
                }
            }
        },
        ValueModel::Mapping(pairs) => {
            if s.len() == 0 || s[0] == 0 {
                0
            } else {
                let c = s[0] as int;
                if c <= 2 * pairs.len() {
                    (1 + events_cat_upto(interleaved(pairs), c - 1).len() + if s.len() == 1 {
                        0
                    } else {
                        state_pos(pair_child(pairs, c - 1), s.drop_first())
                    }) as nat
                } else {
                    (events_of(v).len() - 1) as nat
                }
            }
        },
    }
}

/// A fresh position is well formed for every value and denotes the start
/// of its stream.
pub proof fn lemma_state_fresh(v: ValueModel)
    ensures
        state_wf(v, seq![0usize]),
        state_pos(v, seq![0usize]) == 0,
{
}

/// Layout of a container's stream: start marker first, end marker last,
/// the children's concatenated streams in between.
pub proof fn lemma_container_layout(v: ValueModel)
    requires
        v.is_container(),
    ensures
        events_of(v).len() == 2 + events_cat(v.children(), 0).len(),
        events_of(v)[0] == v.start_event(),
        events_of(v)[events_of(v).len() - 1] == v.end_event(),
        events_cat_upto(v.children(), v.children().len() as int).len() == events_cat(
            v.children(),
            0,
        ).len(),
{
    lemma_events_structure(v);
    lemma_cat_split(v.children(), v.children().len() as int);
}

/// The events of child `k` occupy one contiguous window of the container's
/// stream, lying strictly between the start and end markers.
pub proof fn lemma_child_window(v: ValueModel, k: int)
    requires
        v.is_container(),
        0 <= k < v.children().len(),
    ensures
        ({
            let evs = events_of(v);
            let cs = v.children();
            let off = 1 + events_cat_upto(cs, k).len();
            let clen = events_of(cs[k]).len();
            &&& events_cat_upto(cs, k + 1).len() == events_cat_upto(cs, k).len() + clen
            &&& off + clen <= evs.len() - 1
            &&& forall|j: int| 0 <= j < clen ==> evs[off + j] == events_of(cs[k])[j]
        }),
{
    let evs = events_of(v);
    let cs = v.children();
    lemma_events_structure(v);
    lemma_cat_split(cs, k);
    lemma_cat_step(cs, k);
    lemma_cat_split(cs, k + 1);
    assert(events_cat(cs, 0) =~= events_cat_upto(cs, k) + events_of(cs[k]) + events_cat(
        cs,
        k + 1,
    ));
}

/// Positions within a container that point at child `c - 1`: the suffix
/// below describes the child, and the denoted stream position is the start
/// marker plus all earlier children's events plus the child's own progress.
pub proof fn lemma_state_child(v: ValueModel, c: usize, t: Seq<usize>)
    requires
        v.is_container(),
        1 <= c <= v.children().len(),
    ensures
        state_wf(v, seq![c] + t) == (t.len() == 0 || state_wf(v.children()[c - 1], t)),
        state_pos(v, seq![c] + t) == 1 + events_cat_upto(v.children(), c - 1).len() + if t.len()
            == 0 {
            0
        } else {
            state_pos(v.children()[c - 1], t)
        },
{
    let s = seq![c] + t;
    assert(s.drop_first() =~= t);
    assert(s[0] == c);
    match v {
        ValueModel::Atom(_) => (),
        ValueModel::Sequence(elems) => {
            assert(v.children() == elems);
        },
        ValueModel::Mapping(pairs) => {
            assert(v.children() == interleaved(pairs));
            assert(v.children()[c - 1] == pair_child(pairs, c - 1));
        },
    }
}

/// The position of a container that only owes its end marker.
pub proof fn lemma_state_end(v: ValueModel)
    requires
        v.is_container(),
        v.children().len() + 1 <= usize::MAX,
    ensures
        state_wf(v, seq![(v.children().len() + 1) as usize]),
        state_pos(v, seq![(v.children().len() + 1) as usize]) == events_of(v).len() - 1,
        events_of(v).len() >= 2,
{
    let c = (v.children().len() + 1) as usize;
    let s = seq![c];
    assert(s[0] == c);
    match v {
        ValueModel::Atom(_) => (),
        ValueModel::Sequence(elems) => {
            assert(v.children() == elems);
        },
        ValueModel::Mapping(pairs) => {
            assert(v.children() == interleaved(pairs));
        },
    }
}

/// A well-formed position never lies past the last event.
pub proof fn lemma_pos_bound(v: ValueModel, s: Seq<usize>)
    requires
        state_wf(v, s),
    ensures
        state_pos(v, s) < events_of(v).len(),
    decreases v,
{
    match v {
        ValueModel::Atom(_) => (),
        ValueModel::Sequence(elems) => {
            let c = s[0] as int;
            if c == 0 {
                crate::model::lemma_events_len_ge_one(v);
            } else if c <= elems.len() {
                lemma_container_layout(v);
                lemma_child_window(v, c - 1);
                if s.len() > 1 {
                    lemma_pos_bound(elems[c - 1], s.drop_first());
                } else {
                    crate::model::lemma_events_len_ge_one(elems[c - 1]);
                }
            }
        },
        ValueModel::Mapping(pairs) => {
            let c = s[0] as int;
            if c == 0 {
                crate::model::lemma_events_len_ge_one(v);
            } else if c <= 2 * pairs.len() {
                lemma_container_layout(v);
                lemma_child_window(v, c - 1);
                assert(v.children()[c - 1] == pair_child(pairs, c - 1));
                if s.len() > 1 {
                    lemma_pos_bound(pair_child(pairs, c - 1), s.drop_first());
                } else {
                    crate::model::lemma_events_len_ge_one(pair_child(pairs, c - 1));
                }
            }
        },
    }
}

} // verus!
