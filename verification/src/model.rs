use vstd::prelude::*;

use crate::event::{AtomModel, EventModel};

verus! {

/// Mathematical model of a serializable value: a leaf, an ordered sequence
/// of child values, or an ordered list of key/value pairs. Every type that
/// implements the traversal capability denotes one of these trees, and its
/// event stream is `events_of` of that tree.
pub enum ValueModel {
    Atom(AtomModel),
    Sequence(Seq<ValueModel>),
    Mapping(Seq<(ValueModel, ValueModel)>),
}

impl ValueModel {
    /// A container's direct children in emission order; for a mapping the
    /// keys and values are interleaved, key first within each pair.
    pub open spec fn children(self) -> Seq<ValueModel> {
        match self {
            ValueModel::Atom(_) => Seq::empty(),
            ValueModel::Sequence(elems) => elems,
            ValueModel::Mapping(pairs) => interleaved(pairs),
        }
    }

    pub open spec fn is_container(self) -> bool {
        !(self is Atom)
    }

    /// The boundary marker opening a container, carrying its length hint.
    pub open spec fn start_event(self) -> EventModel {
        match self {
            ValueModel::Atom(a) => EventModel::Atom(a),
            ValueModel::Sequence(elems) => EventModel::SeqStart(
                Some(elems.len() as usize),
            ),
            ValueModel::Mapping(pairs) => EventModel::MapStart(Some(pairs.len() as usize)),
        }
    }

    /// The boundary marker closing a container.
    pub open spec fn end_event(self) -> EventModel {
        match self {
            ValueModel::Atom(a) => EventModel::Atom(a),
            ValueModel::Sequence(_) => EventModel::SeqEnd,
            ValueModel::Mapping(_) => EventModel::MapEnd,
        }
    }
}

/// The children of a mapping as one flat sequence: key then value of the
/// first pair, then key then value of the second pair, and so on.
pub open spec fn interleaved(pairs: Seq<(ValueModel, ValueModel)>) -> Seq<ValueModel> {
    Seq::new(2 * pairs.len(), |i: int| if i % 2 == 0 { pairs[i / 2].0 } else { pairs[i / 2].1 })
}

/// The full event stream of a value: a single atom event for a leaf, and
/// a start marker, the concatenated streams of all children, and an end
/// marker for a container.
pub open spec fn events_of(v: ValueModel) -> Seq<EventModel>
    decreases v, 1nat, 0nat,
{
    match v {
        ValueModel::Atom(a) => seq![EventModel::Atom(a)],
        ValueModel::Sequence(elems) => seq![v.start_event()] + events_of_elems(elems, 0) + seq![
            v.end_event(),
        ],
        ValueModel::Mapping(pairs) => seq![v.start_event()] + events_of_pairs(pairs, 0) + seq![
            v.end_event(),
        ],
    }
}

/// Concatenated event streams of `elems[i..]`.
pub open spec fn events_of_elems(elems: Seq<ValueModel>, i: int) -> Seq<EventModel>
    decreases elems, 0nat, elems.len() - i,
{
    if 0 <= i < elems.len() {
        events_of(elems[i]) + events_of_elems(elems, i + 1)
    } else {
        Seq::empty()
    }
}

/// Concatenated event streams of the pairs `pairs[i..]`, key before value.
pub open spec fn events_of_pairs(pairs: Seq<(ValueModel, ValueModel)>, i: int) -> Seq<EventModel>
    decreases pairs, 0nat, pairs.len() - i,
{
    if 0 <= i < pairs.len() {
        events_of(pairs[i].0) + events_of(pairs[i].1) + events_of_pairs(pairs, i + 1)
    } else {
        Seq::empty()
    }
}

/// Concatenated event streams of the children `cs[i..]`, for an arbitrary
/// child list (in particular the interleaved children of a mapping).
pub open spec fn events_cat(cs: Seq<ValueModel>, i: int) -> Seq<EventModel>
    decreases cs, 0nat, cs.len() - i,
{
    if 0 <= i < cs.len() {
        events_of(cs[i]) + events_cat(cs, i + 1)
    } else {
        Seq::empty()
    }
}

/// Concatenated event streams of the children `cs[..k]`.
pub open spec fn events_cat_upto(cs: Seq<ValueModel>, k: int) -> Seq<EventModel>
    decreases cs, 0nat, k,
{
    if 0 < k <= cs.len() {
        events_cat_upto(cs, k - 1) + events_of(cs[k - 1])
    } else {
        Seq::empty()
    }
}

/// Whether every container arity in the value fits the machine counters
/// that the traversal position uses: a counter must reach one past the
/// number of children.
pub open spec fn value_fits(v: ValueModel) -> bool
    decreases v,
{
    match v {
        ValueModel::Atom(_) => true,
        ValueModel::Sequence(elems) => {
            &&& elems.len() + 1 <= usize::MAX
            &&& forall|i: int| 0 <= i < elems.len() ==> value_fits(#[trigger] elems[i])
        },
        ValueModel::Mapping(pairs) => {
            &&& 2 * pairs.len() + 1 <= usize::MAX
            &&& forall|i: int|
                0 <= i < pairs.len() ==> value_fits(#[trigger] pairs[i].0) && value_fits(
                    pairs[i].1,
                )
        },
    }
}

/// Every value emits at least one event.
pub proof fn lemma_events_len_ge_one(v: ValueModel)
    ensures
        events_of(v).len() >= 1,
        v.is_container() ==> events_of(v).len() >= 2,
{
}

/// A container's stream is its start marker, its children's streams in
/// order, and its end marker.
pub proof fn lemma_events_structure(v: ValueModel)
    requires
        v.is_container(),
    ensures
        events_of(v) =~= seq![v.start_event()] + events_cat(v.children(), 0) + seq![v.end_event()],
{
    match v {
        ValueModel::Atom(_) => (),
        ValueModel::Sequence(elems) => {
            lemma_elems_cat(elems, 0);
        },
        ValueModel::Mapping(pairs) => {
            lemma_pairs_cat(pairs, 0);
        },
    }
}

proof fn lemma_elems_cat(elems: Seq<ValueModel>, i: int)
    ensures
        events_of_elems(elems, i) == events_cat(elems, i),
    decreases elems.len() - i,
{
    if 0 <= i < elems.len() {
        lemma_elems_cat(elems, i + 1);
    }
}

proof fn lemma_pairs_cat(pairs: Seq<(ValueModel, ValueModel)>, i: int)
    requires
        0 <= i <= pairs.len(),
    ensures
        events_of_pairs(pairs, i) =~= events_cat(interleaved(pairs), 2 * i),
    decreases pairs.len() - i,
{
    let cs = interleaved(pairs);
    if i < pairs.len() {
        lemma_pairs_cat(pairs, i + 1);
        assert(cs[2 * i] == pairs[i].0);
        assert(cs[2 * i + 1] == pairs[i].1);
        assert(events_cat(cs, 2 * i) =~= events_of(cs[2 * i]) + events_cat(cs, 2 * i + 1));
        assert(events_cat(cs, 2 * i + 1) =~= events_of(cs[2 * i + 1]) + events_cat(
            cs,
            2 * i + 2,
        ));
        assert(events_of_pairs(pairs, i) =~= events_of(pairs[i].0) + events_of(pairs[i].1)
            + events_of_pairs(pairs, i + 1));
    } else {
        assert(2 * i >= cs.len());
    }
}

/// Splitting a concatenated child stream at child `k`.
pub proof fn lemma_cat_split(cs: Seq<ValueModel>, k: int)
    requires
        0 <= k <= cs.len(),
    ensures
        events_cat(cs, 0) =~= events_cat_upto(cs, k) + events_cat(cs, k),
    decreases k,
{
    if k > 0 {
        lemma_cat_split(cs, k - 1);
        lemma_cat_step(cs, k - 1);
    }
}

/// One step of the concatenated child stream.
pub proof fn lemma_cat_step(cs: Seq<ValueModel>, k: int)
    requires
        0 <= k < cs.len(),
    ensures
        events_cat(cs, k) =~= events_of(cs[k]) + events_cat(cs, k + 1),
        events_cat_upto(cs, k + 1) =~= events_cat_upto(cs, k) + events_of(cs[k]),
{
}

/// The concatenated stream of `cs[i..]` has at least one event per child.
pub proof fn lemma_cat_len_ge(cs: Seq<ValueModel>, i: int)
    requires
        0 <= i <= cs.len(),
    ensures
        events_cat(cs, i).len() >= cs.len() - i,
    decreases cs.len() - i,
{
    if i < cs.len() {
        lemma_events_len_ge_one(cs[i]);
        lemma_cat_len_ge(cs, i + 1);
    }
}

} // verus!
