use vstd::prelude::*;

use crate::event::{AtomModel, EventModel};
use crate::impls::list::slice_model;
use crate::model::{
    events_cat, events_cat_upto, events_of, lemma_events_len_ge_one, ValueModel,
};
use crate::state::lemma_child_window;
use crate::Serializer;

verus! {

/// How one event changes the nesting depth.
pub open spec fn depth_delta(e: EventModel) -> int {
    match e {
        EventModel::SeqStart(_) => 1,
        EventModel::MapStart(_) => 1,
        EventModel::SeqEnd => -1,
        EventModel::MapEnd => -1,
        EventModel::Atom(_) => 0,
    }
}

/// The nesting depth after a stream of events, relative to its start.
pub open spec fn depth_after(s: Seq<EventModel>) -> int
    decreases s.len(),
{
    if s.len() == 0 {
        0
    } else {
        depth_delta(s[0]) + depth_after(s.drop_first())
    }
}

/// Well-nestedness of a stream: every start marker is matched — the depth
/// returns to zero at the end — and the depth never goes negative on the
/// way, so no end marker closes a container that was never opened.
pub open spec fn well_nested(s: Seq<EventModel>) -> bool {
    &&& depth_after(s) == 0
    &&& forall|i: int| 0 <= i <= s.len() ==> depth_after(#[trigger] s.take(i)) >= 0
}

/// How many direct children a stream holds when read starting at depth
/// `d`: the events reached at depth zero, each of which opens or wholly
/// is one child.
pub open spec fn direct_children(s: Seq<EventModel>, d: int) -> nat
    decreases s.len(),
{
    if s.len() == 0 {
        0
    } else {
        (if d == 0 {
            1nat
        } else {
            0nat
        }) + direct_children(s.drop_first(), d + depth_delta(s[0]))
    }
}

/// Depth change distributes over concatenation.
pub proof fn lemma_depth_concat(a: Seq<EventModel>, b: Seq<EventModel>)
    ensures
        depth_after(a + b) == depth_after(a) + depth_after(b),
    decreases a.len(),
{
    if a.len() == 0 {
        assert(a + b =~= b);
    } else {
        assert((a + b).drop_first() =~= a.drop_first() + b);
        lemma_depth_concat(a.drop_first(), b);
    }
}

/// Child counting distributes over concatenation, the right part read at
/// the depth the left part ends on.
pub proof fn lemma_children_concat(a: Seq<EventModel>, b: Seq<EventModel>, d: int)
    ensures
        direct_children(a + b, d) == direct_children(a, d) + direct_children(
            b,
            d + depth_after(a),
        ),
    decreases a.len(),
{
    if a.len() == 0 {
        assert(a + b =~= b);
    } else {
        assert((a + b).drop_first() =~= a.drop_first() + b);
        lemma_children_concat(a.drop_first(), b, d + depth_delta(a[0]));
    }
}

/// A stream whose running depth stays strictly positive holds no direct
/// children at depth zero.
pub proof fn lemma_no_children_above(s: Seq<EventModel>, d: int)
    requires
        d >= 1,
        forall|i: int| 0 <= i < s.len() ==> d + depth_after(#[trigger] s.take(i)) >= 1,
    ensures
        direct_children(s, d) == 0,
    decreases s.len(),
{
    if s.len() > 0 {
        assert(s.take(0) =~= Seq::<EventModel>::empty());
        assert(s.take(1) =~= seq![s[0]]);
        assert(seq![s[0]].drop_first() =~= Seq::<EventModel>::empty());
        assert(depth_after(s.take(1)) == depth_delta(s[0]));
        let t = s.drop_first();
        if t.len() > 0 {
            let d2 = d + depth_delta(s[0]);
            assert(d2 >= 1);
            assert forall|i: int| 0 <= i < t.len() implies d2 + depth_after(
                #[trigger] t.take(i),
            ) >= 1 by {
                assert(s.take(i + 1) =~= seq![s[0]] + t.take(i));
                lemma_depth_concat(seq![s[0]], t.take(i));
            }
            lemma_no_children_above(t, d2);
        } else {
            assert(direct_children(t, d + depth_delta(s[0])) == 0);
        }
    }
}

/// The shape of every value's stream: its depth is balanced, every proper
/// interior prefix sits at depth at least one, and read from depth zero
/// it is exactly one child.
pub proof fn lemma_stream_shape(v: ValueModel)
    ensures
        depth_after(events_of(v)) == 0,
        forall|i: int|
            0 < i < events_of(v).len() ==> depth_after(#[trigger] events_of(v).take(i)) >= 1,
        direct_children(events_of(v), 0) == 1,
    decreases events_of(v).len(), 0nat,
{
    let evs = events_of(v);
    match v {
        ValueModel::Atom(a) => {
            assert(evs =~= seq![EventModel::Atom(a)]);
            assert(evs.drop_first() =~= Seq::<EventModel>::empty());
            assert(depth_after(Seq::<EventModel>::empty()) == 0);
            assert(depth_after(evs) == depth_delta(evs[0]) + depth_after(evs.drop_first()));
            assert(direct_children(Seq::<EventModel>::empty(), 0) == 0);
            assert(direct_children(evs, 0) == 1nat + direct_children(evs.drop_first(), 0));
            assert forall|i: int| 0 < i < evs.len() implies depth_after(
                #[trigger] evs.take(i),
            ) >= 1 by {}
        },
        ValueModel::Sequence(_) | ValueModel::Mapping(_) => {
            let cs = v.children();
            let body = events_cat(cs, 0);
            crate::state::lemma_container_layout(v);
            crate::model::lemma_events_structure(v);
            lemma_cat_shape(cs, 0);
            let start = seq![v.start_event()];
            let end = seq![v.end_event()];
            assert(evs =~= start + body + end);
            lemma_depth_concat(start, body);
            lemma_depth_concat(start + body, end);
            assert(start.drop_first() =~= Seq::<EventModel>::empty());
            assert(end.drop_first() =~= Seq::<EventModel>::empty());
            assert(start[0] == v.start_event());
            assert(end[0] == v.end_event());
            assert(depth_delta(v.start_event()) == 1);
            assert(depth_delta(v.end_event()) == -1);
            assert(depth_after(start) == depth_delta(start[0]) + depth_after(
                start.drop_first(),
            ));
            assert(depth_after(Seq::<EventModel>::empty()) == 0);
            assert(depth_after(start) == 1);
            assert(depth_after(end) == -1);
            assert(depth_after(evs) == 0);

            // interior prefixes: the start marker contributes one level
            assert forall|i: int| 0 < i < evs.len() implies depth_after(
                #[trigger] evs.take(i),
            ) >= 1 by {
                if i <= 1 + body.len() {
                    assert(evs.take(i) =~= start + body.take(i - 1));
                    lemma_depth_concat(start, body.take(i - 1));
                } else {
                    assert(false);
                }
            }

            // exactly one child at depth zero: the start marker itself
            lemma_children_concat(start, body + end, 0);
            assert(direct_children(start, 0) == 1 + direct_children(
                start.drop_first(),
                0 + depth_delta(start[0]),
            ));
            assert(direct_children(Seq::<EventModel>::empty(), 1) == 0);
            assert(direct_children(start, 0) == 1);
            lemma_children_concat(body, end, 1);
            assert forall|i: int| 0 <= i < body.len() implies 1 + depth_after(
                #[trigger] body.take(i),
            ) >= 1 by {}
            lemma_no_children_above(body, 1);
            assert(direct_children(end, 1) == (if 1 == 0 {
                1nat
            } else {
                0nat
            }) + direct_children(end.drop_first(), 1 + depth_delta(end[0])));
            assert(direct_children(end, 1 + depth_after(body)) == 0);
            assert(evs =~= start + (body + end));
            assert(direct_children(evs, 0) == direct_children(start, 0) + direct_children(
                body + end,
                0 + depth_after(start),
            ));
            assert(direct_children(evs, 0) == 1);
        },
    }
}

/// The concatenated streams of a child list are balanced, never dip below
/// their starting depth, and hold exactly one direct child per list entry.
pub proof fn lemma_cat_shape(cs: Seq<ValueModel>, k: int)
    requires
        0 <= k <= cs.len(),
    ensures
        depth_after(events_cat(cs, k)) == 0,
        forall|i: int|
            0 <= i <= events_cat(cs, k).len() ==> depth_after(
                #[trigger] events_cat(cs, k).take(i),
            ) >= 0,
        direct_children(events_cat(cs, k), 0) == cs.len() - k,
    decreases events_cat(cs, k).len(), 1nat,
{
    let cat = events_cat(cs, k);
    if k == cs.len() {
        assert(cat =~= Seq::<EventModel>::empty());
        assert(cat.take(0) =~= Seq::<EventModel>::empty());
    } else {
        let head = events_of(cs[k]);
        let rest = events_cat(cs, k + 1);
        assert(cat =~= head + rest);
        lemma_events_len_ge_one(cs[k]);
        lemma_stream_shape(cs[k]);
        lemma_cat_shape(cs, k + 1);
        lemma_depth_concat(head, rest);
        lemma_children_concat(head, rest, 0);
        assert forall|i: int| 0 <= i <= cat.len() implies depth_after(#[trigger] cat.take(i))
            >= 0 by {
            if i <= head.len() {
                assert(cat.take(i) =~= head.take(i));
                if 0 < i < head.len() {
                } else if i == head.len() {
                    assert(head.take(i) =~= head);
                }
            } else {
                assert(cat.take(i) =~= head + rest.take(i - head.len()));
                lemma_depth_concat(head, rest.take(i - head.len()));
            }
        }
    }
}

/// Well-nestedness: every value's event stream is well nested — each
/// start marker has its matching end marker and the nesting depth never
/// goes negative.
pub proof fn lemma_well_nested(v: ValueModel)
    ensures
        well_nested(events_of(v)),
{
    let evs = events_of(v);
    lemma_stream_shape(v);
    assert forall|i: int| 0 <= i <= evs.len() implies depth_after(#[trigger] evs.take(i))
        >= 0 by {
        if i == 0 {
            assert(evs.take(0) =~= Seq::<EventModel>::empty());
        } else if i == evs.len() {
            assert(evs.take(i) =~= evs);
        }
    }
}

/// Length-hint accuracy: a container's start marker declares exactly the
/// number of direct children (for a mapping, of key/value halves of its
/// pairs) standing between the start and end markers of its stream.
pub proof fn lemma_length_hint(v: ValueModel)
    requires
        v.is_container(),
        crate::model::value_fits(v),
    ensures
        ({
            let evs = events_of(v);
            let body = evs.subrange(1, evs.len() - 1);
            &&& evs[0] == v.start_event()
            &&& direct_children(body, 0) == v.children().len()
            &&& (v is Sequence ==> v.start_event() == EventModel::SeqStart(
                Some(v.children().len() as usize),
            ))
            &&& (v is Mapping ==> v.start_event() == EventModel::MapStart(
                Some((v.children().len() / 2) as usize),
            ) && v.children().len() % 2 == 0)
        }),
{
    let evs = events_of(v);
    let cs = v.children();
    crate::state::lemma_container_layout(v);
    crate::model::lemma_events_structure(v);
    lemma_cat_shape(cs, 0);
    assert(evs.subrange(1, evs.len() - 1) =~= events_cat(cs, 0));
    match v {
        ValueModel::Atom(_) => (),
        ValueModel::Sequence(elems) => {
            assert(cs == elems);
        },
        ValueModel::Mapping(pairs) => {
            assert(cs == crate::model::interleaved(pairs));
            assert(cs.len() == 2 * pairs.len());
        },
    }
}

/// The segments of a stream cut at the positions `cuts`, concatenated in
/// order: what a sequence of resumed traversal calls delivers in all.
pub open spec fn segments(evs: Seq<EventModel>, cuts: Seq<int>, i: int) -> Seq<EventModel>
    decreases cuts.len() - i,
{
    if 0 <= i && i + 1 < cuts.len() {
        evs.subrange(cuts[i], cuts[i + 1]) + segments(evs, cuts, i + 1)
    } else {
        Seq::empty()
    }
}

/// Round-trip completeness: however a traversal is paused and resumed —
/// cut at any positions whatever, one segment per call — the segments
/// concatenate to exactly the stream of one uninterrupted traversal,
/// with no event repeated, skipped, or reordered.
pub proof fn lemma_round_trip(v: ValueModel, cuts: Seq<int>)
    requires
        cuts.len() >= 1,
        cuts[0] == 0,
        cuts[cuts.len() - 1] == events_of(v).len(),
        forall|i: int| 0 <= i < cuts.len() ==> 0 <= #[trigger] cuts[i] <= events_of(v).len(),
        forall|i: int| 0 <= i < cuts.len() - 1 ==> #[trigger] cuts[i] <= cuts[i + 1],
    ensures
        segments(events_of(v), cuts, 0) == events_of(v),
{
    lemma_segments(events_of(v), cuts, 0);
    assert(segments(events_of(v), cuts, 0) =~= events_of(v).subrange(
        0,
        events_of(v).len() as int,
    ));
    assert(events_of(v).subrange(0, events_of(v).len() as int) =~= events_of(v));
}

#[verifier::rlimit(100)]
proof fn lemma_segments(evs: Seq<EventModel>, cuts: Seq<int>, i: int)
    requires
        0 <= i < cuts.len(),
        forall|j: int| 0 <= j < cuts.len() ==> 0 <= #[trigger] cuts[j] <= evs.len(),
        forall|j: int| 0 <= j < cuts.len() - 1 ==> #[trigger] cuts[j] <= cuts[j + 1],
    ensures
        cuts[i] <= cuts[cuts.len() - 1],
        segments(evs, cuts, i) =~= evs.subrange(cuts[i], cuts[cuts.len() - 1]),
    decreases cuts.len() - i,
{
    if i + 1 < cuts.len() {
        lemma_segments(evs, cuts, i + 1);
    } else {
        assert(cuts[i] == cuts[cuts.len() - 1]);
    }
}

/// Map pair atomicity: within a mapping's stream, each pair's key events
/// form one window followed immediately by its value's window, both
/// strictly inside the start and end markers. Together with the traversal
/// contract — a resumed call goes on at exactly the recorded position —
/// a resume mid-pair never re-emits delivered key events and never
/// reaches the value before the key is finished.
pub proof fn lemma_pair_key_before_value(pairs: Seq<(ValueModel, ValueModel)>, i: int)
    requires
        0 <= i < pairs.len(),
    ensures
        ({
            let v = ValueModel::Mapping(pairs);
            let evs = events_of(v);
            let koff = 1 + events_cat_upto(v.children(), 2 * i).len();
            let klen = events_of(pairs[i].0).len();
            let vlen = events_of(pairs[i].1).len();
            &&& koff + klen + vlen <= evs.len() - 1
            &&& forall|j: int| 0 <= j < klen ==> evs[koff + j] == events_of(pairs[i].0)[j]
            &&& forall|j: int|
                0 <= j < vlen ==> evs[koff + klen + j] == events_of(pairs[i].1)[j]
        }),
{
    let v = ValueModel::Mapping(pairs);
    assert(v.children() == crate::model::interleaved(pairs));
    assert(v.children()[2 * i] == pairs[i].0);
    assert(v.children()[2 * i + 1] == pairs[i].1);
    lemma_child_window(v, 2 * i);
    lemma_child_window(v, 2 * i + 1);
}

/// Byte specialization: a byte sequence always collapses into the single
/// byte-string atom — never a start marker, per-element events, and an
/// end marker — whatever its length, the empty sequence included.
pub proof fn lemma_byte_specialization(bs: Seq<u8>)
    ensures
        events_of(slice_model(bs)) =~= seq![
            EventModel::Atom(AtomModel::Bytes(bs)),
        ],
{
    assert(bs.map_values(|t: u8| t.byte_value()) =~= bs);
}

} // verus!
