//! The laws of the engine: properties that hold of every rule set and
//! every event stream, stated over the same spec functions that the
//! executable functions' contracts use, and proved once and for all.

use crate::keys::{press_of, release_of, tag_events, KeyEvent};
use crate::layer::{lookup_pair, lookup_pair_first, lookup_single, Layer};
use crate::rules::{PairRuleModel, SingleRuleModel};
use crate::pipeline::spec_feed;
use crate::runtime::{
    spec_deadline, spec_flush, spec_run, spec_step, spec_step_event, spec_step_timeout,
    ChordBuffer, LayerState,
};
use vstd::prelude::*;

verus! {

/// An event stream fed through a layer stack one raw event at a time,
/// exactly as the live runtime does: each raw event is pushed fully
/// through every layer before the next is accepted, and the outputs
/// are concatenated in order.
pub open spec fn spec_stream(layers: Seq<Layer>, states: Seq<LayerState>, evs: Seq<KeyEvent>) -> (
    Seq<LayerState>,
    Seq<KeyEvent>,
)
    decreases evs.len(),
{
    if evs.len() == 0 {
        (states, Seq::empty())
    } else {
        let head = spec_feed(layers, states, seq![evs[0]]);
        let rest = spec_stream(layers, head.0, evs.skip(1));
        (rest.0, head.1 + rest.1)
    }
}

/// A single-key rule fires exactly as written: with an empty chord
/// buffer, in a state where `k` opens no chord, a press of `k` whose
/// single-key lookup gives rule `r` emits exactly `r`'s output and
/// moves to exactly `r`'s transition state.
pub proof fn single_rule_applies(
    layer: &Layer,
    st: LayerState,
    k: crate::keys::Key,
    now: u64,
    r: SingleRuleModel,
)
    requires
        st.buffer is Idle,
        lookup_pair_first(layer.pair_table(), st.state, k) is None,
        lookup_single(layer.single_table(), st.state, press_of(k)) == Some(r),
    ensures
        spec_step(layer, st, press_of(k), now) == (
            LayerState { state: r.transition, buffer: ChordBuffer::Idle },
            r.output,
        ),
{
}

/// Total fallthrough for releases: a release with no matching rule in
/// the current state passes through unchanged and leaves the live
/// state exactly as it was.
pub proof fn unmatched_release_passes_through(
    layer: &Layer,
    st: LayerState,
    k: crate::keys::Key,
    now: u64,
)
    requires
        st.buffer is Idle,
        lookup_single(layer.single_table(), st.state, release_of(k)) is None,
    ensures
        spec_step(layer, st, release_of(k), now) == (st, seq![release_of(k)]),
{
}

/// A run over exactly two events is the two steps composed, with the
/// outputs concatenated.
pub proof fn run_of_two_events(layer: &Layer, st: LayerState, e1: KeyEvent, e2: KeyEvent)
    ensures
        ({
            let first = spec_step_event(layer, st, e1);
            let second = spec_step_event(layer, first.0, e2);
            spec_run(layer, st, seq![e1, e2]) == (second.0, first.1 + second.1)
        }),
{
    let evs = seq![e1, e2];
    assert(evs[0] == e1);
    assert(evs.skip(1) =~= seq![e2]);
    assert(seq![e2][0] == e2);
    assert(seq![e2].skip(1) =~= Seq::<KeyEvent>::empty());
    let first = spec_step_event(layer, st, e1);
    let second = spec_step_event(layer, first.0, e2);
    assert(spec_run(layer, second.0, Seq::<KeyEvent>::empty()).1 =~= Seq::<KeyEvent>::empty());
    assert(spec_run(layer, first.0, seq![e2]).1 =~= second.1 + Seq::<KeyEvent>::empty());
    assert(second.1 + Seq::<KeyEvent>::empty() =~= second.1);
    assert(spec_run(layer, st, evs).1 =~= first.1 + second.1);
}

/// Chord order-insensitivity: when state `s` holds a chord for the
/// unordered pair `{a, b}` — compiled as the two ordered entries
/// `pab` and `pba`, sharing output and transition — the two press
/// orders `[Press(a) at t, Press(b) at t + delta]` and
/// `[Press(b) at t, Press(a) at t + delta]`, with `delta` within both
/// chord-opening thresholds, yield exactly the same output and the
/// same post-state, and neither bare press is forwarded.
pub proof fn chord_order_insensitive(
    layer: &Layer,
    s: crate::rules::State,
    a: crate::keys::Key,
    b: crate::keys::Key,
    t: u64,
    delta: u64,
    pab: PairRuleModel,
    pba: PairRuleModel,
)
    requires
        lookup_pair_first(layer.pair_table(), s, a) is Some,
        lookup_pair_first(layer.pair_table(), s, b) is Some,
        lookup_pair(layer.pair_table(), s, a, b) == Some(pab),
        lookup_pair(layer.pair_table(), s, b, a) == Some(pba),
        pba.output == pab.output,
        pba.transition == pab.transition,
        delta <= lookup_pair_first(layer.pair_table(), s, a)->Some_0.threshold,
        delta <= lookup_pair_first(layer.pair_table(), s, b)->Some_0.threshold,
        t + delta <= u64::MAX,
    ensures
        ({
            let st0 = LayerState { state: s, buffer: ChordBuffer::Idle };
            let second = (t + delta) as u64;
            let ab = seq![
                KeyEvent { input: press_of(a), time: t },
                KeyEvent { input: press_of(b), time: second },
            ];
            let ba = seq![
                KeyEvent { input: press_of(b), time: t },
                KeyEvent { input: press_of(a), time: second },
            ];
            spec_run(layer, st0, ab) == (
                LayerState { state: pab.transition, buffer: ChordBuffer::Idle },
                tag_events(pab.output, second),
            ) && spec_run(layer, st0, ba) == spec_run(layer, st0, ab)
        }),
{
    let st0 = LayerState { state: s, buffer: ChordBuffer::Idle };
    let second = (t + delta) as u64;
    let pa = lookup_pair_first(layer.pair_table(), s, a)->Some_0;
    let pb = lookup_pair_first(layer.pair_table(), s, b)->Some_0;
    let e_a1 = KeyEvent { input: press_of(a), time: t };
    let e_b1 = KeyEvent { input: press_of(b), time: t };
    let e_a2 = KeyEvent { input: press_of(a), time: second };
    let e_b2 = KeyEvent { input: press_of(b), time: second };

    run_of_two_events(layer, st0, e_a1, e_b2);
    run_of_two_events(layer, st0, e_b1, e_a2);

    let open_a = spec_step_event(layer, st0, e_a1);
    assert(open_a.0.buffer == (ChordBuffer::Pending {
        key: a,
        deadline: spec_deadline(t, pa.threshold),
    }));
    assert(open_a.1 =~= Seq::<KeyEvent>::empty());
    assert(second <= spec_deadline(t, pa.threshold));
    let close_ab = spec_step_event(layer, open_a.0, e_b2);
    assert(close_ab.0 == (LayerState { state: pab.transition, buffer: ChordBuffer::Idle }));
    assert(close_ab.1 == tag_events(pab.output, second));
    assert(Seq::<KeyEvent>::empty() + close_ab.1 =~= close_ab.1);

    let open_b = spec_step_event(layer, st0, e_b1);
    assert(open_b.0.buffer == (ChordBuffer::Pending {
        key: b,
        deadline: spec_deadline(t, pb.threshold),
    }));
    assert(open_b.1 =~= Seq::<KeyEvent>::empty());
    assert(second <= spec_deadline(t, pb.threshold));
    let close_ba = spec_step_event(layer, open_b.0, e_a2);
    assert(close_ba.0 == (LayerState { state: pba.transition, buffer: ChordBuffer::Idle }));
    assert(close_ba.1 == tag_events(pba.output, second));
    assert(Seq::<KeyEvent>::empty() + close_ba.1 =~= close_ba.1);
}

/// Chord timeout: a press of `a` that opens a chord window is buffered
/// silently, and a timeout firing after the deadline yields exactly
/// `a`'s ordinary single-key result — its rule's output and transition
/// when one applies, else the bare press passed through — and clears
/// the buffer, so any subsequent event is processed against the
/// resulting state, not the stale pending one.
pub proof fn chord_timeout_flushes(
    layer: &Layer,
    st: LayerState,
    a: crate::keys::Key,
    t: u64,
    fire: u64,
)
    requires
        st.buffer is Idle,
        lookup_pair_first(layer.pair_table(), st.state, a) is Some,
        fire > spec_deadline(t, lookup_pair_first(layer.pair_table(), st.state, a)->Some_0.threshold),
    ensures
        spec_step(layer, st, press_of(a), t).1 == Seq::<crate::keys::KeyInput>::empty(),
        spec_step(layer, st, press_of(a), t).0 == (LayerState {
            state: st.state,
            buffer: ChordBuffer::Pending {
                key: a,
                deadline: spec_deadline(
                    t,
                    lookup_pair_first(layer.pair_table(), st.state, a)->Some_0.threshold,
                ),
            },
        }),
        ({
            let pending = spec_step(layer, st, press_of(a), t).0;
            let fired = spec_step_timeout(layer, pending, fire);
            let flushed = spec_flush(layer, st.state, a);
            fired.0 == (LayerState { state: flushed.0, buffer: ChordBuffer::Idle }) && fired.1
                == flushed.1
        }),
{
}

/// The states after a feed are one per layer.
pub proof fn spec_feed_len(layers: Seq<Layer>, states: Seq<LayerState>, evs: Seq<KeyEvent>)
    ensures
        spec_feed(layers, states, evs).0.len() == layers.len(),
    decreases layers.len(),
{
    if layers.len() == 0 {
    } else {
        let head = spec_run(&layers[0], states[0], evs);
        spec_feed_len(layers.skip(1), states.skip(1), head.1);
    }
}

/// Feeding no events through a stack leaves every live state as it
/// was and emits nothing.
pub proof fn spec_feed_empty(layers: Seq<Layer>, states: Seq<LayerState>)
    requires
        layers.len() == states.len(),
    ensures
        spec_feed(layers, states, Seq::empty()) == (states, Seq::<KeyEvent>::empty()),
    decreases layers.len(),
{
    if layers.len() == 0 {
        assert(states =~= Seq::<LayerState>::empty());
    } else {
        spec_feed_empty(layers.skip(1), states.skip(1));
        assert(seq![states[0]] + states.skip(1) =~= states);
    }
}

/// A layer run distributes over stream concatenation: running
/// `xs + ys` is running `xs`, then running `ys` from the state `xs`
/// left behind, with the outputs concatenated.
pub proof fn spec_run_concat(
    layer: &Layer,
    st: LayerState,
    xs: Seq<KeyEvent>,
    ys: Seq<KeyEvent>,
)
    ensures
        ({
            let first = spec_run(layer, st, xs);
            let rest = spec_run(layer, first.0, ys);
            spec_run(layer, st, xs + ys) == (rest.0, first.1 + rest.1)
        }),
    decreases xs.len(),
{
    if xs.len() == 0 {
        assert(xs + ys =~= ys);
        let rest = spec_run(layer, st, ys);
        assert(Seq::<KeyEvent>::empty() + rest.1 =~= rest.1);
    } else {
        let head = spec_step_event(layer, st, xs[0]);
        spec_run_concat(layer, head.0, xs.skip(1), ys);
        assert((xs + ys)[0] == xs[0]);
        assert((xs + ys).skip(1) =~= xs.skip(1) + ys);
        let first_rest = spec_run(layer, head.0, xs.skip(1));
        let rest = spec_run(layer, spec_run(layer, st, xs).0, ys);
        assert(head.1 + (first_rest.1 + rest.1) =~= (head.1 + first_rest.1) + rest.1);
    }
}

/// A whole-stack feed distributes over stream concatenation.
pub proof fn spec_feed_concat(
    layers: Seq<Layer>,
    states: Seq<LayerState>,
    xs: Seq<KeyEvent>,
    ys: Seq<KeyEvent>,
)
    requires
        layers.len() == states.len(),
    ensures
        ({
            let first = spec_feed(layers, states, xs);
            let rest = spec_feed(layers, first.0, ys);
            spec_feed(layers, states, xs + ys) == (rest.0, first.1 + rest.1)
        }),
    decreases layers.len(),
{
    if layers.len() == 0 {
        assert(spec_feed(layers, states, xs).0 =~= Seq::<LayerState>::empty());
    } else {
        let run_x = spec_run(&layers[0], states[0], xs);
        let run_y = spec_run(&layers[0], run_x.0, ys);
        spec_run_concat(&layers[0], states[0], xs, ys);
        spec_feed_concat(layers.skip(1), states.skip(1), run_x.1, run_y.1);
        spec_feed_len(layers.skip(1), states.skip(1), run_x.1);
        let first = spec_feed(layers, states, xs);
        let feed_x_rest = spec_feed(layers.skip(1), states.skip(1), run_x.1);
        assert(first.0 == seq![run_x.0] + feed_x_rest.0);
        assert(first.0[0] == run_x.0);
        assert(first.0.skip(1) =~= feed_x_rest.0);
        assert(first.0.len() == layers.len()) by {
            spec_feed_len(layers, states, xs);
        }
        let rest = spec_feed(layers, first.0, ys);
        let feed_y_rest = spec_feed(layers.skip(1), feed_x_rest.0, run_y.1);
        assert(rest.0 == seq![run_y.0] + feed_y_rest.0);
        let whole = spec_feed(layers, states, xs + ys);
        assert(whole.0 == seq![spec_run(&layers[0], states[0], xs + ys).0] + spec_feed(
            layers.skip(1),
            states.skip(1),
            spec_run(&layers[0], states[0], xs + ys).1,
        ).0);
        assert(spec_run(&layers[0], states[0], xs + ys).0 == run_y.0);
        assert(spec_run(&layers[0], states[0], xs + ys).1 == run_x.1 + run_y.1);
        let feed_xy_rest = spec_feed(layers.skip(1), states.skip(1), run_x.1 + run_y.1);
        assert(feed_xy_rest == (feed_y_rest.0, feed_x_rest.1 + feed_y_rest.1));
    }
}

/// Whether `b` is the swapped-order twin of chord entry `a`: same
/// condition, the two keys exchanged, and identical output, transition
/// and threshold.
pub open spec fn swapped_partner(a: PairRuleModel, b: PairRuleModel) -> bool {
    &&& b.condition == a.condition
    &&& b.first == a.second
    &&& b.second == a.first
    &&& b.output == a.output
    &&& b.transition == a.transition
    &&& b.threshold == a.threshold
}

/// Whether the table holds a swapped-order twin of `a`.
pub open spec fn has_swapped_partner(rs: Seq<PairRuleModel>, a: PairRuleModel) -> bool {
    exists|j: int| 0 <= j < rs.len() && swapped_partner(a, #[trigger] rs[j])
}

/// Whether every chord entry of the table has its swapped-order twin
/// in the table.
pub open spec fn pairs_symmetric(rs: Seq<PairRuleModel>) -> bool {
    forall|i: int| 0 <= i < rs.len() ==> has_swapped_partner(rs, #[trigger] rs[i])
}

/// Concatenating two symmetric chord tables gives a symmetric table.
pub proof fn pairs_symmetric_concat(x: Seq<PairRuleModel>, y: Seq<PairRuleModel>)
    requires
        pairs_symmetric(x),
        pairs_symmetric(y),
    ensures
        pairs_symmetric(x + y),
{
    let xy = x + y;
    assert forall|i: int| 0 <= i < xy.len() implies has_swapped_partner(xy, #[trigger] xy[i]) by {
        if i < x.len() {
            assert(xy[i] == x[i]);
            assert(has_swapped_partner(x, x[i]));
            let j = choose|j: int| 0 <= j < x.len() && swapped_partner(x[i], #[trigger] x[j]);
            assert(xy[j] == x[j]);
            assert(swapped_partner(xy[i], xy[j]));
        } else {
            let k = i - x.len();
            assert(xy[i] == y[k]);
            assert(has_swapped_partner(y, y[k]));
            let j = choose|j: int| 0 <= j < y.len() && swapped_partner(y[k], #[trigger] y[j]);
            assert(xy[x.len() + j] == y[j]);
            assert(swapped_partner(xy[i], xy[x.len() + j]));
        }
    }
}

/// The chord entries one blueprint contributes at one condition come
/// in swapped-order twins.
pub proof fn shape_pairs_at_symmetric(bp: crate::rules::BlueprintModel, c: crate::rules::State)
    ensures
        pairs_symmetric(crate::rules::shape_pairs_at(bp, c)),
{
    let rs = crate::rules::shape_pairs_at(bp, c);
    match bp.shape {
        crate::rules::RuleShapeModel::Pair { .. } => {
            assert(swapped_partner(rs[0], rs[1]));
            assert(swapped_partner(rs[1], rs[0]));
        },
        crate::rules::RuleShapeModel::PairExplicit { .. } => {
            assert(swapped_partner(rs[0], rs[1]));
            assert(swapped_partner(rs[1], rs[0]));
        },
        _ => {
            assert(rs.len() == 0);
        },
    }
}

/// A blueprint's whole fan-out keeps the swapped-order twins.
pub proof fn blueprint_pairs_symmetric(bp: crate::rules::BlueprintModel, conds: Seq<
    crate::rules::State,
>)
    ensures
        pairs_symmetric(crate::rules::blueprint_pairs(bp, conds)),
    decreases conds.len(),
{
    if conds.len() == 0 {
    } else {
        blueprint_pairs_symmetric(bp, conds.drop_last());
        shape_pairs_at_symmetric(bp, conds.last());
        pairs_symmetric_concat(
            crate::rules::blueprint_pairs(bp, conds.drop_last()),
            crate::rules::shape_pairs_at(bp, conds.last()),
        );
    }
}

/// The chord table of a whole blueprint list is symmetric: expansion
/// stores every chord under both press orders, with identical output,
/// transition and threshold.
pub proof fn expansion_pairs_symmetric(bps: Seq<crate::rules::BlueprintModel>)
    ensures
        pairs_symmetric(crate::rules::expansion_pairs(bps)),
    decreases bps.len(),
{
    if bps.len() == 0 {
    } else {
        expansion_pairs_symmetric(bps.drop_last());
        blueprint_pairs_symmetric(bps.last(), bps.last().conditions);
        pairs_symmetric_concat(
            crate::rules::expansion_pairs(bps.drop_last()),
            crate::rules::blueprint_pairs(bps.last(), bps.last().conditions),
        );
    }
}

/// In an unambiguous single-key table, the lookup of an entry's own
/// key finds exactly that entry: for a compiled layer, every
/// single-key rule fires exactly as it was written.
pub proof fn lookup_single_finds_entry(rs: Seq<SingleRuleModel>, i: int)
    requires
        crate::layer::singles_unambiguous(rs),
        0 <= i < rs.len(),
    ensures
        lookup_single(rs, rs[i].condition, rs[i].input) == Some(rs[i]),
    decreases rs.len(),
{
    if i == 0 {
    } else {
        assert(!crate::layer::single_clash(rs[0], rs[i]));
        assert(crate::layer::singles_unambiguous(rs.skip(1))) by {
            assert forall|p: int, q: int|
                0 <= p < q < rs.skip(1).len() implies !crate::layer::single_clash(
                #[trigger] rs.skip(1)[p],
                #[trigger] rs.skip(1)[q],
            ) by {
                assert(rs.skip(1)[p] == rs[p + 1]);
                assert(rs.skip(1)[q] == rs[q + 1]);
            }
        }
        lookup_single_finds_entry(rs.skip(1), i - 1);
        assert(rs.skip(1)[i - 1] == rs[i]);
    }
}

/// In an unambiguous chord table, the lookup of an entry's own key
/// finds exactly that entry.
pub proof fn lookup_pair_finds_entry(rs: Seq<PairRuleModel>, i: int)
    requires
        crate::layer::pairs_unambiguous(rs),
        0 <= i < rs.len(),
    ensures
        lookup_pair(rs, rs[i].condition, rs[i].first, rs[i].second) == Some(rs[i]),
    decreases rs.len(),
{
    if i == 0 {
    } else {
        assert(!crate::layer::pair_clash(rs[0], rs[i]));
        assert(crate::layer::pairs_unambiguous(rs.skip(1))) by {
            assert forall|p: int, q: int|
                0 <= p < q < rs.skip(1).len() implies !crate::layer::pair_clash(
                #[trigger] rs.skip(1)[p],
                #[trigger] rs.skip(1)[q],
            ) by {
                assert(rs.skip(1)[p] == rs[p + 1]);
                assert(rs.skip(1)[q] == rs[q + 1]);
            }
        }
        lookup_pair_finds_entry(rs.skip(1), i - 1);
        assert(rs.skip(1)[i - 1] == rs[i]);
    }
}

/// For a compiled layer — its chord table is the expansion of its
/// blueprints and passed the ambiguity check — every chord entry is
/// found by the lookup under its own key, and the lookup under the
/// swapped key finds a twin with the same output, transition and
/// threshold. Together with the order-insensitivity of the runtime,
/// this is what makes a compiled chord fire identically under either
/// press order.
pub proof fn compiled_chord_has_partner(
    layer: &Layer,
    bps: Seq<crate::rules::BlueprintModel>,
    i: int,
)
    requires
        layer.pair_table() == crate::rules::expansion_pairs(bps),
        crate::layer::pairs_unambiguous(layer.pair_table()),
        0 <= i < layer.pair_table().len(),
    ensures
        ({
            let e = layer.pair_table()[i];
            &&& lookup_pair(layer.pair_table(), e.condition, e.first, e.second) == Some(e)
            &&& lookup_pair(layer.pair_table(), e.condition, e.second, e.first) matches Some(p)
                && p.output == e.output && p.transition == e.transition && p.threshold
                == e.threshold
        }),
{
    let rs = layer.pair_table();
    let e = rs[i];
    lookup_pair_finds_entry(rs, i);
    expansion_pairs_symmetric(bps);
    assert(has_swapped_partner(rs, e));
    let j = choose|j: int| 0 <= j < rs.len() && swapped_partner(e, #[trigger] rs[j]);
    lookup_pair_finds_entry(rs, j);
}

/// Pipeline ordering: feeding a stream through a layer stack one raw
/// event at a time — each raw event pushed fully through every layer
/// before the next is accepted, outputs concatenated in order — gives
/// exactly the same output stream and the same final live states as
/// feeding the whole stream through the stack in one batch. This is
/// the associativity of layer composition.
pub proof fn stream_equals_batch(
    layers: Seq<Layer>,
    states: Seq<LayerState>,
    evs: Seq<KeyEvent>,
)
    requires
        layers.len() == states.len(),
    ensures
        spec_stream(layers, states, evs) == spec_feed(layers, states, evs),
    decreases evs.len(),
{
    if evs.len() == 0 {
        spec_feed_empty(layers, states);
    } else {
        let head = spec_feed(layers, states, seq![evs[0]]);
        spec_feed_len(layers, states, seq![evs[0]]);
        stream_equals_batch(layers, head.0, evs.skip(1));
        spec_feed_concat(layers, states, seq![evs[0]], evs.skip(1));
        assert(seq![evs[0]] + evs.skip(1) =~= evs);
    }
}

/// The two-layer reading of pipeline ordering: for a stack of two
/// layers, the event-by-event pipeline output of a stream equals
/// layer 2 run over layer 1's full output of that stream.
pub proof fn two_layer_composition(
    layers: Seq<Layer>,
    states: Seq<LayerState>,
    evs: Seq<KeyEvent>,
)
    requires
        layers.len() == 2,
        states.len() == 2,
    ensures
        ({
            let first = spec_run(&layers[0], states[0], evs);
            let second = spec_run(&layers[1], states[1], first.1);
            spec_stream(layers, states, evs).1 == second.1
        }),
{
    stream_equals_batch(layers, states, evs);
    assert(layers.skip(1)[0] == layers[1]);
    assert(states.skip(1)[0] == states[1]);
    assert(layers.skip(1).skip(1) =~= Seq::<Layer>::empty());
    assert(states.skip(1).skip(1) =~= Seq::<LayerState>::empty());
    let first = spec_run(&layers[0], states[0], evs);
    let second = spec_run(&layers[1], states[1], first.1);
    assert(spec_feed(Seq::<Layer>::empty(), Seq::<LayerState>::empty(), second.1).1 == second.1);
    assert(spec_feed(layers.skip(1), states.skip(1), first.1).1 == second.1);
}

} // verus!
