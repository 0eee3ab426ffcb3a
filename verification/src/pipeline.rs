//! The pipeline: an ordered stack of live layers.
//!
//! One raw event is pushed fully through the first layer — which may
//! emit zero, one or several events — and each resulting event is
//! pushed fully through the next layer, and so on, preserving emission
//! order at every stage. A timeout poll walks the stack front to back:
//! a layer whose chord deadline has passed flushes its buffered key,
//! and the flush output cascades through the layers behind it exactly
//! like ordinary input.

use crate::keys::{tag_events, KeyEvent, KeyInput};
use crate::layer::Layer;
use crate::rules::State;
use crate::runtime::{spec_run, spec_step_timeout, ChordBuffer, LayerState};
use vstd::prelude::*;

verus! {

/// A whole event batch fed through the layer stack `layers` (with live
/// states `states`), front to back: the outputs of each layer, in
/// order, are the inputs of the next. Returns the states after the
/// batch and the final output stream.
pub open spec fn spec_feed(layers: Seq<Layer>, states: Seq<LayerState>, evs: Seq<KeyEvent>) -> (
    Seq<LayerState>,
    Seq<KeyEvent>,
)
    decreases layers.len(),
{
    if layers.len() == 0 {
        (Seq::empty(), evs)
    } else {
        let head = spec_run(&layers[0], states[0], evs);
        let rest = spec_feed(layers.skip(1), states.skip(1), head.1);
        (seq![head.0] + rest.0, rest.1)
    }
}

/// One timeout poll at time `now` over the whole stack, front to back:
/// each layer's expired chord candidate (if any) is flushed, and its
/// flush output cascades through the layers behind it before those
/// layers' own deadlines are polled.
pub open spec fn spec_tick(layers: Seq<Layer>, states: Seq<LayerState>, now: u64) -> (
    Seq<LayerState>,
    Seq<KeyEvent>,
)
    decreases layers.len(),
{
    if layers.len() == 0 {
        (Seq::empty(), Seq::empty())
    } else {
        let polled = spec_step_timeout(&layers[0], states[0], now);
        let cascade = spec_feed(layers.skip(1), states.skip(1), tag_events(polled.1, now));
        let rest = spec_tick(layers.skip(1), cascade.0, now);
        (seq![polled.0] + rest.0, cascade.1 + rest.1)
    }
}

/// An ordered sequence of compiled layers together with their live
/// states. Layers are appended at composition time and never reordered
/// or removed; the states are mutated only by event processing and
/// timeout polls.
pub struct Pipeline {
    pub layers: Vec<Layer>,
    pub states: Vec<LayerState>,
}

impl Pipeline {
    /// Each layer owns exactly one live state.
    pub open spec fn wf(&self) -> bool {
        self.layers@.len() == self.states@.len()
    }

    /// The empty pipeline.
    pub fn new() -> (r: Pipeline)
        ensures
            r.wf(),
            r.layers@.len() == 0,
    {
        Pipeline { layers: Vec::new(), states: Vec::new() }
    }

    /// Appends a compiled layer at the tail of the pipeline, live in
    /// its declared initial state with an empty chord buffer.
    pub fn add_layer(&mut self, layer: Layer)
        requires
            old(self).wf(),
        ensures
            final(self).wf(),
            final(self).layers@ == old(self).layers@.push(layer),
            final(self).states@ == old(self).states@.push(LayerState::spec_fresh(&layer)),
    {
        let st = LayerState::fresh(&layer);
        self.layers.push(layer);
        self.states.push(st);
    }

    /// The number of composed layers.
    pub fn layer_count(&self) -> (r: usize)
        ensures
            r == self.layers@.len(),
    {
        self.layers.len()
    }

    /// The semantic state the layer at position `i` is currently in.
    pub fn current_state(&self, i: usize) -> (r: State)
        requires
            self.wf(),
            i < self.layers@.len(),
        ensures
            r == self.states@[i as int].state,
    {
        self.states[i].state
    }

    /// The chord-pending buffer of the layer at position `i`.
    pub fn chord_buffer(&self, i: usize) -> (r: ChordBuffer)
        requires
            self.wf(),
            i < self.layers@.len(),
        ensures
            r == self.states@[i as int].buffer,
    {
        self.states[i].buffer
    }

    /// Feeds an event batch through the layers from position `start`
    /// to the tail, returning the final output stream.
    fn feed_from(&mut self, start: usize, evs: Vec<KeyEvent>) -> (out: Vec<KeyEvent>)
        requires
            old(self).wf(),
            start <= old(self).layers@.len(),
        ensures
            final(self).wf(),
            final(self).layers@ == old(self).layers@,
            final(self).states@.take(start as int) == old(self).states@.take(start as int),
            final(self).states@.skip(start as int) == spec_feed(
                old(self).layers@.skip(start as int),
                old(self).states@.skip(start as int),
                evs@,
            ).0,
            out@ == spec_feed(
                old(self).layers@.skip(start as int),
                old(self).states@.skip(start as int),
                evs@,
            ).1,
    {
        let ghost whole = spec_feed(
            old(self).layers@.skip(start as int),
            old(self).states@.skip(start as int),
            evs@,
        );
        let n = self.layers.len();
        let mut cur = evs;
        let mut i: usize = start;
        proof {
            assert(self.states@.subrange(start as int, start as int) =~= Seq::<
                LayerState,
            >::empty());
            assert(Seq::<LayerState>::empty() + spec_feed(
                self.layers@.skip(start as int),
                self.states@.skip(start as int),
                cur@,
            ).0 =~= spec_feed(
                self.layers@.skip(start as int),
                self.states@.skip(start as int),
                cur@,
            ).0);
        }
        while i < n
            invariant
                start <= i <= n,
                n == self.layers@.len(),
                n == old(self).states@.len(),
                self.wf(),
                self.layers@ == old(self).layers@,
                self.states@.take(start as int) == old(self).states@.take(start as int),
                self.states@.skip(i as int) == old(self).states@.skip(i as int),
                whole == spec_feed(
                    old(self).layers@.skip(start as int),
                    old(self).states@.skip(start as int),
                    evs@,
                ),
                whole.0 == self.states@.subrange(start as int, i as int) + spec_feed(
                    self.layers@.skip(i as int),
                    self.states@.skip(i as int),
                    cur@,
                ).0,
                whole.1 == spec_feed(self.layers@.skip(i as int), self.states@.skip(i as int), cur@).1,
            decreases n - i,
        {
            let ghost pre_states = self.states@;
            let ghost pre_cur = cur@;
            let mut st = self.states[i];
            let layer = &self.layers[i];
            let produced = layer.run(&mut st, &cur);
            self.states.set(i, st);
            cur = produced;
            proof {
                let ls = self.layers@.skip(i as int);
                assert(ls[0] == self.layers@[i as int]);
                assert(pre_states.skip(i as int)[0] == pre_states[i as int]);
                assert(ls.skip(1) =~= self.layers@.skip(i + 1));
                assert(pre_states.skip(i as int).skip(1) =~= pre_states.skip(i + 1));
                assert(self.states@.skip(i + 1) =~= pre_states.skip(i + 1));
                assert(old(self).states@.skip(i as int).skip(1) =~= old(self).states@.skip(i + 1));
                assert(self.states@.skip(i + 1) =~= old(self).states@.skip(i + 1));
                assert(self.states@.take(start as int) =~= pre_states.take(start as int));
                assert(self.states@.subrange(start as int, i + 1) =~= pre_states.subrange(
                    start as int,
                    i as int,
                ).push(st));
                let head = spec_run(&self.layers@[i as int], pre_states[i as int], pre_cur);
                assert(st == head.0 && cur@ == head.1);
                let rest = spec_feed(
                    self.layers@.skip(i + 1),
                    self.states@.skip(i + 1),
                    cur@,
                );
                assert(spec_feed(ls, pre_states.skip(i as int), pre_cur).0 =~= seq![head.0]
                    + rest.0);
                assert(pre_states.subrange(start as int, i as int) + (seq![head.0] + rest.0)
                    =~= self.states@.subrange(start as int, i + 1) + rest.0);
            }
            i = i + 1;
        }
        proof {
            assert(self.layers@.skip(n as int) =~= Seq::<Layer>::empty());
            assert(self.states@.skip(n as int) =~= Seq::<LayerState>::empty());
            assert(whole.0 =~= self.states@.subrange(start as int, n as int));
            assert(self.states@.skip(start as int) =~= self.states@.subrange(
                start as int,
                n as int,
            ));
        }
        cur
    }

    /// Pushes one raw input at time `now` fully through every layer in
    /// order, returning the synthesized output events.
    pub fn process(&mut self, input: KeyInput, now: u64) -> (out: Vec<KeyEvent>)
        requires
            old(self).wf(),
        ensures
            final(self).wf(),
            final(self).layers@ == old(self).layers@,
            final(self).states@ == spec_feed(
                old(self).layers@,
                old(self).states@,
                seq![KeyEvent { input, time: now }],
            ).0,
            out@ == spec_feed(
                old(self).layers@,
                old(self).states@,
                seq![KeyEvent { input, time: now }],
            ).1,
    {
        let mut evs: Vec<KeyEvent> = Vec::new();
        evs.push(KeyEvent { input, time: now });
        let out = self.feed_from(0, evs);
        proof {
            assert(old(self).layers@.skip(0) =~= old(self).layers@);
            assert(old(self).states@.skip(0) =~= old(self).states@);
            assert(self.states@.skip(0) =~= self.states@);
            assert(Seq::<KeyEvent>::empty().push(KeyEvent { input, time: now }) =~= seq![
                KeyEvent { input, time: now },
            ]);
        }
        out
    }

    /// Polls every layer's chord deadline at time `now`, front to
    /// back: an expired buffered key is flushed and its flush output
    /// cascades through the layers behind it, in order, before their
    /// own deadlines are polled. Returns the synthesized output events.
    pub fn tick(&mut self, now: u64) -> (out: Vec<KeyEvent>)
        requires
            old(self).wf(),
        ensures
            final(self).wf(),
            final(self).layers@ == old(self).layers@,
            final(self).states@ == spec_tick(old(self).layers@, old(self).states@, now).0,
            out@ == spec_tick(old(self).layers@, old(self).states@, now).1,
    {
        let ghost whole = spec_tick(old(self).layers@, old(self).states@, now);
        let mut out: Vec<KeyEvent> = Vec::new();
        let n = self.layers.len();
        let mut i: usize = 0;
        proof {
            assert(self.layers@.skip(0) =~= self.layers@);
            assert(self.states@.skip(0) =~= self.states@);
            assert(self.states@.take(0) =~= Seq::<LayerState>::empty());
            assert(Seq::<LayerState>::empty() + spec_tick(self.layers@, self.states@, now).0
                =~= spec_tick(self.layers@, self.states@, now).0);
            assert(out@ + spec_tick(self.layers@, self.states@, now).1 =~= spec_tick(
                self.layers@,
                self.states@,
                now,
            ).1);
        }
        while i < n
            invariant
                i <= n,
                n == self.layers@.len(),
                self.wf(),
                self.layers@ == old(self).layers@,
                whole == spec_tick(old(self).layers@, old(self).states@, now),
                whole.0 == self.states@.take(i as int) + spec_tick(
                    self.layers@.skip(i as int),
                    self.states@.skip(i as int),
                    now,
                ).0,
                whole.1 == out@ + spec_tick(
                    self.layers@.skip(i as int),
                    self.states@.skip(i as int),
                    now,
                ).1,
            decreases n - i,
        {
            let ghost pre_states = self.states@;
            let mut st = self.states[i];
            let layer = &self.layers[i];
            let flushed = layer.poll_timeout(&mut st, now);
            self.states.set(i, st);
            let ghost mid_states = self.states@;
            let mut cascaded = self.feed_from(i + 1, flushed);
            out.append(&mut cascaded);
            proof {
                let ls = self.layers@.skip(i as int);
                assert(ls[0] == self.layers@[i as int]);
                assert(pre_states.skip(i as int)[0] == pre_states[i as int]);
                assert(ls.skip(1) =~= self.layers@.skip(i + 1));
                assert(pre_states.skip(i as int).skip(1) =~= pre_states.skip(i + 1));
                assert(mid_states.skip(i + 1) =~= pre_states.skip(i + 1));
                let polled = spec_step_timeout(&self.layers@[i as int], pre_states[i as int], now);
                assert(st == polled.0);
                let cascade = spec_feed(
                    self.layers@.skip(i + 1),
                    pre_states.skip(i + 1),
                    tag_events(polled.1, now),
                );
                assert(self.states@.skip(i + 1) == cascade.0);
                let rest = spec_tick(self.layers@.skip(i + 1), cascade.0, now);
                assert(spec_tick(ls, pre_states.skip(i as int), now).0 =~= seq![polled.0]
                    + rest.0);
                assert(spec_tick(ls, pre_states.skip(i as int), now).1 =~= cascade.1 + rest.1);
                assert(self.states@.take(i + 1) =~= pre_states.take(i as int).push(polled.0)) by {
                    assert(mid_states.take(i + 1) =~= pre_states.take(i as int).push(polled.0));
                    assert(self.states@.take(i + 1) =~= mid_states.take(i + 1));
                }
                assert(pre_states.take(i as int) + (seq![polled.0] + rest.0) =~= self.states@.take(
                    i + 1,
                ) + rest.0);
            }
            i = i + 1;
        }
        proof {
            assert(self.layers@.skip(n as int) =~= Seq::<Layer>::empty());
            assert(self.states@.skip(n as int) =~= Seq::<LayerState>::empty());
            assert(whole.0 =~= self.states@.take(n as int));
            assert(self.states@.take(n as int) =~= self.states@);
            assert(whole.1 =~= out@);
        }
        out
    }
}

} // verus!
