//! The per-layer runtime: semantic state plus the chord detector.
//!
//! Each live layer owns one semantic `State` and one chord-pending
//! buffer. An incoming press whose key opens a chord in the current
//! state is buffered and suppressed until either its partner arrives
//! within the threshold (the chord fires, both presses consumed), or
//! anything else happens (the buffered key is flushed as an ordinary
//! single key and the new event is processed from scratch). Unmatched
//! events always pass through unchanged: total fallthrough, no key is
//! ever silently dropped.

use crate::keys::{press_of, tag_events, KeyEvent, KeyInput};
use crate::keys::{emit_tagged, Direction};
use crate::layer::{lookup_pair, lookup_pair_first, lookup_single, Layer};
use crate::rules::State;
use vstd::prelude::*;

verus! {

/// The chord-pending buffer of one layer: empty, or holding the
/// candidate first key of a chord together with the deadline by which
/// its partner must arrive.
#[derive(Debug, PartialEq, Eq, Structural, Clone, Copy)]
pub enum ChordBuffer {
    Idle,
    Pending { key: crate::keys::Key, deadline: u64 },
}

/// The live, mutable part of one layer: its semantic state and its
/// chord-pending buffer.
#[derive(Debug, PartialEq, Eq, Structural, Clone, Copy)]
pub struct LayerState {
    pub state: State,
    pub buffer: ChordBuffer,
}

impl LayerState {
    /// The starting point of a freshly composed layer: its declared
    /// initial state, chord buffer empty.
    pub open spec fn spec_fresh(layer: &Layer) -> LayerState {
        LayerState { state: layer.initial_state, buffer: ChordBuffer::Idle }
    }

    /// Builds the starting point of a freshly composed layer.
    pub fn fresh(layer: &Layer) -> (r: LayerState)
        ensures
            r == LayerState::spec_fresh(layer),
    {
        LayerState { state: layer.initial_state, buffer: ChordBuffer::Idle }
    }
}

/// `now + threshold`, capped at the largest representable time so a
/// deadline near the end of the clock's range never wraps around.
pub open spec fn spec_deadline(now: u64, threshold: u64) -> u64 {
    if now + threshold > u64::MAX {
        u64::MAX
    } else {
        (now + threshold) as u64
    }
}

/// Computes the chord deadline `now + threshold`, saturating.
fn deadline_after(now: u64, threshold: u64) -> (r: u64)
    ensures
        r == spec_deadline(now, threshold),
{
    if now > u64::MAX - threshold {
        u64::MAX
    } else {
        now + threshold
    }
}

/// The result of resolving a buffered chord-candidate key `k` as an
/// ordinary key in state `s`: its single-key rule's output and
/// transition when one applies, else the bare press passed through with
/// the state unchanged.
pub open spec fn spec_flush(layer: &Layer, s: State, k: crate::keys::Key) -> (State, Seq<
    KeyInput,
>) {
    match lookup_single(layer.single_table(), s, press_of(k)) {
        Some(r) => (r.transition, r.output),
        None => (s, seq![press_of(k)]),
    }
}

/// One step of a layer whose chord buffer is empty, on input `inp` at
/// time `now`: a press that opens a chord in the current state is
/// buffered and suppressed; otherwise the matching single-key rule, if
/// any, fires; otherwise the input passes through unchanged.
pub open spec fn spec_step_idle(layer: &Layer, s: State, inp: KeyInput, now: u64) -> (
    LayerState,
    Seq<KeyInput>,
) {
    let chord_opener = if inp.direction is Press {
        lookup_pair_first(layer.pair_table(), s, inp.key)
    } else {
        None
    };
    match chord_opener {
        Some(p) => (
            LayerState {
                state: s,
                buffer: ChordBuffer::Pending {
                    key: inp.key,
                    deadline: spec_deadline(now, p.threshold),
                },
            },
            Seq::empty(),
        ),
        None => match lookup_single(layer.single_table(), s, inp) {
            Some(r) => (LayerState { state: r.transition, buffer: ChordBuffer::Idle }, r.output),
            None => (LayerState { state: s, buffer: ChordBuffer::Idle }, seq![inp]),
        },
    }
}

/// One step of a layer on input `inp` at time `now`. With a pending
/// chord candidate, a press of its partner within the deadline fires
/// the chord and consumes both presses; anything else first flushes the
/// candidate and then processes `inp` from scratch against the
/// resulting state.
pub open spec fn spec_step(layer: &Layer, st: LayerState, inp: KeyInput, now: u64) -> (
    LayerState,
    Seq<KeyInput>,
) {
    match st.buffer {
        ChordBuffer::Idle => spec_step_idle(layer, st.state, inp, now),
        ChordBuffer::Pending { key, deadline } => {
            let hit = if inp.direction is Press && now <= deadline {
                lookup_pair(layer.pair_table(), st.state, key, inp.key)
            } else {
                None
            };
            match hit {
                Some(p) => (
                    LayerState { state: p.transition, buffer: ChordBuffer::Idle },
                    p.output,
                ),
                None => {
                    let flushed = spec_flush(layer, st.state, key);
                    let rest = spec_step_idle(layer, flushed.0, inp, now);
                    (rest.0, flushed.1 + rest.1)
                },
            }
        },
    }
}

/// One timeout poll at time `now`: a pending candidate whose deadline
/// has passed is flushed; otherwise nothing changes and nothing is
/// emitted.
pub open spec fn spec_step_timeout(layer: &Layer, st: LayerState, now: u64) -> (
    LayerState,
    Seq<KeyInput>,
) {
    match st.buffer {
        ChordBuffer::Pending { key, deadline } => {
            if now > deadline {
                let flushed = spec_flush(layer, st.state, key);
                (LayerState { state: flushed.0, buffer: ChordBuffer::Idle }, flushed.1)
            } else {
                (st, Seq::empty())
            }
        },
        ChordBuffer::Idle => (st, Seq::empty()),
    }
}

/// One step on a timestamped event: the step on its input at its time,
/// with every emitted input tagged with that same time.
pub open spec fn spec_step_event(layer: &Layer, st: LayerState, ev: KeyEvent) -> (
    LayerState,
    Seq<KeyEvent>,
) {
    let r = spec_step(layer, st, ev.input, ev.time);
    (r.0, tag_events(r.1, ev.time))
}

/// A layer run over a whole event stream, in order: the concatenation
/// of the outputs of each step, and the state after the last.
pub open spec fn spec_run(layer: &Layer, st: LayerState, evs: Seq<KeyEvent>) -> (
    LayerState,
    Seq<KeyEvent>,
)
    decreases evs.len(),
{
    if evs.len() == 0 {
        (st, Seq::empty())
    } else {
        let head = spec_step_event(layer, st, evs[0]);
        let rest = spec_run(layer, head.0, evs.skip(1));
        (rest.0, head.1 + rest.1)
    }
}

impl Layer {
    /// Resolves the buffered chord-candidate key `k` as an ordinary
    /// single key, updating `st` and appending the flush output,
    /// tagged with `now`, to `out`.
    fn flush_candidate(
        &self,
        st: &mut LayerState,
        k: crate::keys::Key,
        now: u64,
        out: &mut Vec<KeyEvent>,
    )
        ensures
            final(st).state == spec_flush(self, old(st).state, k).0,
            final(st).buffer is Idle,
            final(out)@ == old(out)@ + tag_events(spec_flush(self, old(st).state, k).1, now),
    {
        st.buffer = ChordBuffer::Idle;
        match self.find_single(st.state, KeyInput::press(k)) {
            Some(i) => {
                emit_tagged(out, &self.singles[i].output, now);
                st.state = self.singles[i].transition;
            },
            None => {
                out.push(KeyEvent { input: KeyInput::press(k), time: now });
                proof {
                    assert(seq![press_of(k)].drop_last() =~= Seq::<KeyInput>::empty());
                    assert(tag_events(Seq::<KeyInput>::empty(), now) =~= Seq::<KeyEvent>::empty());
                    assert(tag_events(seq![press_of(k)], now) =~= seq![
                        KeyEvent { input: press_of(k), time: now },
                    ]);
                }
            },
        }
    }

    /// One step with an empty chord buffer: updates `st` and appends
    /// the emitted events, tagged with `now`, to `out`.
    fn step_idle(&self, st: &mut LayerState, inp: KeyInput, now: u64, out: &mut Vec<KeyEvent>)
        requires
            old(st).buffer is Idle,
        ensures
            *final(st) == spec_step_idle(self, old(st).state, inp, now).0,
            final(out)@ == old(out)@ + tag_events(
                spec_step_idle(self, old(st).state, inp, now).1,
                now,
            ),
    {
        let opener = if matches!(inp.direction, Direction::Press) {
            self.find_pair_first(st.state, inp.key)
        } else {
            None
        };
        match opener {
            Some(i) => {
                st.buffer = ChordBuffer::Pending {
                    key: inp.key,
                    deadline: deadline_after(now, self.pairs[i].threshold),
                };
                proof {
                    assert(tag_events(Seq::<KeyInput>::empty(), now) =~= Seq::<
                        KeyEvent,
                    >::empty());
                    assert(out@ =~= old(out)@ + Seq::<KeyEvent>::empty());
                }
            },
            None => match self.find_single(st.state, inp) {
                Some(i) => {
                    emit_tagged(out, &self.singles[i].output, now);
                    st.state = self.singles[i].transition;
                },
                None => {
                    out.push(KeyEvent { input: inp, time: now });
                    proof {
                        assert(seq![inp].drop_last() =~= Seq::<KeyInput>::empty());
                        assert(tag_events(Seq::<KeyInput>::empty(), now) =~= Seq::<
                            KeyEvent,
                        >::empty());
                        assert(tag_events(seq![inp], now) =~= seq![
                            KeyEvent { input: inp, time: now },
                        ]);
                    }
                },
            },
        }
    }

    /// Processes one input at time `now` through this layer, mutating
    /// the live state and returning the emitted events in order, each
    /// tagged with `now`.
    pub fn process(&self, st: &mut LayerState, inp: KeyInput, now: u64) -> (out: Vec<KeyEvent>)
        ensures
            *final(st) == spec_step(self, *old(st), inp, now).0,
            out@ == tag_events(spec_step(self, *old(st), inp, now).1, now),
    {
        let mut out: Vec<KeyEvent> = Vec::new();
        let buffer = st.buffer;
        match buffer {
            ChordBuffer::Idle => {
                self.step_idle(st, inp, now, &mut out);
            },
            ChordBuffer::Pending { key, deadline } => {
                let hit = if matches!(inp.direction, Direction::Press) && now <= deadline {
                    self.find_pair(st.state, key, inp.key)
                } else {
                    None
                };
                match hit {
                    Some(i) => {
                        emit_tagged(&mut out, &self.pairs[i].output, now);
                        st.state = self.pairs[i].transition;
                        st.buffer = ChordBuffer::Idle;
                    },
                    None => {
                        self.flush_candidate(st, key, now, &mut out);
                        self.step_idle(st, inp, now, &mut out);
                        proof {
                            let flushed = spec_flush(self, old(st).state, key);
                            let rest = spec_step_idle(self, flushed.0, inp, now);
                            assert(tag_events(flushed.1 + rest.1, now) =~= tag_events(
                                flushed.1,
                                now,
                            ) + tag_events(rest.1, now)) by {
                                tag_events_concat(flushed.1, rest.1, now);
                            }
                        }
                    },
                }
            },
        }
        out
    }

    /// Polls the chord deadline at time `now`: flushes the pending
    /// candidate once the deadline has passed, mutating the live state
    /// and returning the flush output tagged with `now`.
    pub fn poll_timeout(&self, st: &mut LayerState, now: u64) -> (out: Vec<KeyEvent>)
        ensures
            *final(st) == spec_step_timeout(self, *old(st), now).0,
            out@ == tag_events(spec_step_timeout(self, *old(st), now).1, now),
    {
        let mut out: Vec<KeyEvent> = Vec::new();
        let buffer = st.buffer;
        match buffer {
            ChordBuffer::Pending { key, deadline } => {
                if now > deadline {
                    self.flush_candidate(st, key, now, &mut out);
                } else {
                    proof {
                        assert(tag_events(Seq::<KeyInput>::empty(), now) =~= Seq::<
                            KeyEvent,
                        >::empty());
                    }
                }
            },
            ChordBuffer::Idle => {
                proof {
                    assert(tag_events(Seq::<KeyInput>::empty(), now) =~= Seq::<
                        KeyEvent,
                    >::empty());
                }
            },
        }
        out
    }

    /// Runs this layer over a whole batch of events in order, mutating
    /// the live state and returning the concatenated outputs.
    pub fn run(&self, st: &mut LayerState, evs: &Vec<KeyEvent>) -> (out: Vec<KeyEvent>)
        ensures
            *final(st) == spec_run(self, *old(st), evs@).0,
            out@ == spec_run(self, *old(st), evs@).1,
    {
        let mut out: Vec<KeyEvent> = Vec::new();
        let n = evs.len();
        let mut i: usize = 0;
        proof {
            assert(evs@.skip(0) =~= evs@);
        }
        while i < n
            invariant
                i <= n,
                n == evs@.len(),
                spec_run(self, *old(st), evs@).0 == spec_run(self, *st, evs@.skip(i as int)).0,
                spec_run(self, *old(st), evs@).1 == out@ + spec_run(
                    self,
                    *st,
                    evs@.skip(i as int),
                ).1,
            decreases n - i,
        {
            let ev = evs[i];
            let mut produced = self.process(st, ev.input, ev.time);
            out.append(&mut produced);
            proof {
                assert(evs@.skip(i as int)[0] == evs@[i as int]);
                assert(evs@.skip(i as int).skip(1) =~= evs@.skip(i + 1));
            }
            i = i + 1;
        }
        proof {
            assert(evs@.skip(n as int) =~= Seq::<KeyEvent>::empty());
        }
        out
    }
}

/// Tagging a concatenation tags each part: `tag_events` distributes
/// over `+`.
pub proof fn tag_events_concat(a: Seq<KeyInput>, b: Seq<KeyInput>, time: u64)
    ensures
        tag_events(a + b, time) == tag_events(a, time) + tag_events(b, time),
    decreases b.len(),
{
    if b.len() == 0 {
        assert(a + b =~= a);
        assert(tag_events(a, time) + tag_events(Seq::<KeyInput>::empty(), time) =~= tag_events(
            a,
            time,
        ));
    } else {
        tag_events_concat(a, b.drop_last(), time);
        assert((a + b).drop_last() =~= a + b.drop_last());
        assert((a + b).last() == b.last());
        assert(tag_events(a, time) + tag_events(b, time) =~= (tag_events(a, time) + tag_events(
            b.drop_last(),
            time,
        )).push(KeyEvent { input: b.last(), time }));
    }
}

} // verus!
