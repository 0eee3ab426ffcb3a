use remap::keys::{Key, KeyEvent, KeyInput};
use remap::layer::Layer;
use remap::pipeline::Pipeline;
use remap::runtime::{ChordBuffer, LayerState};
use remap::rules::{Blueprint, RuleShape};

fn bp_single(conds: &[u64], key: Key, output: &[Key], transition: Option<u64>) -> Blueprint {
    Blueprint {
        conditions: conds.to_vec(),
        shape: RuleShape::Single { key, output: output.to_vec() },
        transition,
    }
}

fn bp_single_explicit(
    conds: &[u64],
    input: KeyInput,
    output: &[KeyInput],
    transition: Option<u64>,
) -> Blueprint {
    Blueprint {
        conditions: conds.to_vec(),
        shape: RuleShape::SingleExplicit { input, output: output.to_vec() },
        transition,
    }
}

fn bp_pair(
    conds: &[u64],
    first: Key,
    second: Key,
    output: &[Key],
    threshold: u64,
    transition: Option<u64>,
) -> Blueprint {
    Blueprint {
        conditions: conds.to_vec(),
        shape: RuleShape::Pair { first, second, output: output.to_vec(), threshold },
        transition,
    }
}

fn ev(input: KeyInput, time: u64) -> KeyEvent {
    KeyEvent { input, time }
}

fn press(k: Key) -> KeyInput {
    KeyInput::press(k)
}

fn release(k: Key) -> KeyInput {
    KeyInput::release(k)
}

/// A layer close to a Japanese-input layer: a chord on {D, H} plus
/// ordinary single-key rules for D and H, all in state 1.
fn jp_layer() -> Layer {
    let bps = vec![
        bp_pair(&[1], Key::D, Key::H, &[Key::H, Key::E], 50, None),
        bp_single(&[1], Key::D, &[Key::K, Key::A], None),
        bp_single(&[1], Key::H, &[Key::K, Key::U], None),
    ];
    Layer::compile(1, &bps).unwrap()
}

#[test]
fn single_rule_press_emits_output_and_keeps_state() {
    let bps = vec![bp_single(&[0], Key::A, &[Key::N, Key::O], None)];
    let layer = Layer::compile(0, &bps).unwrap();
    let mut st = LayerState::fresh(&layer);
    let out = layer.process(&mut st, press(Key::A), 5);
    assert_eq!(
        out,
        vec![
            ev(press(Key::N), 5),
            ev(release(Key::N), 5),
            ev(press(Key::O), 5),
            ev(release(Key::O), 5),
        ]
    );
    assert_eq!(st.state, 0);
    assert_eq!(st.buffer, ChordBuffer::Idle);
    let out = layer.process(&mut st, release(Key::A), 6);
    assert_eq!(out, vec![]);
    assert_eq!(st.state, 0);
}

#[test]
fn single_rule_with_transition_moves_state() {
    let bps = vec![bp_single(&[0], Key::Q, &[Key::M], Some(7))];
    let layer = Layer::compile(0, &bps).unwrap();
    let mut st = LayerState::fresh(&layer);
    let out = layer.process(&mut st, press(Key::Q), 0);
    assert_eq!(out, vec![ev(press(Key::M), 0), ev(release(Key::M), 0)]);
    assert_eq!(st.state, 7);
}

#[test]
fn unmatched_release_passes_through_unchanged() {
    let layer = jp_layer();
    let mut st = LayerState::fresh(&layer);
    let out = layer.process(&mut st, release(Key::Z), 12);
    assert_eq!(out, vec![ev(release(Key::Z), 12)]);
    assert_eq!(st.state, 1);
    assert_eq!(st.buffer, ChordBuffer::Idle);
}

#[test]
fn unmatched_press_passes_through_unchanged() {
    let layer = jp_layer();
    let mut st = LayerState::fresh(&layer);
    let out = layer.process(&mut st, press(Key::Z), 3);
    assert_eq!(out, vec![ev(press(Key::Z), 3)]);
    assert_eq!(st.state, 1);
}

#[test]
fn chord_fires_within_threshold() {
    let layer = jp_layer();
    let mut st = LayerState::fresh(&layer);
    let out = layer.process(&mut st, press(Key::D), 0);
    assert_eq!(out, vec![]);
    assert_eq!(st.buffer, ChordBuffer::Pending { key: Key::D, deadline: 50 });
    let out = layer.process(&mut st, press(Key::H), 30);
    assert_eq!(
        out,
        vec![
            ev(press(Key::H), 30),
            ev(release(Key::H), 30),
            ev(press(Key::E), 30),
            ev(release(Key::E), 30),
        ]
    );
    assert_eq!(st.state, 1);
    assert_eq!(st.buffer, ChordBuffer::Idle);
}

#[test]
fn chord_fires_at_exact_deadline() {
    let layer = jp_layer();
    let mut st = LayerState::fresh(&layer);
    layer.process(&mut st, press(Key::D), 0);
    let out = layer.process(&mut st, press(Key::H), 50);
    assert_eq!(out.len(), 4);
    assert_eq!(out[0], ev(press(Key::H), 50));
}

#[test]
fn chord_is_order_insensitive() {
    let layer = jp_layer();
    let mut st_ab = LayerState::fresh(&layer);
    let mut out_ab = layer.process(&mut st_ab, press(Key::D), 0);
    out_ab.extend(layer.process(&mut st_ab, press(Key::H), 30));
    let mut st_ba = LayerState::fresh(&layer);
    let mut out_ba = layer.process(&mut st_ba, press(Key::H), 0);
    out_ba.extend(layer.process(&mut st_ba, press(Key::D), 30));
    assert_eq!(out_ab, out_ba);
    assert_eq!(st_ab, st_ba);
    assert!(!out_ab.contains(&ev(press(Key::D), 0)));
    assert!(!out_ab.contains(&ev(press(Key::D), 30)));
}

#[test]
fn late_partner_flushes_candidate_then_reopens() {
    let layer = jp_layer();
    let mut st = LayerState::fresh(&layer);
    layer.process(&mut st, press(Key::D), 0);
    // 80 is past the 50 ms deadline: D is flushed via its own single
    // rule, and H is then processed from scratch — H itself opens a
    // chord window, since {D, H} is stored under both orders.
    let out = layer.process(&mut st, press(Key::H), 80);
    assert_eq!(
        out,
        vec![
            ev(press(Key::K), 80),
            ev(release(Key::K), 80),
            ev(press(Key::A), 80),
            ev(release(Key::A), 80),
        ]
    );
    assert_eq!(st.buffer, ChordBuffer::Pending { key: Key::H, deadline: 130 });
    // H's own window times out in turn and flushes via H's single rule.
    let out = layer.poll_timeout(&mut st, 131);
    assert_eq!(
        out,
        vec![
            ev(press(Key::K), 131),
            ev(release(Key::K), 131),
            ev(press(Key::U), 131),
            ev(release(Key::U), 131),
        ]
    );
    assert_eq!(st.buffer, ChordBuffer::Idle);
    assert_eq!(st.state, 1);
}

#[test]
fn timeout_flushes_candidate_and_clears_buffer() {
    let layer = jp_layer();
    let mut st = LayerState::fresh(&layer);
    layer.process(&mut st, press(Key::D), 0);
    // At the deadline itself nothing fires yet.
    let out = layer.poll_timeout(&mut st, 50);
    assert_eq!(out, vec![]);
    assert_eq!(st.buffer, ChordBuffer::Pending { key: Key::D, deadline: 50 });
    // One tick past the deadline the candidate resolves as a single key.
    let out = layer.poll_timeout(&mut st, 51);
    assert_eq!(
        out,
        vec![
            ev(press(Key::K), 51),
            ev(release(Key::K), 51),
            ev(press(Key::A), 51),
            ev(release(Key::A), 51),
        ]
    );
    assert_eq!(st.buffer, ChordBuffer::Idle);
    // A subsequent event is processed against the resulting state.
    let out = layer.process(&mut st, release(Key::Z), 60);
    assert_eq!(out, vec![ev(release(Key::Z), 60)]);
}

#[test]
fn timeout_without_pending_candidate_is_silent() {
    let layer = jp_layer();
    let mut st = LayerState::fresh(&layer);
    let out = layer.poll_timeout(&mut st, 1000);
    assert_eq!(out, vec![]);
    assert_eq!(st, LayerState::fresh(&layer));
}

#[test]
fn unrelated_key_flushes_candidate_first() {
    let layer = jp_layer();
    let mut st = LayerState::fresh(&layer);
    layer.process(&mut st, press(Key::D), 0);
    let out = layer.process(&mut st, press(Key::F), 10);
    assert_eq!(
        out,
        vec![
            ev(press(Key::K), 10),
            ev(release(Key::K), 10),
            ev(press(Key::A), 10),
            ev(release(Key::A), 10),
            ev(press(Key::F), 10),
        ]
    );
    assert_eq!(st.buffer, ChordBuffer::Idle);
}

#[test]
fn release_of_candidate_flushes_it() {
    let layer = jp_layer();
    let mut st = LayerState::fresh(&layer);
    layer.process(&mut st, press(Key::D), 0);
    let out = layer.process(&mut st, release(Key::D), 20);
    // Flush of D via its single rule, then the release matches D's
    // synthesized silent release entry.
    assert_eq!(
        out,
        vec![
            ev(press(Key::K), 20),
            ev(release(Key::K), 20),
            ev(press(Key::A), 20),
            ev(release(Key::A), 20),
        ]
    );
    assert_eq!(st.buffer, ChordBuffer::Idle);
}

/// The tap-hold space layer of the spec: Space alone types a space,
/// Space held acts as shift.
fn sands_layer() -> Layer {
    const NORMAL: u64 = 0;
    const SPACE: u64 = 1;
    const SHIFT: u64 = 2;
    let bps = vec![
        bp_single_explicit(
            &[NORMAL],
            KeyInput::press(Key::Space),
            &[KeyInput::press(Key::LeftShift)],
            Some(SPACE),
        ),
        bp_single_explicit(&[SPACE, SHIFT], KeyInput::press(Key::Space), &[], None),
        bp_single_explicit(
            &[SPACE],
            KeyInput::release(Key::Space),
            &[
                KeyInput::release(Key::LeftShift),
                KeyInput::press(Key::Space),
                KeyInput::release(Key::Space),
            ],
            Some(NORMAL),
        ),
        bp_single_explicit(
            &[SHIFT],
            KeyInput::release(Key::Space),
            &[KeyInput::release(Key::LeftShift)],
            Some(NORMAL),
        ),
        bp_single_explicit(
            &[SPACE],
            KeyInput::press(Key::X),
            &[KeyInput::press(Key::X)],
            Some(SHIFT),
        ),
    ];
    Layer::compile(NORMAL, &bps).unwrap()
}

#[test]
fn tap_hold_space_tap_types_a_space() {
    let layer = sands_layer();
    let mut st = LayerState::fresh(&layer);
    let out = layer.process(&mut st, press(Key::Space), 0);
    assert_eq!(out, vec![ev(press(Key::LeftShift), 0)]);
    assert_eq!(st.state, 1);
    let out = layer.process(&mut st, release(Key::Space), 10);
    assert_eq!(
        out,
        vec![
            ev(release(Key::LeftShift), 10),
            ev(press(Key::Space), 10),
            ev(release(Key::Space), 10),
        ]
    );
    assert_eq!(st.state, 0);
}

#[test]
fn tap_hold_space_hold_acts_as_shift() {
    let layer = sands_layer();
    let mut st = LayerState::fresh(&layer);
    let out = layer.process(&mut st, press(Key::Space), 0);
    assert_eq!(out, vec![ev(press(Key::LeftShift), 0)]);
    assert_eq!(st.state, 1);
    let out = layer.process(&mut st, press(Key::X), 5);
    assert_eq!(out, vec![ev(press(Key::X), 5)]);
    assert_eq!(st.state, 2);
    let out = layer.process(&mut st, release(Key::Space), 9);
    assert_eq!(out, vec![ev(release(Key::LeftShift), 9)]);
    assert_eq!(st.state, 0);
}

#[test]
fn pipeline_feeds_each_output_through_the_next_layer() {
    let first = Layer::compile(0, &vec![bp_single(&[0], Key::A, &[Key::B], None)]).unwrap();
    let second = Layer::compile(
        0,
        &vec![
            bp_single_explicit(&[0], KeyInput::press(Key::B), &[KeyInput::press(Key::C)], None),
            bp_single_explicit(&[0], KeyInput::release(Key::B), &[KeyInput::release(Key::C)], None),
        ],
    )
    .unwrap();
    let mut p = Pipeline::new();
    p.add_layer(first);
    p.add_layer(second);
    assert_eq!(p.layer_count(), 2);
    let out = p.process(press(Key::A), 7);
    assert_eq!(out, vec![ev(press(Key::C), 7), ev(release(Key::C), 7)]);
}

#[test]
fn pipeline_per_event_output_equals_whole_stream_through_each_layer() {
    // The same stream pushed event by event through a two-layer
    // pipeline, versus pushed whole through layer 1 and layer 1's
    // whole output pushed through layer 2.
    let mk_first = || Layer::compile(0, &vec![bp_single(&[0], Key::A, &[Key::B, Key::C], None)]).unwrap();
    let mk_second = || {
        Layer::compile(
            0,
            &vec![
                bp_single_explicit(&[0], KeyInput::press(Key::C), &[KeyInput::press(Key::M)], None),
                bp_single_explicit(
                    &[0],
                    KeyInput::release(Key::C),
                    &[KeyInput::release(Key::M)],
                    None,
                ),
            ],
        )
        .unwrap()
    };
    let stream = vec![
        ev(press(Key::A), 0),
        ev(release(Key::A), 3),
        ev(press(Key::Z), 6),
        ev(press(Key::A), 9),
    ];

    let mut p = Pipeline::new();
    p.add_layer(mk_first());
    p.add_layer(mk_second());
    let mut by_event: Vec<KeyEvent> = Vec::new();
    for e in &stream {
        by_event.extend(p.process(e.input, e.time));
    }

    let l1 = mk_first();
    let l2 = mk_second();
    let mut st1 = LayerState::fresh(&l1);
    let mut st2 = LayerState::fresh(&l2);
    let middle = l1.run(&mut st1, &stream);
    let by_stream = l2.run(&mut st2, &middle);

    assert_eq!(by_event, by_stream);
}

#[test]
fn pipeline_tick_cascades_flush_output_through_later_layers() {
    let first = jp_layer();
    let second = Layer::compile(
        0,
        &vec![
            bp_single_explicit(&[0], KeyInput::press(Key::K), &[KeyInput::press(Key::Z)], None),
            bp_single_explicit(&[0], KeyInput::release(Key::K), &[KeyInput::release(Key::Z)], None),
        ],
    )
    .unwrap();
    let mut p = Pipeline::new();
    p.add_layer(first);
    p.add_layer(second);
    let out = p.process(press(Key::D), 0);
    assert_eq!(out, vec![]);
    assert_eq!(p.chord_buffer(0), ChordBuffer::Pending { key: Key::D, deadline: 50 });
    let out = p.tick(51);
    assert_eq!(
        out,
        vec![
            ev(press(Key::Z), 51),
            ev(release(Key::Z), 51),
            ev(press(Key::A), 51),
            ev(release(Key::A), 51),
        ]
    );
    assert_eq!(p.chord_buffer(0), ChordBuffer::Idle);
    assert_eq!(p.current_state(0), 1);
}

#[test]
fn explicit_pair_output_is_emitted_verbatim() {
    // A chord whose output is spelled out event by event: shift is
    // held across the inner presses rather than tapped.
    let bps = vec![Blueprint {
        conditions: vec![0],
        shape: RuleShape::PairExplicit {
            first: Key::J,
            second: Key::N,
            output: vec![
                KeyInput::press(Key::LeftShift),
                KeyInput::press(Key::Slash),
                KeyInput::release(Key::Slash),
                KeyInput::release(Key::LeftShift),
            ],
            threshold: 50,
        },
        transition: None,
    }];
    let layer = Layer::compile(0, &bps).unwrap();
    let mut st = LayerState::fresh(&layer);
    layer.process(&mut st, press(Key::N), 0);
    let out = layer.process(&mut st, press(Key::J), 20);
    assert_eq!(
        out,
        vec![
            ev(press(Key::LeftShift), 20),
            ev(press(Key::Slash), 20),
            ev(release(Key::Slash), 20),
            ev(release(Key::LeftShift), 20),
        ]
    );
    assert_eq!(st.state, 0);
    assert_eq!(st.buffer, ChordBuffer::Idle);
}

#[test]
fn deadline_saturates_near_the_end_of_the_clock() {
    let layer = jp_layer();
    let mut st = LayerState::fresh(&layer);
    let out = layer.process(&mut st, press(Key::D), u64::MAX - 10);
    assert_eq!(out, vec![]);
    assert_eq!(st.buffer, ChordBuffer::Pending { key: Key::D, deadline: u64::MAX });
    // A saturated deadline can never be exceeded, so the chord window
    // stays open to the end of the clock.
    let out = layer.process(&mut st, press(Key::H), u64::MAX);
    assert_eq!(out.len(), 4);
    assert_eq!(out[0], ev(press(Key::H), u64::MAX));
}

#[test]
fn fanned_out_rule_applies_in_every_named_state() {
    let bps = vec![
        bp_single(&[0, 1, 2], Key::F15, &[Key::Grave], None),
        bp_single_explicit(&[0], KeyInput::press(Key::Tab), &[], Some(1)),
        bp_single_explicit(&[1], KeyInput::press(Key::Tab), &[], Some(2)),
    ];
    let layer = Layer::compile(0, &bps).unwrap();
    let mut st = LayerState::fresh(&layer);
    for expected_state in [0u64, 1, 2] {
        assert_eq!(st.state, expected_state);
        let out = layer.process(&mut st, press(Key::F15), 0);
        assert_eq!(out, vec![ev(press(Key::Grave), 0), ev(release(Key::Grave), 0)]);
        assert_eq!(st.state, expected_state);
        layer.process(&mut st, press(Key::Tab), 1);
    }
}

#[test]
fn empty_pipeline_passes_events_through() {
    let mut p = Pipeline::new();
    let out = p.process(press(Key::A), 4);
    assert_eq!(out, vec![ev(press(Key::A), 4)]);
    let out = p.tick(100);
    assert_eq!(out, vec![]);
}
