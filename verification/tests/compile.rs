use remap::keys::{Key, KeyInput};
use remap::layer::{CompileError, Layer};
use remap::rules::{modifier_tracking, Blueprint, RuleShape};

fn bp_single(conds: &[u64], key: Key, output: &[Key], transition: Option<u64>) -> Blueprint {
    Blueprint {
        conditions: conds.to_vec(),
        shape: RuleShape::Single { key, output: output.to_vec() },
        transition,
    }
}

fn bp_pair(
    conds: &[u64],
    first: Key,
    second: Key,
    output: &[Key],
    threshold: u64,
    transition: Option<u64>,
) -> Blueprint {
    Blueprint {
        conditions: conds.to_vec(),
        shape: RuleShape::Pair { first, second, output: output.to_vec(), threshold },
        transition,
    }
}

#[test]
fn single_blueprint_expands_to_press_train_and_silent_release() {
    let bps = vec![bp_single(&[0], Key::A, &[Key::N, Key::O], None)];
    let layer = Layer::compile(0, &bps).unwrap();
    assert_eq!(layer.initial_state, 0);
    assert_eq!(layer.singles.len(), 2);
    assert_eq!(layer.pairs.len(), 0);
    assert_eq!(layer.singles[0].condition, 0);
    assert_eq!(layer.singles[0].input, KeyInput::press(Key::A));
    assert_eq!(
        layer.singles[0].output,
        vec![
            KeyInput::press(Key::N),
            KeyInput::release(Key::N),
            KeyInput::press(Key::O),
            KeyInput::release(Key::O),
        ]
    );
    assert_eq!(layer.singles[0].transition, 0);
    assert_eq!(layer.singles[1].input, KeyInput::release(Key::A));
    assert!(layer.singles[1].output.is_empty());
    assert_eq!(layer.singles[1].transition, 0);
}

#[test]
fn condition_fan_out_replicates_per_state() {
    let bps = vec![bp_single(&[0, 1, 2], Key::F15, &[Key::Grave], None)];
    let layer = Layer::compile(0, &bps).unwrap();
    assert_eq!(layer.singles.len(), 6);
    for (i, state) in [0u64, 1, 2].iter().enumerate() {
        assert_eq!(layer.singles[2 * i].condition, *state);
        assert_eq!(layer.singles[2 * i].transition, *state);
        assert_eq!(layer.singles[2 * i + 1].condition, *state);
    }
}

#[test]
fn pair_blueprint_expands_to_both_orders() {
    let bps = vec![bp_pair(&[1], Key::D, Key::H, &[Key::H, Key::E], 50, None)];
    let layer = Layer::compile(1, &bps).unwrap();
    assert_eq!(layer.singles.len(), 0);
    assert_eq!(layer.pairs.len(), 2);
    assert_eq!(layer.pairs[0].first, Key::D);
    assert_eq!(layer.pairs[0].second, Key::H);
    assert_eq!(layer.pairs[1].first, Key::H);
    assert_eq!(layer.pairs[1].second, Key::D);
    assert_eq!(layer.pairs[0].output, layer.pairs[1].output);
    assert_eq!(layer.pairs[0].transition, layer.pairs[1].transition);
    assert_eq!(layer.pairs[0].threshold, 50);
    assert_eq!(layer.pairs[1].threshold, 50);
    assert_eq!(
        layer.pairs[0].output,
        vec![
            KeyInput::press(Key::H),
            KeyInput::release(Key::H),
            KeyInput::press(Key::E),
            KeyInput::release(Key::E),
        ]
    );
}

#[test]
fn explicit_transition_overrides_default() {
    let bps = vec![bp_single(&[0], Key::Q, &[Key::M], Some(7))];
    let layer = Layer::compile(0, &bps).unwrap();
    assert_eq!(layer.singles[0].transition, 7);
    assert_eq!(layer.singles[1].transition, 7);
}

#[test]
fn duplicate_single_rule_is_a_compile_error() {
    let bps = vec![
        bp_single(&[0], Key::A, &[Key::N], None),
        bp_single(&[0], Key::A, &[Key::O], None),
    ];
    let err = Layer::compile(0, &bps).unwrap_err();
    assert_eq!(
        err,
        CompileError::AmbiguousSingle { condition: 0, input: KeyInput::press(Key::A) }
    );
}

#[test]
fn duplicate_pair_rule_is_a_compile_error() {
    let bps = vec![
        bp_pair(&[3], Key::J, Key::K, &[Key::Enter], 40, None),
        bp_pair(&[3], Key::J, Key::K, &[Key::Esc], 40, None),
    ];
    let err = Layer::compile(3, &bps).unwrap_err();
    assert_eq!(
        err,
        CompileError::AmbiguousPair { condition: 3, first: Key::J, second: Key::K }
    );
}

#[test]
fn same_key_in_different_states_is_not_ambiguous() {
    let bps = vec![
        bp_single(&[0], Key::A, &[Key::N], None),
        bp_single(&[1], Key::A, &[Key::O], None),
    ];
    assert!(Layer::compile(0, &bps).is_ok());
}

#[test]
fn modifier_tracking_generates_paired_echo_entries() {
    let mods = vec![Key::LeftShift, Key::LeftCtrl];
    let bps = modifier_tracking(&mods, 1, 2);
    assert_eq!(bps.len(), 4);
    let layer = Layer::compile(1, &bps).unwrap();
    assert_eq!(layer.singles.len(), 4);
    assert_eq!(layer.singles[0].condition, 1);
    assert_eq!(layer.singles[0].input, KeyInput::press(Key::LeftShift));
    assert_eq!(layer.singles[0].output, vec![KeyInput::press(Key::LeftShift)]);
    assert_eq!(layer.singles[0].transition, 2);
    assert_eq!(layer.singles[1].condition, 2);
    assert_eq!(layer.singles[1].input, KeyInput::release(Key::LeftShift));
    assert_eq!(layer.singles[1].output, vec![KeyInput::release(Key::LeftShift)]);
    assert_eq!(layer.singles[1].transition, 1);
    assert_eq!(layer.singles[2].input, KeyInput::press(Key::LeftCtrl));
    assert_eq!(layer.singles[3].input, KeyInput::release(Key::LeftCtrl));
}
