//! Key symbols and key events: the data that flows through every layer.
//!
//! A `Key` is an opaque symbol from a fixed enumeration of physical and
//! virtual key codes. A `KeyInput` is a key together with a direction
//! (press or release); a `KeyEvent` adds the monotonic timestamp, in
//! milliseconds, that was assigned when the event was read in.

use vstd::prelude::*;

verus! {

/// A physical or virtual key code.
#[derive(Debug, PartialEq, Eq, Structural, Clone, Copy, Hash)]
pub enum Key {
    A,
    B,
    C,
    D,
    E,
    F,
    G,
    H,
    I,
    J,
    K,
    L,
    M,
    N,
    O,
    P,
    Q,
    R,
    S,
    T,
    U,
    V,
    W,
    X,
    Y,
    Z,
    Num0,
    Num1,
    Num2,
    Num3,
    Num4,
    Num5,
    Num6,
    Num7,
    Num8,
    Num9,
    Minus,
    Equal,
    Grave,
    Comma,
    Dot,
    Slash,
    Semicolon,
    Apostrophe,
    LeftBrace,
    RightBrace,
    Backslash,
    Ro,
    Space,
    Enter,
    Esc,
    Tab,
    CapsLock,
    Backspace,
    Insert,
    Delete,
    LeftCtrl,
    LeftMeta,
    LeftAlt,
    LeftShift,
    RightCtrl,
    RightMeta,
    RightAlt,
    RightShift,
    Left,
    Right,
    Up,
    Down,
    PageUp,
    PageDown,
    Home,
    End,
    F1,
    F2,
    F3,
    F4,
    F5,
    F6,
    F7,
    F8,
    F9,
    F10,
    F11,
    F12,
    F13,
    F14,
    F15,
    KatakanaHiragana,
    Henkan,
    Muhenkan,
    Numeric0,
    Numeric1,
}

/// Whether a key event is a press or a release.
#[derive(Debug, PartialEq, Eq, Structural, Clone, Copy, Hash)]
pub enum Direction {
    Press,
    Release,
}

/// A key together with a direction: the payload of one keyboard event.
#[derive(Debug, PartialEq, Eq, Structural, Clone, Copy, Hash)]
pub struct KeyInput {
    pub key: Key,
    pub direction: Direction,
}

/// A key input with the monotonic timestamp (milliseconds) it carried
/// when it entered the pipeline.
#[derive(Debug, PartialEq, Eq, Structural, Clone, Copy, Hash)]
pub struct KeyEvent {
    pub input: KeyInput,
    pub time: u64,
}

/// The press of `key`, as a value.
pub open spec fn press_of(key: Key) -> KeyInput {
    KeyInput { key, direction: Direction::Press }
}

/// The release of `key`, as a value.
pub open spec fn release_of(key: Key) -> KeyInput {
    KeyInput { key, direction: Direction::Release }
}

impl KeyInput {
    /// Builds the press of `key`.
    pub fn press(key: Key) -> (r: KeyInput)
        ensures
            r == press_of(key),
    {
        KeyInput { key, direction: Direction::Press }
    }

    /// Builds the release of `key`.
    pub fn release(key: Key) -> (r: KeyInput)
        ensures
            r == release_of(key),
    {
        KeyInput { key, direction: Direction::Release }
    }
}

/// `inputs` turned into events, each tagged with the one timestamp `time`.
pub open spec fn tag_events(inputs: Seq<KeyInput>, time: u64) -> Seq<KeyEvent>
    decreases inputs.len(),
{
    if inputs.len() == 0 {
        Seq::empty()
    } else {
        tag_events(inputs.drop_last(), time).push(KeyEvent { input: inputs.last(), time })
    }
}

/// Pushes every element of `inputs`, tagged with `time`, onto `out`.
pub fn emit_tagged(out: &mut Vec<KeyEvent>, inputs: &Vec<KeyInput>, time: u64)
    ensures
        final(out)@ == old(out)@ + tag_events(inputs@, time),
{
    let n = inputs.len();
    let mut i: usize = 0;
    while i < n
        invariant
            i <= n,
            n == inputs.len(),
            out@ == old(out)@ + tag_events(inputs@.take(i as int), time),
        decreases n - i,
    {
        out.push(KeyEvent { input: inputs[i], time });
        proof {
            assert(inputs@.take(i + 1).drop_last() =~= inputs@.take(i as int));
            assert(inputs@.take(i + 1).last() == inputs@[i as int]);
        }
        i = i + 1;
    }
    proof {
        assert(inputs@.take(n as int) =~= inputs@);
    }
}

} // verus!
