//! Key bindings of the interactive terminal renderer.

use vstd::prelude::*;

verus! {

/// A key press, reduced to what the bindings look at.
#[derive(Clone, Copy, PartialEq, Eq, Debug, Structural)]
pub enum Key {
    Char(char),
    Esc,
    Left,
    Right,
    Up,
    Down,
    Other,
}

/// What the render loop does after the pending keys are read.
#[derive(Clone, Copy, PartialEq, Eq, Debug, Structural)]
pub enum Action {
    /// Nothing to do beyond the control changes.
    Nothing,
    Quit,
    Rewind,
    NewSeed,
}

/// A change to the playback controls.
#[derive(Clone, Copy, PartialEq, Eq, Debug, Structural)]
pub enum ControlOp {
    TogglePause,
    /// Back to T = 0.
    Rewind,
    /// Step preset 1..=5 (0.1, 1, 10, 100, 1000).
    Preset(u8),
    RewindFwd,
    RewindBack,
    SpeedUp,
    SpeedDown,
}

/// The outcome of one key: the action so far, the control change to make,
/// and whether to stop reading keys.
#[derive(Clone, Copy, PartialEq, Eq, Debug, Structural)]
pub struct KeyStep {
    pub action: Action,
    pub op: Option<ControlOp>,
    pub stop: bool,
}

/// The bindings: ctrl-c, `q` and Esc quit at once; space pauses; `r`
/// rewinds and asks for a redraw; `c` rewinds and asks for a new seed;
/// `1`..`5` pick a step preset; left/right jump back/forward; up/down
/// change speed; anything else is ignored and leaves the action as it was.
pub open spec fn key_step(action: Action, key: Key, ctrl: bool) -> KeyStep {
    let keep = |op: Option<ControlOp>| KeyStep { action, op, stop: false };
    if ctrl && key == Key::Char('c') {
        KeyStep { action: Action::Quit, op: None, stop: true }
    } else {
        match key {
            Key::Char(c) => if c == 'q' {
                KeyStep { action: Action::Quit, op: None, stop: true }
            } else if c == ' ' {
                keep(Some(ControlOp::TogglePause))
            } else if c == 'r' {
                KeyStep { action: Action::Rewind, op: Some(ControlOp::Rewind), stop: false }
            } else if c == 'c' {
                KeyStep { action: Action::NewSeed, op: Some(ControlOp::Rewind), stop: false }
            } else if '1' <= c <= '5' {
                keep(Some(ControlOp::Preset((c as u32 - '0' as u32) as u8)))
            } else {
                keep(None)
            },
            Key::Esc => KeyStep { action: Action::Quit, op: None, stop: true },
            Key::Right => keep(Some(ControlOp::RewindFwd)),
            Key::Left => keep(Some(ControlOp::RewindBack)),
            Key::Up => keep(Some(ControlOp::SpeedUp)),
            Key::Down => keep(Some(ControlOp::SpeedDown)),
            Key::Other => keep(None),
        }
    }
}

/// Reading keys stops exactly when the gathered action becomes `Quit`.
pub proof fn lemma_stop_iff_quit(action: Action, key: Key, ctrl: bool)
    requires
        action != Action::Quit,
    ensures
        key_step(action, key, ctrl).stop <==> key_step(action, key, ctrl).action == Action::Quit,
{
}

/// Ctrl-c, `q` and Esc quit whatever was gathered before; a key bound to
/// nothing leaves the gathered action as it was.
pub proof fn lemma_quit_keys(action: Action, key: Key, ctrl: bool)
    ensures
        (ctrl && key == Key::Char('c')) || key == Key::Char('q') || key == Key::Esc ==> key_step(
            action,
            key,
            ctrl,
        ) == (KeyStep { action: Action::Quit, op: None, stop: true }),
        key == Key::Other ==> key_step(action, key, ctrl) == (KeyStep {
            action,
            op: None,
            stop: false,
        }),
{
}

/// Each digit key 1 to 5 picks its own preset, the one it names, and
/// keeps the action and the reading going.
pub proof fn lemma_digit_presets(action: Action)
    ensures
        key_step(action, Key::Char('1'), false) == (KeyStep { action, op: Some(ControlOp::Preset(1)), stop: false }),
        key_step(action, Key::Char('2'), false) == (KeyStep { action, op: Some(ControlOp::Preset(2)), stop: false }),
        key_step(action, Key::Char('3'), false) == (KeyStep { action, op: Some(ControlOp::Preset(3)), stop: false }),
        key_step(action, Key::Char('4'), false) == (KeyStep { action, op: Some(ControlOp::Preset(4)), stop: false }),
        key_step(action, Key::Char('5'), false) == (KeyStep { action, op: Some(ControlOp::Preset(5)), stop: false }),
        forall|c: char, d: char|
            '1' <= c <= '5' && '1' <= d <= '5' && c != d ==> key_step(action, Key::Char(c), false).op
                != key_step(action, Key::Char(d), false).op,
{
}

/// The other bindings, key by key: space pauses, `r` rewinds for a redraw,
/// `c` rewinds for a new seed, the arrows jump and change speed; none of
/// them stops the reading, and only `r` and `c` change the action.
pub proof fn lemma_control_bindings(action: Action)
    ensures
        key_step(action, Key::Char(' '), false) == (KeyStep { action, op: Some(ControlOp::TogglePause), stop: false }),
        key_step(action, Key::Char('r'), false) == (KeyStep { action: Action::Rewind, op: Some(ControlOp::Rewind), stop: false }),
        key_step(action, Key::Char('c'), false) == (KeyStep { action: Action::NewSeed, op: Some(ControlOp::Rewind), stop: false }),
        key_step(action, Key::Right, false) == (KeyStep { action, op: Some(ControlOp::RewindFwd), stop: false }),
        key_step(action, Key::Left, false) == (KeyStep { action, op: Some(ControlOp::RewindBack), stop: false }),
        key_step(action, Key::Up, false) == (KeyStep { action, op: Some(ControlOp::SpeedUp), stop: false }),
        key_step(action, Key::Down, false) == (KeyStep { action, op: Some(ControlOp::SpeedDown), stop: false }),
{
}

/// Number of step presets.
pub const PRESET_COUNT: u8 = 5;

/// Where a 1-indexed step preset sits in the preset table (1 = 0.1,
/// 2 = 1, 3 = 10, 4 = 100, 5 = 1000); nothing for any other number.
pub fn preset_index(n: u8) -> (r: Option<usize>)
    ensures
        1 <= n <= 5 ==> r == Some((n - 1) as usize),
        !(1 <= n <= 5) ==> r is None,
{
    if 1 <= n && n <= PRESET_COUNT {
        Some((n - 1) as usize)
    } else {
        None
    }
}

/// Reads one key press on top of the action gathered so far.
pub fn on_key(action: Action, key: Key, ctrl: bool) -> (s: KeyStep)
    ensures
        s == key_step(action, key, ctrl),
{
    let quit = KeyStep { action: Action::Quit, op: None, stop: true };
    if ctrl && key == Key::Char('c') {
        return quit;
    }
    match key {
        Key::Char('q') | Key::Esc => quit,
        Key::Char(' ') => KeyStep { action, op: Some(ControlOp::TogglePause), stop: false },
        Key::Char('r') => KeyStep { action: Action::Rewind, op: Some(ControlOp::Rewind), stop: false },
        Key::Char('c') => KeyStep { action: Action::NewSeed, op: Some(ControlOp::Rewind), stop: false },
        Key::Char('1') => KeyStep { action, op: Some(ControlOp::Preset(1)), stop: false },
        Key::Char('2') => KeyStep { action, op: Some(ControlOp::Preset(2)), stop: false },
        Key::Char('3') => KeyStep { action, op: Some(ControlOp::Preset(3)), stop: false },
        Key::Char('4') => KeyStep { action, op: Some(ControlOp::Preset(4)), stop: false },
        Key::Char('5') => KeyStep { action, op: Some(ControlOp::Preset(5)), stop: false },
        Key::Right => KeyStep { action, op: Some(ControlOp::RewindFwd), stop: false },
        Key::Left => KeyStep { action, op: Some(ControlOp::RewindBack), stop: false },
        Key::Up => KeyStep { action, op: Some(ControlOp::SpeedUp), stop: false },
        Key::Down => KeyStep { action, op: Some(ControlOp::SpeedDown), stop: false },
        _ => KeyStep { action, op: None, stop: false },
    }
}

} // verus!
