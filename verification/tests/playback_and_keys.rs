use anytimeuniverse::keys::on_key;
use anytimeuniverse::keys::preset_index;
use anytimeuniverse::keys::Action;
use anytimeuniverse::keys::ControlOp;
use anytimeuniverse::keys::Key;
use anytimeuniverse::playback::archive_history;
use anytimeuniverse::playback::speed_duration;
use anytimeuniverse::playback::speed_label;
use std::collections::VecDeque;
use std::time::Duration;

#[test]
fn speed_durations() {
    assert_eq!(speed_duration(0), Duration::from_millis(250));
    assert_eq!(speed_duration(1), Duration::from_millis(66));
    assert_eq!(speed_duration(2), Duration::from_millis(16));
    assert_eq!(speed_duration(3), Duration::from_millis(4));
    assert_eq!(speed_duration(4), Duration::ZERO);
    assert_eq!(speed_duration(255), Duration::ZERO);
}

#[test]
fn speed_labels() {
    assert_eq!(speed_label(0), "¼ T/s");
    assert_eq!(speed_label(1), "1 T/s");
    assert_eq!(speed_label(2), "10 T/s");
    assert_eq!(speed_label(3), "100 T/s");
    assert_eq!(speed_label(4), "1K T/s");
    assert_eq!(speed_label(5), "∞");
}

fn rows(n: u32) -> VecDeque<Vec<u32>> {
    (0..n).map(|i| vec![i, i * 10]).collect()
}

#[test]
fn archive_samples_every_second_row_of_45() {
    let mut h = rows(45);
    let mut old = VecDeque::new();
    archive_history(&mut h, &mut old);
    assert!(h.is_empty());
    assert_eq!(old.len(), 20);
    for (k, row) in old.iter().enumerate() {
        let i = (k * 2) as u32;
        assert_eq!(row, &vec![i, i * 10]);
    }
}

#[test]
fn archive_keeps_short_history_whole() {
    let mut h = rows(7);
    let mut old = rows(3);
    archive_history(&mut h, &mut old);
    assert!(h.is_empty());
    assert_eq!(old, rows(7));
}

#[test]
fn archive_of_empty_history_keeps_old() {
    let mut h = VecDeque::new();
    let mut old = rows(3);
    archive_history(&mut h, &mut old);
    assert_eq!(old, rows(3));
}

#[test]
fn archive_of_100_rows_uses_stride_5() {
    let mut h = rows(100);
    let mut old = VecDeque::new();
    archive_history(&mut h, &mut old);
    let firsts: Vec<u32> = old.iter().map(|r| r[0]).collect();
    let expected: Vec<u32> = (0..20).map(|k| k * 5).collect();
    assert_eq!(firsts, expected);
}

#[test]
fn archive_of_21_rows() {
    let mut h = rows(21);
    let mut old = VecDeque::new();
    archive_history(&mut h, &mut old);
    assert_eq!(old.len(), 20);
    assert_eq!(old[19][0], 19);
}

#[test]
fn quit_keys() {
    for (key, ctrl) in [(Key::Char('q'), false), (Key::Esc, false), (Key::Char('c'), true)] {
        let s = on_key(Action::Rewind, key, ctrl);
        assert_eq!(s.action, Action::Quit);
        assert!(s.stop);
        assert_eq!(s.op, None);
    }
}

#[test]
fn seed_and_rewind_keys() {
    let s = on_key(Action::Nothing, Key::Char('c'), false);
    assert_eq!(s.action, Action::NewSeed);
    assert_eq!(s.op, Some(ControlOp::Rewind));
    assert!(!s.stop);
    let s = on_key(Action::NewSeed, Key::Char('r'), false);
    assert_eq!(s.action, Action::Rewind);
    assert_eq!(s.op, Some(ControlOp::Rewind));
}

#[test]
fn control_keys_keep_action() {
    let cases = [
        (Key::Char(' '), ControlOp::TogglePause),
        (Key::Char('1'), ControlOp::Preset(1)),
        (Key::Char('5'), ControlOp::Preset(5)),
        (Key::Right, ControlOp::RewindFwd),
        (Key::Left, ControlOp::RewindBack),
        (Key::Up, ControlOp::SpeedUp),
        (Key::Down, ControlOp::SpeedDown),
    ];
    for (key, op) in cases {
        let s = on_key(Action::Rewind, key, false);
        assert_eq!(s.action, Action::Rewind);
        assert_eq!(s.op, Some(op));
        assert!(!s.stop);
    }
    let s = on_key(Action::NewSeed, Key::Char('x'), false);
    assert_eq!(s.action, Action::NewSeed);
    assert_eq!(s.op, None);
    let s = on_key(Action::Nothing, Key::Other, true);
    assert_eq!(s.op, None);
    assert!(!s.stop);
}

#[test]
fn preset_indices() {
    assert_eq!(preset_index(0), None);
    assert_eq!(preset_index(1), Some(0));
    assert_eq!(preset_index(5), Some(4));
    assert_eq!(preset_index(6), None);
    assert_eq!(preset_index(255), None);
}
