use kfs::keyboard::{decode, KeyAction, KeyboardState};

#[test]
fn shift_press_and_release_round_trip() {
    let mut ks = KeyboardState::new();
    assert_eq!(ks.shift, 0);
    assert!(!ks.caps);
    let before = ks;
    assert_eq!(decode(&mut ks, 42), KeyAction::Modifier);
    assert_eq!(ks.shift, 1);
    assert_eq!(decode(&mut ks, 170), KeyAction::Modifier);
    assert_eq!(ks, before);
    // The right-hand pair behaves the same way.
    assert_eq!(decode(&mut ks, 54), KeyAction::Modifier);
    assert_eq!(ks.shift, 1);
    assert_eq!(decode(&mut ks, 182), KeyAction::Modifier);
    assert_eq!(ks, before);
}

#[test]
fn overlapping_shifts_need_both_releases() {
    let mut ks = KeyboardState::new();
    decode(&mut ks, 42);
    decode(&mut ks, 54);
    assert_eq!(ks.shift, 2);
    decode(&mut ks, 170);
    assert_eq!(ks.shift, 1);
    assert_eq!(decode(&mut ks, 16), KeyAction::Emit(b'Q'));
    decode(&mut ks, 182);
    assert_eq!(ks.shift, 0);
    assert_eq!(decode(&mut ks, 16), KeyAction::Emit(b'q'));
}

#[test]
fn unmatched_release_wraps_the_counter() {
    // The counter is unclamped by design: a release without a press wraps
    // around, and the matching press returns it to zero.
    let mut ks = KeyboardState::new();
    decode(&mut ks, 170);
    assert_eq!(ks.shift, 255);
    decode(&mut ks, 42);
    assert_eq!(ks.shift, 0);
}

#[test]
fn caps_lock_toggles_twice_back() {
    let mut ks = KeyboardState::new();
    let before = ks;
    assert_eq!(decode(&mut ks, 58), KeyAction::Modifier);
    assert!(ks.caps);
    assert_eq!(decode(&mut ks, 16), KeyAction::Emit(b'Q'));
    assert_eq!(decode(&mut ks, 58), KeyAction::Modifier);
    assert_eq!(ks, before);
    assert_eq!(decode(&mut ks, 16), KeyAction::Emit(b'q'));
}

#[test]
fn caps_and_shift_do_not_cancel() {
    // The shifted table is active whenever a shift is held or caps is on;
    // holding shift with caps on still selects the shifted table.
    let mut ks = KeyboardState::new();
    decode(&mut ks, 58);
    decode(&mut ks, 42);
    assert_eq!(decode(&mut ks, 16), KeyAction::Emit(b'Q'));
    assert_eq!(decode(&mut ks, 2), KeyAction::Emit(b'!'));
}

#[test]
fn navigation_codes_bypass_the_tables() {
    let mut ks = KeyboardState::new();
    assert_eq!(decode(&mut ks, 72), KeyAction::ScrollUp);
    assert_eq!(decode(&mut ks, 80), KeyAction::ScrollDown);
    assert_eq!(decode(&mut ks, 75), KeyAction::CursorLeft);
    assert_eq!(decode(&mut ks, 77), KeyAction::CursorRight);
    assert_eq!(ks, KeyboardState::new());
}

#[test]
fn table_bytes_for_plain_keys() {
    let mut ks = KeyboardState::new();
    assert_eq!(decode(&mut ks, 1), KeyAction::Emit(0x1b));
    assert_eq!(decode(&mut ks, 2), KeyAction::Emit(b'1'));
    assert_eq!(decode(&mut ks, 14), KeyAction::Emit(0x08));
    assert_eq!(decode(&mut ks, 15), KeyAction::Emit(b'\t'));
    assert_eq!(decode(&mut ks, 28), KeyAction::Emit(b'\n'));
    assert_eq!(decode(&mut ks, 57), KeyAction::Emit(b' '));
    // A key with no character emits the zero byte, which the writer drops.
    assert_eq!(decode(&mut ks, 29), KeyAction::Emit(0));
}

#[test]
fn codes_outside_the_table_do_nothing() {
    let mut ks = KeyboardState::new();
    assert_eq!(decode(&mut ks, 0), KeyAction::Nothing);
    assert_eq!(decode(&mut ks, 59), KeyAction::Nothing);
    assert_eq!(decode(&mut ks, 200), KeyAction::Nothing);
    assert_eq!(ks, KeyboardState::new());
}
