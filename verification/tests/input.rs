use bevy_minibuffer::hotkey::KeyChord;
use bevy_minibuffer::keys::{
    held_modifiers, is_modifier, key_modifiers, pressed_chords, ChordQueue, ALT, CONTROL, CONTROL_LEFT,
    KEY_A, KEY_B, SHIFT, SHIFT_RIGHT, SUPER_LEFT,
};

#[test]
fn modifier_keys() {
    assert_eq!(key_modifiers(SHIFT_RIGHT), SHIFT);
    assert_eq!(key_modifiers(CONTROL_LEFT), CONTROL);
    assert_eq!(key_modifiers(KEY_A), 0);
    assert!(is_modifier(SUPER_LEFT));
    assert!(!is_modifier(KEY_B));
    assert_eq!(held_modifiers(&[CONTROL_LEFT, KEY_A, SHIFT_RIGHT]), CONTROL | SHIFT);
    assert_eq!(held_modifiers(&[KEY_A]), 0);
    assert_eq!(held_modifiers(&[52]), ALT);
}

#[test]
fn chords_skip_modifier_keys() {
    let v = pressed_chords(CONTROL, &[CONTROL_LEFT, KEY_A, KEY_B]);
    assert_eq!(v, vec![KeyChord::new(CONTROL, KEY_A), KeyChord::new(CONTROL, KEY_B)]);
}

#[test]
fn chord_queue_is_first_in_first_out() {
    let a = KeyChord::new(0, KEY_A);
    let b = KeyChord::new(0, KEY_B);
    let c = KeyChord::new(CONTROL, KEY_A);
    let mut q = ChordQueue::default();
    assert_eq!(q.next_chord(vec![a, b]), Some(a));
    assert_eq!(q.next_chord(vec![c]), Some(b));
    assert_eq!(q.next_chord(vec![]), Some(c));
    assert_eq!(q.next_chord(vec![]), None);
    assert!(q.pending.is_empty());
}
