use bevy_minibuffer::flags::ActFlags;
use bevy_minibuffer::hotkey::KeyChord;
use bevy_minibuffer::universal::{
    arg_key, clear_arg_step, display_universal_arg, universal_arg_setup, ArgKey, ArgStep, Multiplier,
    UniversalArg, UniversalArgState,
};
use bevy_minibuffer::water::{Label, Water};
use bevy_minibuffer::{update_water_tooltip, Config, MinibufferPlugin};

#[test]
fn water_tooltip_counts() {
    let water = [Water::Fresh, Water::Gray, Water::Fresh];
    let mut texts = vec![
        (String::from("?"), Label::Total),
        (String::from("?"), Label::Water(Water::Fresh)),
        (String::from("?"), Label::Water(Water::Ballast)),
    ];
    update_water_tooltip(&water, &mut texts);
    assert_eq!(texts[0].0, "3 L");
    assert_eq!(texts[1].0, "2 L");
    assert_eq!(texts[2].0, "0 L");
    assert_eq!(texts[1].1, Label::Water(Water::Fresh));
}

#[test]
fn flags_insert_remove() {
    let mut f = ActFlags::default();
    assert_eq!(f.bits(), 0b10011);
    assert!(f.contains(ActFlags::record()));
    f.remove(ActFlags::record());
    assert!(!f.contains(ActFlags::record()));
    f.insert(ActFlags::record());
    assert_eq!(f, ActFlags::default());
    assert!(f.intersects(ActFlags::active().union(ActFlags::adverb())));
    assert!(!f.intersects(ActFlags::adverb()));
    assert_eq!(ActFlags::from_bits_truncate(0xff).bits(), 0b11111);
    assert_eq!(ActFlags::empty().bits(), 0);
}

#[test]
fn universal_arg_digits_and_binds() {
    let ctrl_u = KeyChord::new(1, 40);
    let mut s = UniversalArgState::new(Multiplier::default().0, Some(ctrl_u));
    match s.step("C-u", Some(KeyChord::new(0, 7)), ArgKey::Digit(1)) {
        ArgStep::Continue(m) => assert_eq!(m, "C-u 1"),
        other => panic!("unexpected {:?}", other),
    }
    match s.step("C-u", Some(KeyChord::new(0, 6)), ArgKey::Digit(0)) {
        ArgStep::Continue(m) => assert_eq!(m, "C-u 10"),
        other => panic!("unexpected {:?}", other),
    }
    match s.step("C-u", Some(KeyChord::new(0, 46)), ArgKey::Minus) {
        ArgStep::Continue(m) => assert_eq!(m, "C-u -10"),
        other => panic!("unexpected {:?}", other),
    }
    match s.step("C-u", Some(KeyChord::new(0, 20)), ArgKey::Other) {
        ArgStep::Finish { arg, requeue } => {
            assert_eq!(arg, -10);
            assert_eq!(requeue, KeyChord::new(0, 20));
        }
        other => panic!("unexpected {:?}", other),
    }
    let mut s = UniversalArgState::new(4, Some(ctrl_u));
    match s.step("C-u", Some(ctrl_u), ArgKey::Other) {
        ArgStep::Continue(m) => assert_eq!(m, "C-u 16"),
        other => panic!("unexpected {:?}", other),
    }
    match s.step("C-u", Some(ctrl_u), ArgKey::Other) {
        ArgStep::Continue(m) => assert_eq!(m, "C-u 64"),
        other => panic!("unexpected {:?}", other),
    }
    let mut fresh = UniversalArgState::new(4, Some(ctrl_u));
    match fresh.step("C-u", Some(KeyChord::new(0, 20)), ArgKey::Other) {
        ArgStep::Finish { arg, .. } => assert_eq!(arg, 4),
        other => panic!("unexpected {:?}", other),
    }
    assert!(matches!(fresh.step("C-u", None, ArgKey::Other), ArgStep::Abort));
    assert_eq!(UniversalArg::default(), UniversalArg(None));
}

#[test]
fn plugin_config_default() {
    let p = MinibufferPlugin::default();
    let c: Config = p.config;
    assert!(!c.auto_hide);
}

#[test]
fn universal_arg_display_and_clear() {
    assert_eq!(display_universal_arg(&UniversalArg(Some(-12))), "Some(-12) true");
    assert_eq!(display_universal_arg(&UniversalArg(None)), "None false");
    let mut arg = UniversalArg(Some(4));
    let pending = clear_arg_step(false, &[ActFlags::adverb()], &mut arg);
    assert!(!pending);
    assert_eq!(arg, UniversalArg(Some(4)));
    let pending = clear_arg_step(false, &[ActFlags::active()], &mut arg);
    assert!(pending);
    assert_eq!(arg, UniversalArg(Some(4)));
    let pending = clear_arg_step(pending, &[], &mut arg);
    assert!(!pending);
    assert_eq!(arg, UniversalArg(None));
}

#[test]
fn universal_arg_backspace_edits_and_modifiers_end() {
    let ctrl_u = KeyChord::new(1, 40);
    let mut s = UniversalArgState::new(4, Some(ctrl_u));
    match s.step("C-u", Some(KeyChord::new(0, 7)), ArgKey::Digit(1)) {
        ArgStep::Continue(m) => assert_eq!(m, "C-u 1"),
        other => panic!("unexpected {:?}", other),
    }
    match s.step("C-u", Some(KeyChord::new(0, 8)), ArgKey::Digit(2)) {
        ArgStep::Continue(m) => assert_eq!(m, "C-u 12"),
        other => panic!("unexpected {:?}", other),
    }
    match s.step("C-u", Some(KeyChord::new(0, 53)), ArgKey::Backspace) {
        ArgStep::Continue(m) => assert_eq!(m, "C-u 1"),
        other => panic!("unexpected {:?}", other),
    }
    match s.step("C-u", Some(KeyChord::new(1, 7)), ArgKey::Digit(1)) {
        ArgStep::Finish { arg, requeue } => {
            assert_eq!(arg, 1);
            assert_eq!(requeue, KeyChord::new(1, 7));
        }
        other => panic!("unexpected {:?}", other),
    }
}

#[test]
fn universal_arg_overflow_gives_nothing() {
    let ctrl_u = KeyChord::new(1, 40);
    let mut s = UniversalArgState::new(4, Some(ctrl_u));
    s.accum = 1_000_000_000;
    s.accumulated = true;
    let before = s;
    assert!(s.try_step("C-u", Some(ctrl_u), ArgKey::Other).is_none());
    assert_eq!(s, before);
    match s.try_step("C-u", Some(KeyChord::new(0, 6)), ArgKey::Backspace) {
        Some(ArgStep::Continue(m)) => assert_eq!(m, "C-u 100000000"),
        other => panic!("unexpected {:?}", other),
    }
}

#[test]
fn universal_arg_keys() {
    assert_eq!(arg_key(6), ArgKey::Digit(0));
    assert_eq!(arg_key(15), ArgKey::Digit(9));
    assert_eq!(arg_key(46), ArgKey::Minus);
    assert_eq!(arg_key(53), ArgKey::Backspace);
    assert_eq!(arg_key(20), ArgKey::Other);
}

#[test]
fn universal_arg_setup_without_hotkey() {
    let (prompt, s) = universal_arg_setup(None, &[], 4);
    assert_eq!(prompt, "universal_arg");
    assert_eq!(s, UniversalArgState::new(4, None));
}

#[test]
fn universal_arg_cleared_when_any_run_is_plain() {
    let mut arg = UniversalArg(Some(7));
    let pending = clear_arg_step(false, &[ActFlags::adverb(), ActFlags::active()], &mut arg);
    assert!(pending);
    let pending = clear_arg_step(pending, &[], &mut arg);
    assert!(!pending);
    assert_eq!(arg, UniversalArg(None));
}

#[test]
fn one_more_water_adds_one_to_its_kind() {
    let labels = [Label::Total, Label::Water(Water::Fresh), Label::Water(Water::Gray), Label::Water(Water::Ballast)];
    let mut before: Vec<(String, Label)> = labels.iter().map(|l| (String::new(), *l)).collect();
    let mut after: Vec<(String, Label)> = labels.iter().map(|l| (String::new(), *l)).collect();
    update_water_tooltip(&[Water::Fresh, Water::Gray], &mut before);
    update_water_tooltip(&[Water::Fresh, Water::Gray, Water::Gray], &mut after);
    assert_eq!((before[0].0.as_str(), after[0].0.as_str()), ("2 L", "3 L"));
    assert_eq!((before[2].0.as_str(), after[2].0.as_str()), ("1 L", "2 L"));
    assert_eq!(before[1].0, after[1].0);
    assert_eq!(before[3].0, after[3].0);
}

#[test]
fn universal_arg_kept_one_frame_then_cleared() {
    let mut arg = UniversalArg(Some(3));
    let pending = clear_arg_step(false, &[ActFlags::active()], &mut arg);
    assert_eq!(arg, UniversalArg(Some(3)));
    let pending = clear_arg_step(pending, &[ActFlags::adverb()], &mut arg);
    assert!(!pending);
    assert_eq!(arg, UniversalArg(None));
    let mut kept = UniversalArg(Some(5));
    assert!(!clear_arg_step(false, &[ActFlags::adverb(), ActFlags::adverb()], &mut kept));
    assert_eq!(kept, UniversalArg(Some(5)));
}
