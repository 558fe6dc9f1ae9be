use bevy_minibuffer::acts::{name_for_system, ActBuilder, ActRef, Acts};
use bevy_minibuffer::defaults::{unused_acts_warning, BasicActs, TapeActs, UniversalArgActs};
use bevy_minibuffer::flags::ActFlags;
use bevy_minibuffer::hotkey::{Hotkey, KeyChord};

const ACT1: &str = "bevy_minibuffer::acts::collection::tests::act1";

#[test]
fn collection_check_acts() {
    let acts = Acts::default();
    assert_eq!(acts.len(), 0);
}

#[test]
fn collection_check_drain_read() {
    let mut acts = Acts::default();
    acts.push(ActBuilder::new(ACT1));
    assert_eq!(acts.len(), 1);
}

#[test]
fn collection_check_duplicate_names() {
    let mut acts = Acts::default();
    acts.push(ActBuilder::new(ACT1));
    assert!(acts.push(ActBuilder::new(ACT1)).is_some());
    assert_eq!(acts.len(), 1);
}

#[test]
fn acts_check_acts() {
    let acts = Acts::default();
    assert_eq!(acts.len(), 0);
}

#[test]
fn acts_check_drain_read() {
    let mut acts = Acts::default();
    acts.push(ActBuilder::new(ACT1));
    assert_eq!(acts.len(), 1);
}

#[test]
fn acts_check_duplicate_names() {
    let mut acts = Acts::default();
    acts.push(ActBuilder::new(ACT1));
    assert!(acts.push(ActBuilder::new(ACT1)).is_some());
    assert_eq!(acts.len(), 1);
}

#[test]
fn universal_check_acts() {
    let plugin = UniversalArgActs::default();
    assert_eq!(plugin.acts.len(), 1);
}

#[test]
fn universal_check_drain_read() {
    let mut plugin = UniversalArgActs::default();
    let _ = plugin.acts.drain();
    assert_eq!(plugin.acts.len(), 0);
}

#[test]
fn builder_name_from_system() {
    let b = ActBuilder::new(ACT1);
    assert_eq!(b.name(), "act1");
    assert_eq!(
        name_for_system("Pipe(cube_async::speed, bevy_minibuffer::sink::future_result<(), bevy_minibuffer::plugin::Error, cube_async::speed::{{closure}}>)", true),
        "speed"
    );
    assert_eq!(
        name_for_system("Pipe(cube_async::speed, bevy_minibuffer::sink::future)", false),
        "cube_async::speed"
    );
    assert_eq!(name_for_system("plain", true), "plain");
}

#[test]
fn builder_flags_and_build() {
    let mut b = ActBuilder::new(ACT1);
    b.add_flags(ActFlags::show_minibuffer());
    b.sub_flags(ActFlags::run_act());
    b.bind(vec![KeyChord::new(1, 40)]);
    let (act, id) = b.build(7);
    assert_eq!(id, 7);
    assert_eq!(act.system_id, 7);
    assert_eq!(act.flags.bits(), 0b11001);
    assert_eq!(act.hotkeys.len(), 1);
    assert!(act.find_hotkey(&[KeyChord::new(1, 40)]).is_some());
    assert!(act.find_hotkey(&[KeyChord::new(0, 40)]).is_none());
    let r = ActRef::from_act(&act, 3);
    assert_eq!(r.id, 3);
    assert_eq!(r.flags, act.flags);
}

#[test]
fn take_from_leaves_taken_builder() {
    let mut b = ActBuilder::new(ACT1);
    let taken = ActBuilder::take_from(&mut b);
    assert_eq!(taken.name(), "act1");
    assert_eq!(b.name(), "*TAKEN*");
}

#[test]
fn acts_get_and_remove() {
    let mut acts = Acts::new(vec![ActBuilder::new("a::one"), ActBuilder::new("b::two")]);
    assert_eq!(acts.len(), 2);
    assert!(acts.get("one").is_some());
    assert!(acts.remove("one").is_some());
    assert!(acts.get("one").is_none());
    assert!(acts.remove("one").is_none());
    assert!(!acts.is_empty());
    let taken = acts.take();
    assert_eq!(taken.len(), 1);
    assert!(acts.is_empty());
}

fn act_named<'a>(acts: &'a Acts, name: &str) -> &'a ActBuilder {
    acts.get(name).unwrap()
}

#[test]
fn basic_acts_bindings() {
    let basic = BasicActs::default();
    assert_eq!(basic.acts.len(), 5);
    let run_act = act_named(&basic.acts, "run_act");
    assert_eq!(run_act.hotkeys.len(), 2);
    assert_eq!(run_act.hotkeys[0].alias.as_deref(), Some(":"));
    assert_eq!(run_act.hotkeys[0].chords, vec![KeyChord::new(4, 49)]);
    assert_eq!(run_act.hotkeys[1].chords, vec![KeyChord::new(2, 43)]);
    assert!(run_act.flags.contains(ActFlags::adverb()));
    assert!(!run_act.flags.contains(ActFlags::run_act()));
    let list = act_named(&basic.acts, "list_acts");
    assert_eq!(list.hotkeys[0].chords, vec![KeyChord::new(1, 27), KeyChord::new(0, 20)]);
    assert!(list.flags.contains(ActFlags::show_minibuffer()));
    assert!(act_named(&basic.acts, "describe_key").hotkeys[0].chords == vec![KeyChord::new(1, 27), KeyChord::new(0, 30)]);
    assert!(act_named(&basic.acts, "toggle_visibility").hotkeys[0].chords == vec![KeyChord::new(0, 1)]);
    assert!(act_named(&basic.acts, "list_key_bindings").hotkeys[0].chords == vec![KeyChord::new(1, 27), KeyChord::new(0, 21)]);
}

#[test]
fn basic_acts_emacs() {
    let basic = BasicActs::emacs();
    let run_act = act_named(&basic.acts, "run_act");
    assert_eq!(run_act.hotkeys.len(), 1);
    assert_eq!(run_act.hotkeys[0].alias.as_deref(), Some("M-x "));
}

#[test]
fn basic_acts_take_then_remove() {
    let mut basic = BasicActs::default();
    let mut acts = basic.take_acts();
    assert_eq!(basic.acts.len(), 0);
    let list_acts = acts.remove("list_acts").unwrap();
    assert_eq!(list_acts.name(), "list_acts");
    assert_eq!(acts.len(), 4);
}

#[test]
fn tape_acts_default() {
    let tape = TapeActs::default();
    assert_eq!(tape.acts.len(), 4);
    let play = act_named(&tape.acts, "play_tape");
    assert_eq!(play.hotkeys[0].alias.as_deref(), Some("@"));
    assert!(play.input.is_some());
    assert!(!play.flags.contains(ActFlags::record()));
    assert!(act_named(&tape.acts, "copy_tape").flags.contains(ActFlags::record()));
}

#[test]
fn universal_display_act() {
    let u = UniversalArgActs::default().include_display_act();
    assert_eq!(u.acts.len(), 2);
    let d = act_named(&u.acts, "display_universal_arg");
    assert!(d.flags.contains(ActFlags::show_minibuffer()));
    let ua = act_named(&u.acts, "universal_arg");
    assert!(!ua.flags.contains(ActFlags::record()));
    assert_eq!(ua.hotkeys[0].chords, vec![KeyChord::new(1, 40)]);
}

#[test]
fn unused_acts_warning_text() {
    let acts = Acts::default();
    assert_eq!(unused_acts_warning("BasicActs", &acts), None);
    let one = Acts::new(vec![ActBuilder::new("x::a")]);
    assert_eq!(
        unused_acts_warning("BasicActs", &one).unwrap(),
        "BasicActs has 1 act that was not added; consider using add_acts() instead of add_plugins() for it."
    );
    let basic = BasicActs::default();
    assert_eq!(
        unused_acts_warning("BasicActs", &basic.acts).unwrap(),
        "BasicActs has 5 acts that were not added; consider using add_acts() instead of add_plugins() for it."
    );
}

#[test]
fn hotkey_text_and_alias() {
    let h = Hotkey::new(vec![KeyChord::new(1, 27), KeyChord::new(0, 20)]);
    assert_eq!(h.text(&[String::from("Ctrl-H"), String::from("A")]), "Ctrl-H A");
    assert_eq!(h.display(), "Ctrl-H A");
    let a = Hotkey::new(vec![KeyChord::new(4, 49)]).alias(String::from(":"));
    assert_eq!(a.display(), ":");
    assert_eq!(Hotkey::new(vec![KeyChord::new(5, 8)]).display(), "Ctrl-Shift-2");
    assert_eq!(Hotkey::new(vec![KeyChord::new(0, 47)]).display(), ".");
    assert!(h.eq_chords(&[KeyChord::new(1, 27), KeyChord::new(0, 20)]));
}
