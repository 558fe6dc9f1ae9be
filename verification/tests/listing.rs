use bevy_minibuffer::acts::{Act, ActBuilder};
use bevy_minibuffer::hotkey::KeyChord;
use bevy_minibuffer::listing::{chars_le_exec, list_acts, list_key_bindings, sort_by_name};

fn sample_acts() -> Vec<Act> {
    let mut run_act = ActBuilder::new("bevy_minibuffer::acts::basic::run_act");
    run_act.bind_aliased(vec![KeyChord::new(4, 49)], String::from(":"));
    run_act.bind(vec![KeyChord::new(2, 43)]);
    let mut describe = ActBuilder::new("bevy_minibuffer::acts::basic::describe_key");
    describe.bind(vec![KeyChord::new(1, 27), KeyChord::new(0, 30)]);
    let plain = ActBuilder::new("demo::hello");
    vec![run_act.build(1).0, describe.build(2).0, plain.build(3).0]
}

#[test]
fn list_acts_table() {
    let acts = sample_acts();
    let expected = String::new()
        + "ACT           KEY BINDING\n"
        + "describe_key  Ctrl-H K\n"
        + "hello         \n"
        + "run_act       :\n"
        + "              Alt-X\n";
    assert_eq!(list_acts(&acts), expected);
}

#[test]
fn list_key_bindings_table() {
    let acts = sample_acts();
    let expected = String::new()
        + "KEY BINDING   ACT\n"
        + "Ctrl-H K      describe_key\n"
        + ":             run_act\n"
        + "Alt-X         \n";
    assert_eq!(list_key_bindings(&acts), expected);
}

#[test]
fn sort_is_stable_by_name() {
    let names: Vec<Vec<char>> = ["b", "a", "b", "ab", ""]
        .iter()
        .map(|s| s.chars().collect())
        .collect();
    assert_eq!(sort_by_name(&names), vec![4, 1, 3, 0, 2]);
}

#[test]
fn dictionary_order() {
    let a: Vec<char> = "abc".chars().collect();
    let b: Vec<char> = "abd".chars().collect();
    let c: Vec<char> = "ab".chars().collect();
    assert!(chars_le_exec(&a, &b));
    assert!(!chars_le_exec(&b, &a));
    assert!(chars_le_exec(&c, &a));
    assert!(!chars_le_exec(&a, &c));
    assert!(chars_le_exec(&a, &a));
}
