use bevy_minibuffer::acts::{Act, ActBuilder};
use bevy_minibuffer::basic::{act_name_trie, describe_message, run_act_prompt, run_act_submit, RunActSubmit};
use bevy_minibuffer::cache::{DescribeKey, DescribeStep, HotkeyActCache, NameActCache};
use bevy_minibuffer::flags::ActFlags;
use bevy_minibuffer::hotkey::{Hotkey, KeyChord};
use bevy_minibuffer::plugin::Error;

fn acts() -> Vec<Act> {
    let mut run_act = ActBuilder::new("bevy_minibuffer::acts::basic::run_act");
    run_act.bind_aliased(vec![KeyChord::new(4, 49)], String::from(":"));
    run_act.sub_flags(ActFlags::run_act());
    let mut list = ActBuilder::new("bevy_minibuffer::acts::basic::list_acts");
    list.bind(vec![KeyChord::new(1, 27), KeyChord::new(0, 20)]);
    let mut more = ActBuilder::new("demo::help_more");
    more.bind(vec![KeyChord::new(1, 27)]);
    let hello = ActBuilder::new("demo::hello");
    vec![run_act.build(1).0, list.build(2).0, more.build(3).0, hello.build(4).0]
}

#[test]
fn run_act_prompt_texts() {
    let colon = Hotkey::new(vec![KeyChord::new(4, 49)]).alias(String::from(":"));
    assert_eq!(run_act_prompt(Some(&colon)), ":");
    let alt_x = Hotkey::new(vec![KeyChord::new(2, 43)]);
    assert_eq!(run_act_prompt(Some(&alt_x)), "Alt-X ");
    let emacs = Hotkey::new(vec![KeyChord::new(2, 43)]).alias(String::from("M-x "));
    assert_eq!(run_act_prompt(Some(&emacs)), "M-x  ");
    assert_eq!(run_act_prompt(None), "run_act");
}

#[test]
fn run_act_resolves_names() {
    let acts = acts();
    let trie = act_name_trie(&acts, ActFlags::run_act().union(ActFlags::active()));
    assert!(matches!(run_act_submit(&trie, Ok(String::from("hello"))), RunActSubmit::Run(3)));
    assert!(matches!(run_act_submit(&trie, Ok(String::from("list_acts"))), RunActSubmit::Run(1)));
    match run_act_submit(&trie, Ok(String::from("run_act"))) {
        RunActSubmit::Message(m) => {
            assert_eq!(m, "Error: Could not resolve act named \"run_act\": No matches")
        }
        other => panic!("unexpected {:?}", other),
    }
    match run_act_submit(&trie, Ok(String::from("h"))) {
        RunActSubmit::Message(m) => {
            assert_eq!(m, "Error: Could not resolve act named \"h\": Many matches")
        }
        other => panic!("unexpected {:?}", other),
    }
    match run_act_submit(&trie, Err(Error::Canceled)) {
        RunActSubmit::Message(m) => assert_eq!(m, "Error: canceled"),
        other => panic!("unexpected {:?}", other),
    }
}

#[test]
fn describe_key_walks_hotkeys() {
    let acts = acts();
    let mut cache = HotkeyActCache::new();
    let mut d = DescribeKey::new();
    assert!(d.press(&cache, KeyChord::new(1, 27)).is_none());
    cache.fill(&acts);
    let cached = cache.acts().unwrap();
    let mut d = DescribeKey::new();
    let step = d.press(&cache, KeyChord::new(1, 27)).unwrap();
    assert!(matches!(step, DescribeStep::BoundAndMore(2)));
    let (msg, done) = describe_message(&step, &d.accum, cached);
    assert_eq!(msg, "Ctrl-H is bound to help_more and more");
    assert!(!done);
    let step = d.press(&cache, KeyChord::new(0, 20)).unwrap();
    assert!(matches!(step, DescribeStep::Bound(1)));
    let (msg, done) = describe_message(&step, &d.accum, cached);
    assert_eq!(msg, "Ctrl-H A is bound to list_acts");
    assert!(done);
    let mut d = DescribeKey::new();
    let step = d.press(&cache, KeyChord::new(4, 49)).unwrap();
    let (msg, _) = describe_message(&step, &d.accum, cached);
    assert_eq!(msg, ": is bound to run_act");
    let mut d = DescribeKey::new();
    let step = d.press(&cache, KeyChord::new(0, 36)).unwrap();
    let (msg, done) = describe_message(&step, &d.accum, cached);
    assert_eq!(msg, "Q is unbound");
    assert!(done);
    cache.invalidate();
    assert!(cache.acts().is_none());
}

#[test]
fn describe_key_prefix_message() {
    let mut b = ActBuilder::new("demo::deep");
    b.bind(vec![KeyChord::new(1, 27), KeyChord::new(0, 20)]);
    let acts = vec![b.build(1).0];
    let mut cache = HotkeyActCache::new();
    cache.fill(&acts);
    let mut d = DescribeKey::new();
    let step = d.press(&cache, KeyChord::new(1, 27)).unwrap();
    assert!(matches!(step, DescribeStep::Prefix));
    let (msg, done) = describe_message(&step, &d.accum, cache.acts().unwrap());
    assert_eq!(msg, "Press key: Ctrl-H");
    assert!(!done);
}

#[test]
fn name_cache_keeps_tries_by_flags() {
    let acts = acts();
    let mut cache = NameActCache::new();
    let flags = ActFlags::run_act().union(ActFlags::active());
    {
        let t = cache.trie(&acts, flags);
        assert!(matches!(run_act_submit(t, Ok(String::from("hello"))), RunActSubmit::Run(3)));
    }
    // A cached trie is kept even when the acts change.
    let fewer = vec![acts[3].copy()];
    {
        let t = cache.trie(&fewer, flags);
        assert!(matches!(run_act_submit(t, Ok(String::from("hello"))), RunActSubmit::Run(3)));
    }
    cache.invalidate(Some(flags));
    {
        let t = cache.trie(&fewer, flags);
        assert!(matches!(run_act_submit(t, Ok(String::from("hello"))), RunActSubmit::Run(0)));
    }
    cache.invalidate(None);
}
