use bevy_minibuffer::acts::{ActBuilder, ActRef};
use bevy_minibuffer::event::{run_act_event, shows_minibuffer, DispatchEvent};
use bevy_minibuffer::event::{run_act_arg, run_act_by_name, run_act_request, ActArg, KeyChordEvent, LastRunAct, RunActEvent, RunRequest};
use bevy_minibuffer::flags::ActFlags;
use bevy_minibuffer::hotkey::KeyChord;
use bevy_minibuffer::plugin::Error;

#[test]
fn key_chord_event_taken_once() {
    let c = KeyChord::new(0, 20);
    let mut e = KeyChordEvent::new(c);
    assert_eq!(e.take().unwrap(), c);
    match e.take() {
        Err(Error::Message(m)) => assert_eq!(m, "Event already handled"),
        other => panic!("unexpected {:?}", other),
    }
    let mut canceled = KeyChordEvent::Canceled;
    assert!(matches!(canceled.take(), Err(Error::Canceled)));
    assert_eq!(Error::Canceled.text(), "canceled");
}

#[test]
fn run_by_name_finds_first() {
    let a = ActBuilder::new("x::hello").build(1).0;
    let mut b = ActBuilder::new("y::hello");
    b.flags(ActFlags::record());
    let b = b.build(2).0;
    let c = ActBuilder::new("z::other").build(3).0;
    let acts = vec![a, b, c];
    let ids = vec![10u64, 20, 30];
    let e = run_act_by_name(&acts, &ids, "hello", Some(5)).unwrap();
    assert_eq!(e.act.id, 10);
    assert_eq!(e.input, Some(5));
    assert_eq!(run_act_by_name(&acts, &ids, "other", None).unwrap().act.id, 30);
    assert!(run_act_by_name(&acts, &ids, "missing", None).is_none());
}

#[test]
fn run_act_event_hotkey() {
    let mut b = ActBuilder::new("x::hello");
    b.bind(vec![KeyChord::new(0, 20)]);
    let act = b.build(1).0;
    let e = RunActEvent::from_act(&act, 9).with_hotkey(0);
    assert_eq!(e.hotkey(Some(&act)).unwrap().chords, vec![KeyChord::new(0, 20)]);
    assert!(e.hotkey(None).is_none());
    let last = LastRunAct(Some(e));
    assert!(last.hotkey(Some(&act)).is_some());
    assert!(LastRunAct(None).hotkey(Some(&act)).is_none());
    let r = ActRef::new(4, ActFlags::active());
    assert!(matches!(run_act_request(ActArg::ActRef(r), Some(1)), RunRequest::Act(ev) if ev.act == r && ev.input == Some(1)));
    assert!(matches!(run_act_request(ActArg::Name(String::from("n")), None), RunRequest::ByName(ev) if ev.name == "n"));
}

#[test]
fn dispatch_and_run_events() {
    let mut e = DispatchEvent::EmitMessage(String::from("hi"));
    match e.take() {
        DispatchEvent::EmitMessage(m) => assert_eq!(m, "hi"),
        other => panic!("unexpected {:?}", other),
    }
    assert!(matches!(e, DispatchEvent::Taken));
    let ev = RunActEvent::new(ActRef::new(20, ActFlags::show_minibuffer()));
    assert!(shows_minibuffer(&ev));
    assert!(!shows_minibuffer(&RunActEvent::new(ActRef::new(20, ActFlags::active()))));
    let mut last = LastRunAct(None);
    assert_eq!(run_act_event(&mut last, &ev, &[10, 20]), Some(1));
    assert_eq!(last, LastRunAct(Some(ev)));
    let missing = RunActEvent::new(ActRef::new(99, ActFlags::active()));
    assert_eq!(run_act_event(&mut last, &missing, &[10, 20]), None);
    assert_eq!(last, LastRunAct(Some(ev)));
}

#[test]
fn run_act_arg_says_whether_found() {
    let a = ActBuilder::new("x::hello").build(1).0;
    let acts = vec![a];
    let ids = vec![10u64];
    let e = run_act_arg(&acts, &ids, ActArg::Name(String::from("hello")), None).unwrap();
    assert_eq!(e.act.id, 10);
    assert!(run_act_arg(&acts, &ids, ActArg::Name(String::from("nope")), None).is_none());
    let r = ActRef::new(7, ActFlags::active());
    assert_eq!(run_act_arg(&acts, &ids, ActArg::ActRef(r), Some(3)).unwrap().act.id, 7);
}
