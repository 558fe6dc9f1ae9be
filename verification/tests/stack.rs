use bevy_minibuffer::hotkey::KeyChord;
use bevy_minibuffer::prompt::PromptState;
use bevy_minibuffer::stack::{
    read_decision, Command, CommandConfig, Display, FrameInput, PromptBuf, PromptStack, ReadDecision,
    ReadLookup,
};

fn no_keys() -> FrameInput {
    FrameInput { tab: false, key1: false, escape: false, enter: false, back: false, chars: vec![] }
}

fn display() -> Display {
    Display { prompt: String::new(), input: String::new(), message: String::new() }
}

#[test]
fn nested_prompt_restores_outer() {
    let mut stack = PromptStack::new();
    let mut d = display();
    stack.push_read(&PromptBuf::new("Name? "));
    let out = stack.frame(&mut d, &no_keys());
    assert_eq!(out.visibility, Some(PromptState::Visible));
    assert_eq!(d.prompt, "Name? ");
    let typing = FrameInput { chars: vec!['B', 'o'], ..no_keys() };
    stack.frame(&mut d, &typing);
    assert_eq!(d.input, "Bo");
    let mut inner = PromptBuf::new("Age? ");
    inner.completion = Some(vec![String::from("10"), String::from("20")]);
    stack.push_read(&inner);
    let out = stack.frame(&mut d, &no_keys());
    assert_eq!(d.prompt, "Age? ");
    assert_eq!(d.input, "");
    assert_eq!(out.completions, Some(vec![String::from("10"), String::from("20")]));
    let enter = FrameInput { enter: true, ..no_keys() };
    let out = stack.frame(&mut d, &enter);
    match out.settled {
        Some(Some(b)) => assert_eq!(b.prompt, "Age? "),
        other => panic!("unexpected {:?}", other),
    }
    assert_eq!(out.visibility, None);
    stack.frame(&mut d, &no_keys());
    assert_eq!(d.prompt, "Name? ");
    assert_eq!(d.input, "Bo");
    let back = FrameInput { back: true, ..no_keys() };
    stack.frame(&mut d, &back);
    assert_eq!(d.input, "B");
    let esc = FrameInput { escape: true, ..no_keys() };
    let out = stack.frame(&mut d, &esc);
    assert!(matches!(out.settled, Some(None)));
    assert_eq!(out.visibility, Some(PromptState::Invisible));
    assert_eq!(d.message, " Quit");
    assert!(stack.prompts.is_empty());
}

#[test]
fn frame_commands_and_empty_stack() {
    let mut stack = PromptStack::new();
    let mut d = display();
    let out = stack.frame(&mut d, &FrameInput { tab: true, ..no_keys() });
    assert_eq!(out.command.as_deref(), Some("ask_name"));
    let out = stack.frame(&mut d, &FrameInput { key1: true, ..no_keys() });
    assert_eq!(out.command.as_deref(), Some("ask_age2"));
    let out = stack.frame(&mut d, &FrameInput { chars: vec!['x'], ..no_keys() });
    assert!(out.command.is_none() && out.settled.is_none());
    assert_eq!(d.input, "");
}

#[test]
fn read_decisions() {
    let answer = PromptBuf::new("Name? ");
    assert!(matches!(read_decision(answer.copy(), ReadLookup::Found), ReadDecision::Done));
    assert!(matches!(read_decision(answer.copy(), ReadLookup::Failed), ReadDecision::Fail));
    match read_decision(answer.copy(), ReadLookup::Message(String::from("no"))) {
        ReadDecision::Again(b) => assert_eq!(b.message, "no"),
        other => panic!("unexpected {:?}", other),
    }
    match read_decision(answer, ReadLookup::Incomplete(vec![String::from("Bob")])) {
        ReadDecision::Again(b) => assert_eq!(b.completion, Some(vec![String::from("Bob")])),
        other => panic!("unexpected {:?}", other),
    }
}

#[test]
fn commands_register_once_and_match_hotkeys() {
    let mut config = CommandConfig { commands: vec![] };
    assert!(config.register(Command { name: String::from("ask_name"), hotkey: None }));
    assert!(!config.register(Command { name: String::from("ask_name"), hotkey: None }));
    assert!(config.register(Command {
        name: String::from("exec_command"),
        hotkey: Some(KeyChord::new(0, 49)),
    }));
    assert_eq!(config.commands.len(), 2);
    assert_eq!(config.pressed(0, &[49, 20]), vec![1]);
    assert_eq!(config.pressed(4, &[49]), Vec::<usize>::new());
}
