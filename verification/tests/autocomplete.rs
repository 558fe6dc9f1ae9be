use bevy_minibuffer::autocomplete::{
    autocomplete_key, key_response, look_up_text, FeedbackKind, KeyInput, LookedUp, PanelChange, PromptOutcome,
    TextEdit,
};
use bevy_minibuffer::autocomplete::Resolved;
use bevy_minibuffer::lookup::LookupError;
use bevy_minibuffer::plugin::Error;

fn names() -> Vec<String> {
    vec![String::from("John"), String::from("Sean"), String::from("Shane")]
}

#[test]
fn tab_shows_completions_and_extends() {
    let r = autocomplete_key(&names(), false, KeyInput::Tab, "S");
    match r.panel {
        PanelChange::Show(v) => assert_eq!(v, vec![String::from("Sean"), String::from("Shane")]),
        other => panic!("unexpected {:?}", other),
    }
    assert!(matches!(r.edit, TextEdit::SetValue(ref s) if s == "S"));
    assert!(r.feedback.is_none());
    let r = autocomplete_key(&names(), false, KeyInput::Tab, "Sh");
    assert!(matches!(r.edit, TextEdit::SetValue(ref s) if s == "Shane"));
    let r = autocomplete_key(&names(), false, KeyInput::Tab, "John");
    assert!(matches!(r.panel, PanelChange::Keep));
    assert!(matches!(r.edit, TextEdit::Keep));
}

#[test]
fn enter_requires_match() {
    let r = autocomplete_key(&names(), true, KeyInput::Enter, "Jo");
    assert!(matches!(r.outcome, PromptOutcome::Stay));
    assert!(matches!(r.feedback, Some((FeedbackKind::Warn, ref m)) if m == "require match"));
    assert!(matches!(r.edit, TextEdit::SetValue(ref s) if s == "John"));
    let r = autocomplete_key(&names(), true, KeyInput::Enter, "John");
    assert!(matches!(r.outcome, PromptOutcome::Submit(ref s) if s == "John"));
    assert!(matches!(r.panel, PanelChange::Hide));
    let r = autocomplete_key(&names(), false, KeyInput::Enter, "Jo");
    assert!(matches!(r.outcome, PromptOutcome::Submit(ref s) if s == "Jo"));
}

#[test]
fn editing_keys() {
    let r = autocomplete_key(&names(), false, KeyInput::Character(String::from("ab")), "");
    assert!(matches!(r.edit, TextEdit::Insert(ref s) if s == "ab"));
    let r = autocomplete_key(&names(), false, KeyInput::Space, "");
    assert!(matches!(r.edit, TextEdit::Insert(ref s) if s == " "));
    assert!(matches!(autocomplete_key(&names(), false, KeyInput::Backspace, "a").edit, TextEdit::Backspace));
    assert!(matches!(autocomplete_key(&names(), false, KeyInput::Delete, "a").edit, TextEdit::Delete));
    assert!(matches!(autocomplete_key(&names(), false, KeyInput::ArrowLeft, "a").edit, TextEdit::Left));
    assert!(matches!(autocomplete_key(&names(), false, KeyInput::ArrowRight, "a").edit, TextEdit::Right));
    assert!(matches!(autocomplete_key(&names(), false, KeyInput::Other, "a").edit, TextEdit::Keep));
    let r = autocomplete_key(&names(), false, KeyInput::Escape, "a");
    assert!(matches!(r.outcome, PromptOutcome::Cancel));
    assert!(matches!(r.feedback, Some((FeedbackKind::Error, ref m)) if m == "canceled"));
}

#[test]
fn message_from_lookup_hides_panel() {
    let lu = LookedUp {
        result: Err(LookupError::Message(String::from("bad input"))),
        completions: vec![],
        prefix: None,
    };
    let r = key_response(KeyInput::Tab, "x", false, Some(lu));
    assert!(matches!(r.panel, PanelChange::Hide));
    assert!(matches!(r.feedback, Some((FeedbackKind::Info, ref m)) if m == "bad input"));
}

#[test]
fn resolved_result_taken_once() {
    let mut r = Resolved::new(Ok::<u32, Error>(3)).with_input(String::from("three"));
    assert_eq!(r.input.as_deref(), Some("three"));
    assert_eq!(r.take_result().unwrap(), 3);
    assert!(r.result.is_none());
    let e: Resolved<u32> = Resolved::empty();
    assert!(e.result.is_none() && e.input.is_none());
}

#[test]
fn look_up_text_lists_completions_when_no_match() {
    let lu = look_up_text(&names(), "S");
    assert!(matches!(lu.result, Err(LookupError::ManyMatches)));
    assert_eq!(lu.completions, vec![String::from("Sean"), String::from("Shane")]);
    assert_eq!(lu.prefix, Some(String::from("S")));
}

#[test]
fn look_up_text_exact_match_lists_nothing() {
    let lu = look_up_text(&names(), "Sean");
    assert!(lu.result.is_ok());
    assert!(lu.completions.is_empty());
    assert_eq!(lu.prefix, None);
}
