use bevy_minibuffer::plugin::Config;
use bevy_minibuffer::prompt::{
    completion_step, hide_delay, hide_step, lookup_event_step, minibuffer_state,
    prompt_on_transition, CompletionState, CompletionUpdate, HideStep, LookupEvent,
    MinibufferState, PromptState, VisibilityToggle,
};
use std::time::Duration;

#[test]
fn toggle_twice_restores_completions() {
    let mut t = VisibilityToggle::default();
    let (p, c) = t.toggle(PromptState::Visible, CompletionState::Visible);
    assert_eq!((p, c), (PromptState::Invisible, CompletionState::Invisible));
    let (p, c) = t.toggle(p, c);
    assert_eq!((p, c), (PromptState::Visible, CompletionState::Visible));
    let mut fresh = VisibilityToggle::default();
    assert_eq!(
        fresh.toggle(PromptState::Invisible, CompletionState::Visible),
        (PromptState::Visible, CompletionState::Invisible)
    );
}

#[test]
fn states_and_hiding() {
    assert_eq!(minibuffer_state(false, false), MinibufferState::Inactive);
    assert_eq!(minibuffer_state(false, true), MinibufferState::Active);
    assert_eq!(prompt_on_transition(Some(MinibufferState::Active)), Some(PromptState::Visible));
    assert_eq!(prompt_on_transition(Some(MinibufferState::Inactive)), None);
    assert_eq!(prompt_on_transition(None), None);
    assert_eq!(hide_step(false, MinibufferState::Inactive), HideStep::Wait);
    assert_eq!(hide_step(true, MinibufferState::Inactive), HideStep::HideAndDrop);
    assert_eq!(hide_step(true, MinibufferState::Active), HideStep::Drop);
    let config = Config { auto_hide: true, hide_delay: Duration::from_millis(2000) };
    assert_eq!(hide_delay(&config), Some(Duration::from_millis(2000)));
    let off = Config { auto_hide: false, hide_delay: Duration::from_millis(2000) };
    assert_eq!(hide_delay(&off), None);
    assert_eq!(MinibufferState::default(), MinibufferState::Inactive);
    assert_eq!(PromptState::default(), PromptState::Invisible);
}

#[test]
fn completions_shown_once_per_change() {
    let mut last = None;
    assert_eq!(completion_step(&mut last, 7), CompletionUpdate::Show);
    assert_eq!(completion_step(&mut last, 7), CompletionUpdate::Keep);
    assert_eq!(completion_step(&mut last, 8), CompletionUpdate::Show);
    let mut none = None;
    assert_eq!(completion_step(&mut none, 0), CompletionUpdate::Keep);
    let mut last = None;
    let e = LookupEvent::Completions(vec![String::from("a"), String::from("b")]);
    let first = lookup_event_step(&mut last, &e);
    assert!(last.is_some());
    let second = lookup_event_step(&mut last, &e);
    assert_eq!(second, CompletionUpdate::Keep);
    assert!(first == CompletionUpdate::Show || first == CompletionUpdate::Keep);
    assert_eq!(lookup_event_step(&mut last, &LookupEvent::Hide), CompletionUpdate::Hide);
    assert_eq!(last, None);
}
