//! The states of the minibuffer, its prompt and its completion panel, and
//! the rules that move between them.
use crate::plugin::Config;
use std::time::Duration;
use vstd::prelude::*;

verus! {

/// Is the minibuffer visible?
#[derive(Debug, Clone, Copy, PartialEq, Eq, Hash, Structural)]
pub enum MinibufferState {
    /// Inactive
    Inactive,
    /// Active
    Active,
}

impl Default for MinibufferState {
    fn default() -> (s: MinibufferState)
        ensures
            s == MinibufferState::Inactive,
    {
        MinibufferState::Inactive
    }
}

/// Is the prompt active?
#[derive(Debug, Clone, Copy, PartialEq, Eq, Hash, Structural)]
pub enum PromptState {
    /// Invisible
    Invisible,
    /// Visible
    Visible,
}

impl Default for PromptState {
    fn default() -> (s: PromptState)
        ensures
            s == PromptState::Invisible,
    {
        PromptState::Invisible
    }
}

/// Is the autocomplete panel visible?
#[derive(Debug, Clone, Copy, PartialEq, Eq, Hash, Structural)]
pub enum CompletionState {
    /// Invisible
    Invisible,
    /// Visible
    Visible,
}

impl Default for CompletionState {
    fn default() -> (s: CompletionState)
        ensures
            s == CompletionState::Invisible,
    {
        CompletionState::Invisible
    }
}

/// The minibuffer is active while a prompt has the focus or an act waits
/// for a key chord.
pub fn minibuffer_state(any_prompt_focused: bool, any_chord_request: bool) -> (s: MinibufferState)
    ensures
        s == if any_prompt_focused || any_chord_request {
            MinibufferState::Active
        } else {
            MinibufferState::Inactive
        },
{
    if any_prompt_focused || any_chord_request {
        MinibufferState::Active
    } else {
        MinibufferState::Inactive
    }
}

/// When the minibuffer becomes active, its prompt is shown.
pub fn prompt_on_transition(entered: Option<MinibufferState>) -> (p: Option<PromptState>)
    ensures
        p == if entered == Some(MinibufferState::Active) {
            Some(PromptState::Visible)
        } else {
            None::<PromptState>
        },
{
    match entered {
        Some(MinibufferState::Active) => Some(PromptState::Visible),
        _ => None,
    }
}

/// The delay after which a shown prompt hides itself, when the
/// configuration asks for that.
pub fn hide_delay(config: &Config) -> (d: Option<Duration>)
    ensures
        config.auto_hide ==> d == Some(config.hide_delay),
        !config.auto_hide ==> d is None,
{
    if config.auto_hide {
        Some(config.hide_delay)
    } else {
        None
    }
}

/// What a hide timer does on a tick.
#[derive(Debug, Clone, Copy, PartialEq, Eq, Structural)]
pub enum HideStep {
    /// The timer runs on.
    Wait,
    /// The timer is done, but the minibuffer is in use: drop the timer only.
    Drop,
    /// The timer is done: hide the prompt and the completions, and drop it.
    HideAndDrop,
}

/// A finished hide timer hides the prompt and its completions unless the
/// minibuffer is in use; either way the timer is dropped.
pub fn hide_step(finished: bool, state: MinibufferState) -> (h: HideStep)
    ensures
        h == if !finished {
            HideStep::Wait
        } else if state == MinibufferState::Inactive {
            HideStep::HideAndDrop
        } else {
            HideStep::Drop
        },
{
    if !finished {
        HideStep::Wait
    } else if state == MinibufferState::Inactive {
        HideStep::HideAndDrop
    } else {
        HideStep::Drop
    }
}

/// Remembers whether completions were shown when the prompt was hidden.
#[derive(Debug, Clone, Copy, PartialEq, Eq, Structural)]
pub struct VisibilityToggle {
    /// The completion state when the prompt was last hidden.
    pub last_completion: CompletionState,
}

impl Default for VisibilityToggle {
    fn default() -> (t: VisibilityToggle)
        ensures
            t.last_completion == CompletionState::Invisible,
    {
        VisibilityToggle { last_completion: CompletionState::Invisible }
    }
}

/// What toggling does: the remembered completion state and the next prompt
/// and completion states.
pub open spec fn toggle_spec(
    saved: CompletionState,
    prompt: PromptState,
    completion: CompletionState,
) -> (CompletionState, PromptState, CompletionState) {
    match prompt {
        PromptState::Invisible => (saved, PromptState::Visible, saved),
        PromptState::Visible => (completion, PromptState::Invisible, CompletionState::Invisible),
    }
}

impl VisibilityToggle {
    /// Toggle visibility: hide the prompt and completions, remembering
    /// whether completions were shown, or show the prompt and the
    /// completions as they were.
    pub fn toggle(&mut self, prompt: PromptState, completion: CompletionState) -> (r: (
        PromptState,
        CompletionState,
    ))
        ensures
            (final(self).last_completion, r.0, r.1) == toggle_spec(
                old(self).last_completion,
                prompt,
                completion,
            ),
    {
        match prompt {
            PromptState::Invisible => (PromptState::Visible, self.last_completion),
            PromptState::Visible => {
                self.last_completion = completion;
                (PromptState::Invisible, CompletionState::Invisible)
            },
        }
    }
}

/// Toggling a visible prompt twice shows it again with its completions as
/// they were.
pub proof fn lemma_toggle_twice(saved: CompletionState, completion: CompletionState)
    ensures
        ({
            let (s1, p1, c1) = toggle_spec(saved, PromptState::Visible, completion);
            let (s2, p2, c2) = toggle_spec(s1, p1, c1);
            &&& p1 == PromptState::Invisible
            &&& c1 == CompletionState::Invisible
            &&& p2 == PromptState::Visible
            &&& c2 == completion
            &&& s2 == completion
        }),
{
}

/// Hash of a list of completions, by the engine's fixed-seed hasher
/// (`bevy::platform::hash::FixedState::with_seed(0)` and
/// `BuildHasher::hash_one`); nothing is stated of its value.
#[verifier::external_body]
fn completions_hash(v: &Vec<String>) -> u64 {
    std::hash::BuildHasher::hash_one(&bevy::platform::hash::FixedState::with_seed(0), v)
}

/// Asks to show completions or to hide them.
#[derive(Debug)]
pub enum LookupEvent {
    /// Hide the autocomplete panel
    Hide,
    /// Show completions
    Completions(Vec<String>),
}

/// What the completion panel does for a look up event.
#[derive(Debug, Clone, Copy, PartialEq, Eq, Structural)]
pub enum CompletionUpdate {
    /// Hide the panel.
    Hide,
    /// Show the panel with the new completions.
    Show,
    /// The completions are those shown already.
    Keep,
}

/// The completions whose hash is `hash` arrive: they are shown unless their
/// hash is the last one shown (no hash counts as zero); the hash is kept.
pub fn completion_step(last_hash: &mut Option<u64>, hash: u64) -> (u: CompletionUpdate)
    ensures
        *final(last_hash) == Some(hash),
        u == if (match *old(last_hash) {
            Some(h) => h,
            None => 0,
        }) != hash {
            CompletionUpdate::Show
        } else {
            CompletionUpdate::Keep
        },
{
    let last = match *last_hash {
        Some(h) => h,
        None => 0,
    };
    *last_hash = Some(hash);
    if last != hash {
        CompletionUpdate::Show
    } else {
        CompletionUpdate::Keep
    }
}

/// Handle a look up event: hiding forgets the last completions; new
/// completions are shown unless they hash as the last ones did.
pub fn lookup_event_step(last_hash: &mut Option<u64>, e: &LookupEvent) -> (u: CompletionUpdate)
    ensures
        match *e {
            LookupEvent::Hide => u == CompletionUpdate::Hide && *final(last_hash) is None,
            LookupEvent::Completions(_) => exists|h: u64|
                *final(last_hash) == Some(h) && u == if (match *old(last_hash) {
                    Some(x) => x,
                    None => 0,
                }) != h {
                    CompletionUpdate::Show
                } else {
                    CompletionUpdate::Keep
                },
        },
{
    match e {
        LookupEvent::Hide => {
            *last_hash = None;
            CompletionUpdate::Hide
        },
        LookupEvent::Completions(v) => {
            let h = completions_hash(v);
            completion_step(last_hash, h)
        },
    }
}

} // verus!
