//! Tab completion: what a key pressed in a completing prompt does.
//!
//! | Key         | Action                                   |
//! | ----------- | ---------------------------------------- |
//! | `Tab`       | Show completions, extend to their prefix |
//! | `Enter`     | Submit current value                     |
//! | `Escape`    | Cancel                                   |
//! | `Backspace` | Delete previous character                |
//! | `Delete`    | Delete current character                 |
//! | `Left`      | Move cursor left                         |
//! | `Right`     | Move cursor right                        |
use crate::chars::push_str;
use crate::lookup::{Lookup, LookupError};
use crate::plugin::Error;
use vstd::prelude::*;

verus! {

/// A key pressed in a prompt, as the prompt reads it.
#[derive(Debug)]
pub enum KeyInput {
    Tab,
    /// Keys that type text.
    Character(String),
    Space,
    Backspace,
    Delete,
    ArrowLeft,
    ArrowRight,
    Enter,
    Escape,
    /// Any other key.
    Other,
}

/// How a message under the prompt reads.
#[derive(Debug, Clone, Copy, PartialEq, Eq, Structural)]
pub enum FeedbackKind {
    Info,
    Warn,
    Error,
}

/// A change to the prompt's text.
#[derive(Debug)]
pub enum TextEdit {
    /// No change.
    Keep,
    /// Insert the text at the cursor.
    Insert(String),
    /// Delete the character before the cursor.
    Backspace,
    /// Delete the character at the cursor.
    Delete,
    /// Move the cursor left.
    Left,
    /// Move the cursor right.
    Right,
    /// Replace the whole text.
    SetValue(String),
}

/// A change to the completion panel.
#[derive(Debug)]
pub enum PanelChange {
    /// No change.
    Keep,
    /// Hide the panel.
    Hide,
    /// Show these completions.
    Show(Vec<String>),
}

/// Whether the prompt goes on.
#[derive(Debug)]
pub enum PromptOutcome {
    /// The prompt goes on.
    Stay,
    /// The prompt submits this text and hands the focus on.
    Submit(String),
    /// The prompt is canceled and loses the focus.
    Cancel,
}

/// What a key does to a completing prompt.
#[derive(Debug)]
pub struct KeyResponse {
    /// The change to the text
    pub edit: TextEdit,
    /// The change to the completion panel
    pub panel: PanelChange,
    /// A message under the prompt
    pub feedback: Option<(FeedbackKind, String)>,
    /// Whether the prompt goes on
    pub outcome: PromptOutcome,
}

/// What a look up of the prompt's text found: the result, the completions
/// and their longest prefix (both only looked for where the text is not a
/// match and no message came back).
#[derive(Debug)]
pub struct LookedUp {
    /// The look up's result
    pub result: Result<(), LookupError>,
    /// The completions of the text
    pub completions: Vec<String>,
    /// The longest prefix the text extends to
    pub prefix: Option<String>,
}

/// Whether the key needs the text looked up.
pub open spec fn needs_lookup(key: KeyInput, require_match: bool) -> bool {
    key is Tab || (key is Enter && require_match)
}

/// The response that shows completions: the panel shows them and the text
/// is extended to their prefix, if there is one.
pub open spec fn shows_completions(r: KeyResponse, lu: LookedUp) -> bool {
    &&& r.panel == PanelChange::Show(lu.completions)
    &&& match lu.prefix {
        Some(p) => r.edit == TextEdit::SetValue(p),
        None => r.edit is Keep,
    }
}

/// The response to a look up that did not match, on Tab (`warn` false) or
/// on Enter where a match is required (`warn` true).
pub open spec fn lookup_response(r: KeyResponse, lu: LookedUp, warn: bool) -> bool {
    &&& r.outcome is Stay
    &&& match lu.result {
        Ok(()) => r.edit is Keep && r.panel is Keep && r.feedback is None,
        Err(LookupError::Message(m)) => {
            &&& r.edit is Keep
            &&& r.panel is Hide
            &&& r.feedback == Some((FeedbackKind::Info, m))
        },
        Err(_) => {
            &&& shows_completions(r, lu)
            &&& if warn {
                r.feedback matches Some((k, m)) && k == FeedbackKind::Warn && m@
                    == "require match"@
            } else {
                r.feedback is None
            }
        },
    }
}

/// No change at all but the text edit `e`.
pub open spec fn only_edit(r: KeyResponse) -> bool {
    &&& r.panel is Keep
    &&& r.feedback is None
    &&& r.outcome is Stay
}

/// What a key does to a completing prompt holding `text`, given what a look
/// up of the text found where the key needs one.
pub open spec fn responds(
    r: KeyResponse,
    key: KeyInput,
    text: Seq<char>,
    require_match: bool,
    looked: Option<LookedUp>,
) -> bool {
    match key {
        KeyInput::Tab => looked matches Some(lu) && lookup_response(r, lu, false),
        KeyInput::Character(s) => only_edit(r) && r.edit == TextEdit::Insert(s),
        KeyInput::Space => only_edit(r) && (r.edit matches TextEdit::Insert(s) && s@ == " "@),
        KeyInput::Backspace => only_edit(r) && r.edit is Backspace,
        KeyInput::Delete => only_edit(r) && r.edit is Delete,
        KeyInput::ArrowLeft => only_edit(r) && r.edit is Left,
        KeyInput::ArrowRight => only_edit(r) && r.edit is Right,
        KeyInput::Enter => if require_match && (looked matches Some(lu) && lu.result is Err) {
            looked matches Some(lu) && lookup_response(r, lu, true)
        } else {
            &&& r.edit is Keep
            &&& r.panel is Hide
            &&& r.feedback is None
            &&& r.outcome matches PromptOutcome::Submit(s) && s@ == text
        },
        KeyInput::Escape => {
            &&& r.edit is Keep
            &&& r.panel is Keep
            &&& r.feedback matches Some((k, m)) && k == FeedbackKind::Error && m@ == "canceled"@
            &&& r.outcome is Cancel
        },
        KeyInput::Other => only_edit(r) && r.edit is Keep,
    }
}

fn literal(s: &str) -> (t: String)
    ensures
        t@ == s@,
{
    let mut t = String::new();
    push_str(&mut t, s);
    t
}

fn copy_text(s: &str) -> (t: String)
    ensures
        t@ == s@,
{
    literal(s)
}

fn respond_to_lookup(lu: LookedUp, warn: bool) -> (r: KeyResponse)
    ensures
        lookup_response(r, lu, warn),
{
    match lu.result {
        Ok(()) => KeyResponse {
            edit: TextEdit::Keep,
            panel: PanelChange::Keep,
            feedback: None,
            outcome: PromptOutcome::Stay,
        },
        Err(LookupError::Message(m)) => KeyResponse {
            edit: TextEdit::Keep,
            panel: PanelChange::Hide,
            feedback: Some((FeedbackKind::Info, m)),
            outcome: PromptOutcome::Stay,
        },
        Err(_) => {
            let edit = match lu.prefix {
                Some(p) => TextEdit::SetValue(p),
                None => TextEdit::Keep,
            };
            let feedback = if warn {
                Some((FeedbackKind::Warn, literal("require match")))
            } else {
                None
            };
            KeyResponse {
                edit,
                panel: PanelChange::Show(lu.completions),
                feedback,
                outcome: PromptOutcome::Stay,
            }
        },
    }
}

fn edit_only(edit: TextEdit) -> (r: KeyResponse)
    ensures
        only_edit(r),
        r.edit == edit,
{
    KeyResponse { edit, panel: PanelChange::Keep, feedback: None, outcome: PromptOutcome::Stay }
}

/// Where a match is required, Enter never submits a text whose look up
/// failed: the prompt stays, and unless the look up answered with a message
/// of its own, it warns that a match is required.
pub proof fn lemma_enter_insists_on_match(r: KeyResponse, text: Seq<char>, lu: LookedUp)
    requires
        responds(r, KeyInput::Enter, text, true, Some(lu)),
        lu.result is Err,
    ensures
        r.outcome is Stay,
        !(lu.result matches Err(LookupError::Message(_))) ==> (r.feedback matches Some((k, m)) && k
            == FeedbackKind::Warn && m@ == "require match"@),
{
}

/// Enter submits the text exactly when no match is required or the text's
/// look up succeeded, and then it submits the text as it stands.
pub proof fn lemma_enter_submits(r: KeyResponse, text: Seq<char>, require_match: bool, lu: LookedUp)
    requires
        responds(r, KeyInput::Enter, text, require_match, Some(lu)),
    ensures
        (r.outcome is Submit) <==> (!require_match || lu.result is Ok),
        r.outcome matches PromptOutcome::Submit(s) ==> s@ == text,
{
}

/// What `key` does to a completing prompt holding `text`, given what a look
/// up of the text found where the key needs one.
pub fn key_response(key: KeyInput, text: &str, require_match: bool, looked: Option<LookedUp>) -> (r:
    KeyResponse)
    requires
        needs_lookup(key, require_match) ==> looked is Some,
    ensures
        responds(r, key, text@, require_match, looked),
        key is Enter && require_match && (looked matches Some(lu) && lu.result is Err) ==> r.outcome is Stay,
{
    match key {
        KeyInput::Tab => match looked {
            Some(lu) => respond_to_lookup(lu, false),
            None => edit_only(TextEdit::Keep),
        },
        KeyInput::Character(s) => edit_only(TextEdit::Insert(s)),
        KeyInput::Space => edit_only(TextEdit::Insert(literal(" "))),
        KeyInput::Backspace => edit_only(TextEdit::Backspace),
        KeyInput::Delete => edit_only(TextEdit::Delete),
        KeyInput::ArrowLeft => edit_only(TextEdit::Left),
        KeyInput::ArrowRight => edit_only(TextEdit::Right),
        KeyInput::Enter => {
            let failed = match &looked {
                Some(lu) => lu.result.is_err(),
                None => false,
            };
            if require_match && failed {
                match looked {
                    Some(lu) => respond_to_lookup(lu, true),
                    None => edit_only(TextEdit::Keep),
                }
            } else {
                KeyResponse {
                    edit: TextEdit::Keep,
                    panel: PanelChange::Hide,
                    feedback: None,
                    outcome: PromptOutcome::Submit(copy_text(text)),
                }
            }
        },
        KeyInput::Escape => KeyResponse {
            edit: TextEdit::Keep,
            panel: PanelChange::Keep,
            feedback: Some((FeedbackKind::Error, literal("canceled"))),
            outcome: PromptOutcome::Cancel,
        },
        KeyInput::Other => edit_only(TextEdit::Keep),
    }
}

/// Whether `lu` is what looking `text` up in `lookup` gives: the look up's
/// result; where the text is no match, the completions and the longest prefix
/// that `lookup` gives for it; otherwise no completions and no prefix.
pub open spec fn looked_up_by<L: Lookup>(lookup: &L, text: Seq<char>, lu: LookedUp) -> bool {
    &&& lookup.lookup_gives(text, lu.result)
    &&& match lu.result {
        Err(LookupError::NoMatch) | Err(LookupError::OneMatch(_)) | Err(LookupError::ManyMatches) => {
            &&& lookup.lookups_give(text, lu.completions@)
            &&& lookup.prefix_gives(text, lu.prefix)
        },
        _ => lu.completions@.len() == 0 && lu.prefix is None,
    }
}

/// Look up the prompt's text where the key needs it: the look up's result,
/// and, where the text is no match and no message came back, the
/// completions and their longest prefix.
pub fn look_up_text<L: Lookup>(lookup: &L, text: &str) -> (lu: LookedUp)
    requires
        lookup.completes(text@),
        lookup.extends(text@),
    ensures
        looked_up_by(lookup, text@, lu),
{
    let result = lookup.lookup(text);
    match &result {
        Err(LookupError::NoMatch) | Err(LookupError::OneMatch(_)) | Err(
            LookupError::ManyMatches,
        ) => {
            let completions = lookup.all_lookups(text);
            let prefix = lookup.longest_prefix(text);
            LookedUp { result, completions, prefix }
        },
        _ => LookedUp { result, completions: Vec::new(), prefix: None },
    }
}

/// What `key` does to a completing prompt holding `text`, looking the text
/// up in `lookup` where the key needs it.
pub fn autocomplete_key<L: Lookup>(lookup: &L, require_match: bool, key: KeyInput, text: &str) -> (r:
    KeyResponse)
    requires
        lookup.completes(text@),
        lookup.extends(text@),
    ensures
        exists|lu: LookedUp| responds(r, key, text@, require_match, Some(lu)),
        needs_lookup(key, require_match) ==> exists|lu: LookedUp|
            looked_up_by(lookup, text@, lu) && responds(r, key, text@, require_match, Some(lu)),
        !needs_lookup(key, require_match) ==> responds(r, key, text@, require_match, None),
{
    if needs_lookup_now(&key, require_match) {
        let lu = look_up_text(lookup, text);
        let ghost g = lu;
        let r = key_response(key, text, require_match, Some(lu));
        assert(responds(r, key, text@, require_match, Some(g)));
        r
    } else {
        let r = key_response(key, text, require_match, None);
        proof {
            let lu: LookedUp = vstd::pervasive::arbitrary();
            assert(responds(r, key, text@, require_match, Some(lu)));
        }
        r
    }
}

fn needs_lookup_now(key: &KeyInput, require_match: bool) -> (b: bool)
    ensures
        b == needs_lookup(*key, require_match),
{
    match key {
        KeyInput::Tab => true,
        KeyInput::Enter => require_match,
        _ => false,
    }
}

/// The outcome of a prompt that resolves its answer to a value of type `T`,
/// with the text answered where there is one.
#[derive(Debug)]
pub struct Resolved<T> {
    /// The result if not taken yet.
    pub result: Option<Result<T, Error>>,
    /// Input string mapped from if available.
    pub input: Option<String>,
}

impl<T> Resolved<T> {
    /// Create a new mapped event.
    pub fn new(result: Result<T, Error>) -> (r: Resolved<T>)
        ensures
            r.result == Some(result),
            r.input is None,
    {
        Resolved { result: Some(result), input: None }
    }

    /// Create an empty mapped event.
    pub fn empty() -> (r: Resolved<T>)
        ensures
            r.result is None,
            r.input is None,
    {
        Resolved { result: None, input: None }
    }

    /// Provide input string if available.
    pub fn with_input(self, input: String) -> (r: Resolved<T>)
        ensures
            r.result == self.result,
            r.input == Some(input),
    {
        Resolved { result: self.result, input: Some(input) }
    }

    /// The result, which may be taken once only.
    pub fn take_result(&mut self) -> (r: Result<T, Error>)
        requires
            old(self).result is Some,
        ensures
            Some(r) == old(self).result,
            final(self).result is None,
            final(self).input == old(self).input,
    {
        let mut taken = None;
        std::mem::swap(&mut taken, &mut self.result);
        match taken {
            Some(r) => r,
            None => Err(Error::Canceled),
        }
    }
}

} // verus!
