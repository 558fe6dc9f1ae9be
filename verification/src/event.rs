//! Events: requests to run acts, key chords handed to acts, and the events
//! that one channel dispatches.
use crate::acts::{Act, ActRef};
use crate::chars::push_str;
use crate::hotkey::{Hotkey, KeyChord};
use crate::flags::{has_bits, ActFlags, SHOW_MINIBUFFER};
use crate::plugin::Error;
use crate::prompt::LookupEvent;
use crate::tape::{find_act, find_id};
use vstd::prelude::*;

verus! {

/// Requests an act to be run
#[derive(Debug, Clone, Copy, PartialEq, Eq, Structural)]
pub struct RunActEvent {
    /// The act to run
    pub act: ActRef,
    /// Which if any of its hotkeys started it
    pub hotkey: Option<usize>,
    /// The key of the input the act runs with, if any.
    pub input: Option<u64>,
}

/// Requests an act by name to be run
#[derive(Debug)]
pub struct RunActByNameEvent {
    /// Name of the act to run
    pub name: String,
    /// The key of the input the act runs with, if any.
    pub input: Option<u64>,
}

impl RunActByNameEvent {
    /// Lookup and run act with given name.
    pub fn new(name: String) -> (e: RunActByNameEvent)
        ensures
            e.name@ == name@,
            e.input is None,
    {
        RunActByNameEvent { name, input: None }
    }

    /// Lookup and run act with given name and input.
    pub fn new_with_input(name: String, input: u64) -> (e: RunActByNameEvent)
        ensures
            e.name@ == name@,
            e.input == Some(input),
    {
        RunActByNameEvent { name, input: Some(input) }
    }
}

impl RunActEvent {
    /// Make a new run act event.
    pub fn new(act: ActRef) -> (e: RunActEvent)
        ensures
            e == (RunActEvent { act, hotkey: None, input: None }),
    {
        RunActEvent { act, hotkey: None, input: None }
    }

    /// Make a new run act event with input.
    pub fn new_with_input(act: ActRef, input: u64) -> (e: RunActEvent)
        ensures
            e == (RunActEvent { act, hotkey: None, input: Some(input) }),
    {
        RunActEvent { act, hotkey: None, input: Some(input) }
    }

    /// Make a run act event for `act`, spawned as `id`.
    pub fn from_act(act: &Act, id: u64) -> (e: RunActEvent)
        ensures
            e == (RunActEvent { act: ActRef { id, flags: act.flags }, hotkey: None, input: None }),
    {
        RunActEvent { act: ActRef::from_act(act, id), hotkey: None, input: None }
    }

    /// Set the hotkey index.
    pub fn with_hotkey(self, index: usize) -> (e: RunActEvent)
        ensures
            e == (RunActEvent { hotkey: Some(index), ..self }),
    {
        RunActEvent { hotkey: Some(index), ..self }
    }

    /// Return the hotkey associated with this run, given the act it runs (if
    /// it still exists).
    pub fn hotkey(&self, act: Option<&Act>) -> (h: Option<Hotkey>)
        requires
            act matches Some(a) && self.hotkey matches Some(i) ==> i < a.hotkeys@.len(),
        ensures
            match (act, self.hotkey) {
                (Some(a), Some(i)) => h matches Some(k) && k@ == a.hotkeys@[i as int]@,
                _ => h is None,
            },
    {
        match (act, self.hotkey) {
            (Some(a), Some(i)) => Some(a.hotkeys[i].copy()),
            _ => None,
        }
    }
}

/// This holds the last act run.
///
/// It is set prior to the command being run, so a command can look up its own
/// run event and act using this resource.
#[derive(Debug, Clone, Copy, PartialEq, Eq, Structural)]
pub struct LastRunAct(pub Option<RunActEvent>);

impl LastRunAct {
    /// Return the hotkey associated with this run, given its act.
    pub fn hotkey(&self, act: Option<&Act>) -> (h: Option<Hotkey>)
        requires
            self.0 matches Some(e) && act matches Some(a) && e.hotkey matches Some(i) ==> i < a.hotkeys@.len(),
        ensures
            match (self.0, act) {
                (Some(e), Some(a)) => match e.hotkey {
                    Some(i) => h matches Some(k) && k@ == a.hotkeys@[i as int]@,
                    None => h is None,
                },
                _ => h is None,
            },
    {
        match &self.0 {
            Some(e) => e.hotkey(act),
            None => None,
        }
    }
}

/// A key chord handed to an act that asked for one.
#[derive(Debug)]
pub enum KeyChordEvent {
    /// Not taken yet.
    Unhandled(KeyChord),
    /// The request was canceled.
    Canceled,
    /// Taken already.
    Handled,
}

/// The message of a key chord event that was taken twice.
pub open spec fn already_handled_text() -> Seq<char> {
    seq![
        'E', 'v', 'e', 'n', 't', ' ', 'a', 'l', 'r', 'e', 'a', 'd', 'y', ' ', 'h', 'a', 'n', 'd',
        'l', 'e', 'd',
    ]
}

impl KeyChordEvent {
    /// A key chord event that has not been taken.
    pub fn new(chord: KeyChord) -> (e: KeyChordEvent)
        ensures
            e == KeyChordEvent::Unhandled(chord),
    {
        KeyChordEvent::Unhandled(chord)
    }

    /// Take the chord: the first take of an unhandled event gives the chord,
    /// a canceled event gives the cancellation and a handled one says so; the
    /// event is handled afterwards.
    pub fn take(&mut self) -> (r: Result<KeyChord, Error>)
        ensures
            *final(self) == KeyChordEvent::Handled,
            match *old(self) {
                KeyChordEvent::Unhandled(c) => r == Ok::<KeyChord, Error>(c),
                KeyChordEvent::Canceled => r matches Err(Error::Canceled),
                KeyChordEvent::Handled => r matches Err(Error::Message(m)) && m@ == already_handled_text(),
            },
    {
        let mut e = KeyChordEvent::Handled;
        std::mem::swap(&mut e, self);
        match e {
            KeyChordEvent::Unhandled(chord) => Ok(chord),
            KeyChordEvent::Handled => {
                let mut m = String::new();
                push_str(&mut m, "Event already handled");
                proof {
                    reveal_strlit("Event already handled");
                    assert(m@ =~= already_handled_text());
                }
                Err(Error::Message(m))
            },
            KeyChordEvent::Canceled => Err(Error::Canceled),
        }
    }
}

/// Taking a key chord event twice gives the chord once: the second take
/// reports that the event was handled already.
pub proof fn lemma_take_once(e0: KeyChordEvent, e1: KeyChordEvent, e2: KeyChordEvent, c: KeyChord, r1: Result<KeyChord, Error>, r2: Result<KeyChord, Error>)
    requires
        e0 == KeyChordEvent::Unhandled(c),
        KeyChordEvent::take_spec(e0, e1, r1),
        KeyChordEvent::take_spec(e1, e2, r2),
    ensures
        r1 == Ok::<KeyChord, Error>(c),
        r2 matches Err(Error::Message(m)) && m@ == already_handled_text(),
        e2 == KeyChordEvent::Handled,
{
}

impl KeyChordEvent {
    /// What one take does: the event before and after, and the result.
    pub open spec fn take_spec(before: KeyChordEvent, after: KeyChordEvent, r: Result<KeyChord, Error>) -> bool {
        &&& after == KeyChordEvent::Handled
        &&& match before {
            KeyChordEvent::Unhandled(c) => r == Ok::<KeyChord, Error>(c),
            KeyChordEvent::Canceled => r matches Err(Error::Canceled),
            KeyChordEvent::Handled => r matches Err(Error::Message(m)) && m@ == already_handled_text(),
        }
    }
}

/// An act argument by name or by reference.
#[derive(Debug)]
pub enum ActArg {
    /// Reference by reference
    ActRef(ActRef),
    /// Reference by name
    Name(String),
}

/// A request to run an act, as [ActArg] names it.
#[derive(Debug)]
pub enum RunRequest {
    /// Run the referenced act.
    Act(RunActEvent),
    /// Look the act up by name and run it.
    ByName(RunActByNameEvent),
}

/// The event that requests the act named by `act`, with `input` if given.
pub fn run_act_request(act: ActArg, input: Option<u64>) -> (r: RunRequest)
    ensures
        match act {
            ActArg::ActRef(a) => r == RunRequest::Act(RunActEvent { act: a, hotkey: None, input }),
            ActArg::Name(n) => r matches RunRequest::ByName(e) && e.name@ == n@ && e.input == input,
        },
{
    match act {
        ActArg::ActRef(a) => RunRequest::Act(RunActEvent { act: a, hotkey: None, input }),
        ActArg::Name(n) => RunRequest::ByName(RunActByNameEvent { name: n, input }),
    }
}

/// The index of the first act named `name`.
pub open spec fn first_named_act(acts: Seq<Act>, name: Seq<char>) -> Option<int>
    decreases acts.len(),
{
    if acts.len() == 0 {
        None
    } else {
        match first_named_act(acts.drop_last(), name) {
            Some(i) => Some(i),
            None => if acts.last().name@ == name {
                Some(acts.len() - 1)
            } else {
                None
            },
        }
    }
}

proof fn lemma_first_named_act_prefix(acts: Seq<Act>, name: Seq<char>, n: int)
    requires
        0 <= n <= acts.len(),
        first_named_act(acts.take(n), name) is Some,
    ensures
        first_named_act(acts, name) == first_named_act(acts.take(n), name),
    decreases acts.len(),
{
    if n < acts.len() {
        assert(acts.drop_last().take(n) =~= acts.take(n));
        lemma_first_named_act_prefix(acts.drop_last(), name, n);
    } else {
        assert(acts.take(n) =~= acts);
    }
}

/// The event that runs the first act named `name`, among acts spawned as
/// `ids`; nothing if no act has that name.
pub fn run_act_by_name(acts: &[Act], ids: &[u64], name: &str, input: Option<u64>) -> (r: Option<RunActEvent>)
    requires
        ids@.len() == acts@.len(),
    ensures
        match first_named_act(acts@, name@) {
            Some(i) => r == Some(RunActEvent { act: ActRef { id: ids@[i], flags: acts@[i].flags }, hotkey: None, input }),
            None => r is None,
        },
{
    let n = crate::chars::to_chars(name);
    let mut i: usize = 0;
    while i < acts.len()
        invariant
            i <= acts@.len(),
            ids@.len() == acts@.len(),
            n@ == name@,
            first_named_act(acts@.take(i as int), name@) is None,
        decreases acts@.len() - i,
    {
        assert(acts@.take(i + 1).drop_last() =~= acts@.take(i as int));
        let an = crate::chars::to_chars(acts[i].name.as_str());
        assert(acts@.take(i + 1).last() == acts@[i as int]);
        let same = crate::chars::chars_eq(an.as_slice(), n.as_slice());
        if same {
            proof {
                let t = acts@.take(i + 1);
                assert(t.last() == acts@[i as int]);
                assert(t.drop_last() =~= acts@.take(i as int));
                assert(first_named_act(t, name@) == Some(i as int));
                lemma_first_named_act_prefix(acts@, name@, i + 1);
            }
            return Some(RunActEvent { act: ActRef { id: ids[i], flags: acts[i].flags }, hotkey: None, input });
        }
        i = i + 1;
    }
    assert(acts@.take(acts@.len() as int) =~= acts@);
    None
}


/// The event that runs the act that `act` names, with `input` if given: a
/// referenced act is run; a name runs the first act of that name among the
/// acts spawned as `ids`. Nothing is run, and nothing given, where no act has
/// the name: so the result says whether the act was found.
pub fn run_act_arg(acts: &[Act], ids: &[u64], act: ActArg, input: Option<u64>) -> (r: Option<RunActEvent>)
    requires
        ids@.len() == acts@.len(),
    ensures
        match act {
            ActArg::ActRef(a) => r == Some(RunActEvent { act: a, hotkey: None, input }),
            ActArg::Name(n) => match first_named_act(acts@, n@) {
                Some(i) => r == Some(
                    RunActEvent { act: ActRef { id: ids@[i], flags: acts@[i].flags }, hotkey: None, input },
                ),
                None => r is None,
            },
        },
{
    match act {
        ActArg::ActRef(a) => Some(RunActEvent { act: a, hotkey: None, input }),
        ActArg::Name(n) => run_act_by_name(acts, ids, n.as_str(), input),
    }
}

/// Running an act whose flags ask for it shows the minibuffer.
pub fn shows_minibuffer(e: &RunActEvent) -> (b: bool)
    ensures
        b == has_bits(e.act.flags.bits, SHOW_MINIBUFFER),
{
    e.act.flags.contains(ActFlags::show_minibuffer())
}

/// Run the act of a run event: the index of its act among the acts spawned
/// as `ids`, if it still exists, in which case the event becomes the last
/// run; else nothing changes.
pub fn run_act_event(last: &mut LastRunAct, e: &RunActEvent, ids: &[u64]) -> (r: Option<usize>)
    ensures
        match find_id(ids@, e.act.id) {
            Some(i) => r == Some(i as usize) && *final(last) == LastRunAct(Some(*e)),
            None => r is None && *final(last) == *old(last),
        },
{
    let r = find_act(ids, e.act.id);
    if r.is_some() {
        *last = LastRunAct(Some(*e));
    }
    r
}

/// An event relayed through the one channel that dispatches several kinds.
#[derive(Debug)]
pub enum DispatchEvent {
    /// Send a look up event.
    LookupEvent(LookupEvent),
    /// Send a run act event.
    RunActEvent(RunActEvent),
    /// Send a lookup and run act event.
    RunActByNameEvent(RunActByNameEvent),
    /// Emit a message.
    EmitMessage(String),
    /// Clear the buffer.
    Clear,
    /// Show the buffer.
    SetVisible(bool),
    /// This event has been "taken" already.
    Taken,
}

impl DispatchEvent {
    /// Take the event out to act on it, leaving it taken.
    pub fn take(&mut self) -> (e: DispatchEvent)
        ensures
            e == *old(self),
            *final(self) == DispatchEvent::Taken,
    {
        let mut e = DispatchEvent::Taken;
        std::mem::swap(&mut e, self);
        e
    }
}

} // verus!
