//! A stack of prompts read one at a time through one text line: the prompt
//! on top is shown and edited; when it is answered or quit, the prompt below
//! it is shown again as it was left.
use crate::chars::{push_chars, push_str};
use crate::hotkey::{copy_string, KeyChord};
use crate::lookup::strings_view;
use crate::prompt::PromptState;
use vstd::prelude::*;

verus! {

/// What a prompt shows: its question, the input typed and a message, and
/// completions to offer.
#[derive(Debug)]
pub struct PromptBuf {
    pub prompt: String,
    pub input: String,
    pub message: String,
    pub completion: Option<Vec<String>>,
}

/// A prompt buffer as a mathematical value.
pub struct BufView {
    pub prompt: Seq<char>,
    pub input: Seq<char>,
    pub message: Seq<char>,
    pub completion: Option<Seq<Seq<char>>>,
}

impl View for PromptBuf {
    type V = BufView;

    open spec fn view(&self) -> BufView {
        BufView {
            prompt: self.prompt@,
            input: self.input@,
            message: self.message@,
            completion: match self.completion {
                Some(v) => Some(strings_view(v@)),
                None => None,
            },
        }
    }
}

fn copy_strings(v: &Vec<String>) -> (r: Vec<String>)
    ensures
        strings_view(r@) == strings_view(v@),
{
    let mut r: Vec<String> = Vec::new();
    let mut i: usize = 0;
    while i < v.len()
        invariant
            i <= v@.len(),
            strings_view(r@) == strings_view(v@).take(i as int),
        decreases v@.len() - i,
    {
        let c = copy_string(&v[i]);
        let ghost prev = r@;
        r.push(c);
        assert(strings_view(r@) =~= strings_view(prev).push(c@));
        assert(strings_view(v@).take(i + 1) =~= strings_view(v@).take(i as int).push(v@[i as int]@));
        i = i + 1;
    }
    assert(strings_view(v@).take(v@.len() as int) =~= strings_view(v@));
    r
}

impl PromptBuf {
    /// A buffer asking `prompt`, with no input, message or completions.
    pub fn new(prompt: &str) -> (b: PromptBuf)
        ensures
            b@ == (BufView {
                prompt: prompt@,
                input: Seq::empty(),
                message: Seq::empty(),
                completion: None,
            }),
    {
        let mut p = String::new();
        push_str(&mut p, prompt);
        let b = PromptBuf { prompt: p, input: String::new(), message: String::new(), completion: None };
        assert(b@.input =~= Seq::<char>::empty());
        assert(b@.message =~= Seq::<char>::empty());
        b
    }

    /// A copy of the buffer.
    pub fn copy(&self) -> (b: PromptBuf)
        ensures
            b@ == self@,
    {
        PromptBuf {
            prompt: copy_string(&self.prompt),
            input: copy_string(&self.input),
            message: copy_string(&self.message),
            completion: match &self.completion {
                Some(v) => Some(copy_strings(v)),
                None => None,
            },
        }
    }
}

/// The text line prompts are shown in: question, input and message.
#[derive(Debug)]
pub struct Display {
    pub prompt: String,
    pub input: String,
    pub message: String,
}

/// A display as a mathematical value.
pub struct DisplayView {
    pub prompt: Seq<char>,
    pub input: Seq<char>,
    pub message: Seq<char>,
}

impl View for Display {
    type V = DisplayView;

    open spec fn view(&self) -> DisplayView {
        DisplayView { prompt: self.prompt@, input: self.input@, message: self.message@ }
    }
}

/// What reading the display gives: its three texts, no completions.
pub open spec fn read_display(d: DisplayView) -> BufView {
    BufView { prompt: d.prompt, input: d.input, message: d.message, completion: None }
}

/// What writing a buffer shows.
pub open spec fn written(b: BufView) -> DisplayView {
    DisplayView { prompt: b.prompt, input: b.input, message: b.message }
}

impl Display {
    /// Read the display into a buffer.
    pub fn read(&self) -> (b: PromptBuf)
        ensures
            b@ == read_display(self@),
    {
        PromptBuf {
            prompt: copy_string(&self.prompt),
            input: copy_string(&self.input),
            message: copy_string(&self.message),
            completion: None,
        }
    }

    /// Show a buffer's texts.
    pub fn write(&mut self, b: &PromptBuf)
        ensures
            final(self)@ == written(b@),
    {
        self.prompt = copy_string(&b.prompt);
        self.input = copy_string(&b.input);
        self.message = copy_string(&b.message);
    }
}

/// A prompt waiting for its answer.
#[derive(Debug)]
pub struct ReadPrompt {
    /// What it shows first.
    pub prompt: PromptBuf,
    /// Whether it is shown.
    pub active: bool,
    /// What it showed when a prompt was put over it.
    pub prior: Option<PromptBuf>,
}

/// A waiting prompt as a mathematical value.
pub struct ReadView {
    pub prompt: BufView,
    pub active: bool,
    pub prior: Option<BufView>,
}

impl View for ReadPrompt {
    type V = ReadView;

    open spec fn view(&self) -> ReadView {
        ReadView {
            prompt: self.prompt@,
            active: self.active,
            prior: match self.prior {
                Some(p) => Some(p@),
                None => None,
            },
        }
    }
}

/// The prompts waiting, the last on top.
#[derive(Debug)]
pub struct PromptStack {
    pub prompts: Vec<ReadPrompt>,
}

/// The views of the prompts.
pub open spec fn reads_view(v: Seq<ReadPrompt>) -> Seq<ReadView> {
    Seq::new(v.len(), |i: int| v[i]@)
}

impl View for PromptStack {
    type V = Seq<ReadView>;

    open spec fn view(&self) -> Seq<ReadView> {
        reads_view(self.prompts@)
    }
}

/// The keys pressed and the characters typed in one frame.
#[derive(Debug)]
pub struct FrameInput {
    pub tab: bool,
    pub key1: bool,
    pub escape: bool,
    pub enter: bool,
    pub back: bool,
    pub chars: Vec<char>,
}

/// What a frame does besides changing the stack and the display.
#[derive(Debug)]
pub struct FrameOutcome {
    /// A command to run.
    pub command: Option<String>,
    /// The top prompt was answered with this buffer, or quit.
    pub settled: Option<Option<PromptBuf>>,
    /// Completions to offer.
    pub completions: Option<Vec<String>>,
    /// The prompt's next visibility.
    pub visibility: Option<PromptState>,
}

/// The stack once its top prompt is set up to be shown: the prompt below
/// keeps what the display showed (unless it kept something already), every
/// other prompt is inactive, and the top one is active and takes back what it
/// kept.
pub open spec fn activated(s: Seq<ReadView>, d: DisplayView) -> Seq<ReadView> {
    let n = s.len();
    Seq::new(
        n,
        |i: int|
            if i == n - 1 {
                ReadView { prior: None, active: true, ..s[i] }
            } else if i == n - 2 && s[i].prior is None {
                ReadView { prior: Some(read_display(d)), active: false, ..s[i] }
            } else {
                ReadView { active: false, ..s[i] }
            },
    )
}

/// What the top prompt shows when it is set up: what it kept, or its own
/// buffer.
pub open spec fn shown_buf(top: ReadView) -> BufView {
    match top.prior {
        Some(p) => p,
        None => top.prompt,
    }
}

/// The display after a frame's editing keys: backspace drops the last
/// character typed; else the characters typed are added. Either clears the
/// message.
pub open spec fn edited(d: DisplayView, back: bool, chars: Seq<char>) -> DisplayView {
    if back {
        DisplayView { input: if d.input.len() > 0 { d.input.drop_last() } else { d.input }, message: Seq::empty(), ..d }
    } else if chars.len() > 0 {
        DisplayView { input: d.input + chars, message: Seq::empty(), ..d }
    } else {
        d
    }
}

/// No completions offered and no visibility change.
pub open spec fn quiet(o: FrameOutcome) -> bool {
    o.completions is None && o.visibility is None
}

fn empty_string() -> (s: String)
    ensures
        s@ == Seq::<char>::empty(),
{
    String::new()
}

fn deactivate_below(v: &mut Vec<ReadPrompt>, d: &Display)
    requires
        old(v)@.len() > 0,
    ensures
        reads_view(final(v)@) == {
            let s = reads_view(old(v)@);
            let n = s.len();
            Seq::new(
                n,
                |i: int|
                    if i == n - 1 {
                        s[i]
                    } else if i == n - 2 && s[i].prior is None {
                        ReadView { prior: Some(read_display(d@)), active: false, ..s[i] }
                    } else {
                        ReadView { active: false, ..s[i] }
                    },
            )
        },
{
    let n = v.len();
    let ghost s = reads_view(v@);
    let mut rest: Vec<ReadPrompt> = Vec::new();
    let mut old_v: Vec<ReadPrompt> = Vec::new();
    std::mem::swap(&mut old_v, v);
    let ghost target = Seq::new(
        n as nat,
        |j: int|
            if j == n - 1 {
                s[j]
            } else if j == n - 2 && s[j].prior is None {
                ReadView { prior: Some(read_display(d@)), active: false, ..s[j] }
            } else {
                ReadView { active: false, ..s[j] }
            },
    );
    // Take the prompts out in reverse, change them, and put them back.
    while old_v.len() > 0
        invariant
            old_v@.len() + rest@.len() == n,
            n == s.len(),
            n > 0,
            forall|j: int| 0 <= j < old_v@.len() ==> (#[trigger] old_v@[j])@ == s[j],
            forall|j: int| 0 <= j < rest@.len() ==> (#[trigger] rest@[j])@ == target[n - 1 - j],
            target == Seq::new(
                n as nat,
                |j: int|
                    if j == n - 1 {
                        s[j]
                    } else if j == n - 2 && s[j].prior is None {
                        ReadView { prior: Some(read_display(d@)), active: false, ..s[j] }
                    } else {
                        ReadView { active: false, ..s[j] }
                    },
            ),
        decreases old_v@.len(),
    {
        let k = old_v.len() - 1;
        let mut p = old_v.pop().unwrap();
        if k + 1 < n {
            if k + 2 == n && p.prior.is_none() {
                p.prior = Some(d.read());
            }
            p.active = false;
        }
        rest.push(p);
    }
    while rest.len() > 0
        invariant
            v@.len() + rest@.len() == n,
            n == s.len(),
            forall|j: int| 0 <= j < v@.len() ==> (#[trigger] v@[j])@ == target[j],
            forall|j: int| 0 <= j < rest@.len() ==> (#[trigger] rest@[j])@ == target[n - 1 - j],
        decreases rest@.len(),
    {
        let p = rest.pop().unwrap();
        v.push(p);
    }
    assert(reads_view(v@) =~= target);
}

impl PromptStack {
    /// No prompts waiting.
    pub fn new() -> (s: PromptStack)
        ensures
            s@ == Seq::<ReadView>::empty(),
    {
        let s = PromptStack { prompts: Vec::new() };
        assert(s@ =~= Seq::<ReadView>::empty());
        s
    }

    /// A prompt asks to be read: it waits on top, not yet shown.
    pub fn push_read(&mut self, buf: &PromptBuf)
        ensures
            final(self)@ == old(self)@.push(ReadView { prompt: buf@, active: false, prior: None }),
    {
        self.prompts.push(ReadPrompt { prompt: buf.copy(), active: false, prior: None });
        assert(self@ =~= old(self)@.push(ReadView { prompt: buf@, active: false, prior: None }));
    }

    /// One frame of input: Tab and `1` run commands; Escape quits and Enter
    /// answers the top prompt; otherwise the top prompt is set up if it is
    /// not shown yet, and backspace or the characters typed edit its input.
    pub fn frame(&mut self, display: &mut Display, input: &FrameInput) -> (out: FrameOutcome)
        ensures
            input.tab ==> (out.command matches Some(c) && c@ == "ask_name"@),
            !input.tab && input.key1 ==> (out.command matches Some(c) && c@ == "ask_age2"@),
            input.tab || input.key1 || old(self)@.len() == 0 ==> {
                &&& final(self)@ == old(self)@
                &&& final(display)@ == old(display)@
                &&& out.settled is None
                &&& quiet(out)
            },
            !input.tab && !input.key1 && old(self)@.len() > 0 ==> {
                let s = old(self)@;
                let d = old(display)@;
                let n = s.len();
                &&& out.command is None
                &&& if input.escape {
                    &&& final(display)@ == DisplayView { message: " Quit"@, ..d }
                    &&& final(self)@ == s.drop_last()
                    &&& out.settled matches Some(None)
                    &&& out.completions is None
                    &&& out.visibility == if n == 1 { Some(PromptState::Invisible) } else { None }
                } else if input.enter {
                    &&& final(display)@ == d
                    &&& final(self)@ == s.drop_last()
                    &&& (out.settled matches Some(Some(b)) && b@ == read_display(d))
                    &&& out.completions is None
                    &&& out.visibility == if n == 1 { Some(PromptState::Invisible) } else { None }
                } else if s[n - 1].active {
                    &&& final(self)@ == s
                    &&& final(display)@ == edited(d, input.back, input.chars@)
                    &&& out.settled is None
                    &&& quiet(out)
                } else {
                    let b = shown_buf(s[n - 1]);
                    &&& final(self)@ == activated(s, d)
                    &&& final(display)@ == edited(written(b), input.back, input.chars@)
                    &&& out.settled is None
                    &&& match b.completion {
                        Some(c) => out.completions matches Some(v) && strings_view(v@) == c,
                        None => out.completions is None,
                    }
                    &&& out.visibility == Some(PromptState::Visible)
                }
            },
    {
        let mut out = FrameOutcome { command: None, settled: None, completions: None, visibility: None };
        if input.tab {
            let mut c = String::new();
            push_str(&mut c, "ask_name");
            out.command = Some(c);
            return out;
        }
        if input.key1 {
            let mut c = String::new();
            push_str(&mut c, "ask_age2");
            out.command = Some(c);
            return out;
        }
        let n = self.prompts.len();
        if n == 0 {
            return out;
        }
        if input.escape {
            let mut m = String::new();
            push_str(&mut m, " Quit");
            display.message = m;
            let _ = self.prompts.pop();
            assert(self@ =~= old(self)@.drop_last());
            out.settled = Some(None);
            if n == 1 {
                out.visibility = Some(PromptState::Invisible);
            }
            return out;
        }
        if input.enter {
            let b = display.read();
            let _ = self.prompts.pop();
            assert(self@ =~= old(self)@.drop_last());
            out.settled = Some(Some(b));
            if n == 1 {
                out.visibility = Some(PromptState::Invisible);
            }
            return out;
        }
        if !self.prompts[n - 1].active {
            let ghost s0 = old(self)@;
            deactivate_below(&mut self.prompts, display);
            let ghost mid = self@;
            assert(self.prompts@.len() == mid.len());
            assert(mid.len() == n);
            let mut top = self.prompts.pop().unwrap();
            assert(top@ == mid[n - 1]);
            assert(self@ =~= mid.drop_last());
            let buf = match top.prior {
                Some(p) => p,
                None => top.prompt.copy(),
            };
            top.prior = None;
            top.active = true;
            let ghost topv = top@;
            self.prompts.push(top);
            assert(self@ =~= mid.drop_last().push(topv));
            assert(self@ =~= activated(old(self)@, old(display)@));
            display.write(&buf);
            out.completions = match &buf.completion {
                Some(v) => Some(copy_strings(v)),
                None => None,
            };
            out.visibility = Some(PromptState::Visible);
        }
        if input.back {
            let mut chars = crate::chars::to_chars(display.input.as_str());
            let _ = chars.pop();
            let mut s = String::new();
            push_chars(&mut s, chars.as_slice());
            display.input = s;
            display.message = empty_string();
            proof {
                if old(display)@.input.len() == 0 {
                }
            }
        } else if input.chars.len() > 0 {
            let mut s = copy_string(&display.input);
            push_chars(&mut s, input.chars.as_slice());
            display.input = s;
            display.message = empty_string();
        }
        out
    }
}

/// When a prompt put over another is answered or quit, the prompt below is
/// shown again with the texts it showed, and is the one active.
pub proof fn lemma_prompt_below_restored(a: ReadView, b: BufView, d: DisplayView, d2: DisplayView)
    requires
        a.active,
        a.prior is None,
    ensures
        ({
            let s1 = seq![a, ReadView { prompt: b, active: false, prior: None }];
            let s2 = activated(s1, d);
            let s3 = s2.drop_last();
            let s4 = activated(s3, d2);
            &&& s2[1].active
            &&& !s2[0].active
            &&& written(shown_buf(s3[0])) == DisplayView { prompt: d.prompt, input: d.input, message: d.message }
            &&& s4 == seq![ReadView { prior: None, active: true, ..a }]
        }),
{
    let s1 = seq![a, ReadView { prompt: b, active: false, prior: None }];
    let s2 = activated(s1, d);
    let s3 = s2.drop_last();
    assert(s3.len() == 1);
    assert(s3[0].prior == Some(read_display(d)));
    let s4 = activated(s3, d2);
    assert(s4 =~= seq![ReadView { prior: None, active: true, ..a }]);
}

/// What a look up of a prompt's answer found.
#[derive(Debug)]
pub enum ReadLookup {
    /// The answer is a value.
    Found,
    /// The answer is wrong; this says why.
    Message(String),
    /// The answer is incomplete; these complete it.
    Incomplete(Vec<String>),
    /// The look up failed.
    Failed,
}

/// What reading does after an answer is looked up.
#[derive(Debug)]
pub enum ReadDecision {
    /// The answer stands.
    Done,
    /// Show this buffer and read again.
    Again(PromptBuf),
    /// Reading failed.
    Fail,
}

/// What reading does with the buffer answered and its look up: stop with
/// the value, or show the message or the completions and read again.
pub fn read_decision(answer: PromptBuf, found: ReadLookup) -> (r: ReadDecision)
    ensures
        match found {
            ReadLookup::Found => r is Done,
            ReadLookup::Failed => r is Fail,
            ReadLookup::Message(m) => r matches ReadDecision::Again(b) && b@ == BufView { message: m@, ..answer@ },
            ReadLookup::Incomplete(v) => r matches ReadDecision::Again(b) && b@ == BufView {
                completion: Some(strings_view(v@)),
                ..answer@
            },
        },
{
    let mut answer = answer;
    match found {
        ReadLookup::Found => ReadDecision::Done,
        ReadLookup::Failed => ReadDecision::Fail,
        ReadLookup::Message(m) => {
            answer.message = m;
            ReadDecision::Again(answer)
        },
        ReadLookup::Incomplete(v) => {
            answer.completion = Some(v);
            ReadDecision::Again(answer)
        },
    }
}


/// A command that can be run by name or by its hotkey.
#[derive(Debug)]
pub struct Command {
    pub name: String,
    pub hotkey: Option<KeyChord>,
}

/// The commands registered.
#[derive(Debug)]
pub struct CommandConfig {
    pub commands: Vec<Command>,
}

/// The names of the commands.
pub open spec fn command_names(cs: Seq<Command>) -> Seq<Seq<char>> {
    Seq::new(cs.len(), |i: int| cs[i].name@)
}

impl CommandConfig {
    /// Register a command unless one of its name is registered already;
    /// returns whether it was registered.
    pub fn register(&mut self, cmd: Command) -> (added: bool)
        ensures
            added == !command_names(old(self).commands@).contains(cmd.name@),
            added ==> final(self).commands@ == old(self).commands@.push(cmd),
            !added ==> final(self).commands@ == old(self).commands@,
    {
        let name = crate::chars::to_chars(cmd.name.as_str());
        let mut i: usize = 0;
        while i < self.commands.len()
            invariant
                i <= self.commands@.len(),
                name@ == cmd.name@,
                forall|j: int| 0 <= j < i ==> self.commands@[j].name@ != cmd.name@,
            decreases self.commands@.len() - i,
        {
            let other = crate::chars::to_chars(self.commands[i].name.as_str());
            if crate::chars::chars_eq(other.as_slice(), name.as_slice()) {
                assert(command_names(self.commands@)[i as int] == cmd.name@);
                return false;
            }
            i = i + 1;
        }
        assert(!command_names(self.commands@).contains(cmd.name@)) by {
            if command_names(self.commands@).contains(cmd.name@) {
                let j = choose|j: int| 0 <= j < command_names(self.commands@).len() && command_names(self.commands@)[j] == cmd.name@;
                assert(self.commands@[j].name@ == cmd.name@);
            }
        }
        self.commands.push(cmd);
        true
    }

    /// The commands whose hotkey was just pressed with the modifiers held,
    /// by index.
    pub fn pressed(&self, mods: u8, just_pressed: &[u32]) -> (v: Vec<usize>)
        ensures
            forall|k: int| 0 <= k < v@.len() ==> v@[k] < self.commands@.len(),
            forall|i: int|
                #![trigger self.commands@[i]]
                0 <= i < self.commands@.len() ==> (v@.contains(i as usize) <==> (
                self.commands@[i].hotkey matches Some(h) && h.mods == mods && just_pressed@.contains(h.key))),
    {
        let mut v: Vec<usize> = Vec::new();
        let mut i: usize = 0;
        while i < self.commands.len()
            invariant
                i <= self.commands@.len(),
                forall|k: int| 0 <= k < v@.len() ==> v@[k] < i,
                forall|j: int|
                    #![trigger self.commands@[j]]
                    0 <= j < self.commands@.len() ==> (v@.contains(j as usize) <==> (j < i && (
                    self.commands@[j].hotkey matches Some(h) && h.mods == mods && just_pressed@.contains(h.key)))),
            decreases self.commands@.len() - i,
        {
            let hit = match self.commands[i].hotkey {
                Some(h) => h.mods == mods && crate::keys::contains_key(just_pressed, h.key),
                None => false,
            };
            let ghost prev = v@;
            if hit {
                v.push(i);
                assert forall|j: int| #![trigger self.commands@[j]] 0 <= j < self.commands@.len() implies (v@.contains(j as usize) <==> (j < i + 1 && (
                    self.commands@[j].hotkey matches Some(h) && h.mods == mods && just_pressed@.contains(h.key)))) by {
                    if v@.contains(j as usize) && j != i {
                        let k = choose|k: int| 0 <= k < v@.len() && v@[k] == j as usize;
                        assert(k < prev.len());
                        assert(prev.contains(j as usize));
                    }
                    if j < i && prev.contains(j as usize) {
                        let k = choose|k: int| 0 <= k < prev.len() && prev[k] == j as usize;
                        assert(v@[k] == j as usize);
                    }
                    if j == i {
                        assert(v@[v@.len() - 1] == i);
                    }
                }
            } else {
                assert forall|j: int| #![trigger self.commands@[j]] 0 <= j < self.commands@.len() implies (v@.contains(j as usize) <==> (j < i + 1 && (
                    self.commands@[j].hotkey matches Some(h) && h.mods == mods && just_pressed@.contains(h.key)))) by {
                    if v@.contains(j as usize) {
                        let k = choose|k: int| 0 <= k < v@.len() && v@[k] == j as usize;
                        assert(v@[k] < i);
                    }
                }
            }
            i = i + 1;
        }
        v
    }
}

} // verus!
