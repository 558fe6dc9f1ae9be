//! Tapes: recordings of the acts run, keyed by a key chord, that can be
//! played back, repeated or printed as a script.
use crate::acts::Act;
use crate::chars::push_str;
use crate::event::RunActEvent;
use crate::flags::{has_bits, ActFlags, RECORD};
use crate::hotkey::{Hotkey, HotkeyView, KeyChord};
use crate::plugin::{error_message, Error};
use crate::universal::UniversalArg;
use vstd::prelude::*;

verus! {

/// A recording of acts run, in order.
#[derive(Debug, Clone)]
pub struct Tape {
    /// The recorded runs.
    pub content: Vec<RunActEvent>,
}

impl View for Tape {
    type V = Seq<RunActEvent>;

    open spec fn view(&self) -> Seq<RunActEvent> {
        self.content@
    }
}

/// The tape `t` with `input` given to its last run; unchanged if empty.
pub open spec fn amend_input(t: Seq<RunActEvent>, input: u64) -> Seq<RunActEvent> {
    if t.len() == 0 {
        t
    } else {
        t.update(t.len() - 1, RunActEvent { input: Some(input), ..t.last() })
    }
}

impl Default for Tape {
    fn default() -> (t: Tape)
        ensures
            t@ == Seq::<RunActEvent>::empty(),
    {
        Tape::new()
    }
}

impl Tape {
    /// An empty tape.
    pub fn new() -> (t: Tape)
        ensures
            t@ == Seq::<RunActEvent>::empty(),
    {
        Tape { content: Vec::new() }
    }

    /// A tape with the same runs.
    pub fn copy(&self) -> (t: Tape)
        ensures
            t@ == self@,
    {
        let mut v: Vec<RunActEvent> = Vec::new();
        let mut i: usize = 0;
        while i < self.content.len()
            invariant
                i <= self@.len(),
                v@ == self@.take(i as int),
            decreases self@.len() - i,
        {
            v.push(self.content[i]);
            i = i + 1;
            assert(v@ =~= self@.take(i as int));
        }
        assert(self@.take(self@.len() as int) =~= self@);
        Tape { content: v }
    }

    /// Record one more run.
    pub fn append_run(&mut self, act: RunActEvent)
        ensures
            final(self)@ == old(self)@.push(act),
    {
        self.content.push(act);
    }

    /// Give the last recorded run the input `input`; nothing happens when no
    /// act has been recorded.
    pub fn ammend_input(&mut self, input: u64)
        ensures
            final(self)@ == amend_input(old(self)@, input),
    {
        let n = self.content.len();
        if n > 0 {
            let last = self.content[n - 1];
            self.content.set(n - 1, RunActEvent { input: Some(input), ..last });
        }
    }
}

/// Whether a run is one the recorder keeps.
pub open spec fn is_recordable(e: RunActEvent) -> bool {
    has_bits(e.act.flags.bits, RECORD)
}

/// The recordable runs of `es`, in order.
pub open spec fn recordable(es: Seq<RunActEvent>) -> Seq<RunActEvent>
    decreases es.len(),
{
    if es.len() == 0 {
        Seq::empty()
    } else if is_recordable(es.last()) {
        recordable(es.drop_last()).push(es.last())
    } else {
        recordable(es.drop_last())
    }
}

/// Records what acts are run.
#[derive(Debug)]
pub enum TapeRecorder {
    /// Record only the last act that was run.
    Off { one_off: Tape },
    /// A Tape is being recorded.
    Record { tape: Tape, chord: crate::hotkey::KeyChord },
    /// A tape is playing; nothing is recorded.
    Play,
}

/// A tape recorder as a mathematical value.
pub enum RecorderView {
    /// Keeping the last recordable run.
    Off(Seq<RunActEvent>),
    /// Recording a tape for a key chord.
    Record(Seq<RunActEvent>, crate::hotkey::KeyChord),
    /// Playing.
    Play,
}

impl View for TapeRecorder {
    type V = RecorderView;

    open spec fn view(&self) -> RecorderView {
        match self {
            TapeRecorder::Off { one_off } => RecorderView::Off(one_off@),
            TapeRecorder::Record { tape, chord } => RecorderView::Record(tape@, *chord),
            TapeRecorder::Play => RecorderView::Play,
        }
    }
}

/// What the recorder is after it sees the run `e`.
pub open spec fn process_event_spec(r: RecorderView, e: RunActEvent) -> RecorderView {
    if is_recordable(e) {
        match r {
            RecorderView::Off(_) => RecorderView::Off(seq![e]),
            RecorderView::Record(t, c) => RecorderView::Record(t.push(e), c),
            RecorderView::Play => RecorderView::Play,
        }
    } else {
        r
    }
}

/// A run is recorded exactly when its act's flags hold the record bit,
/// whatever other bits they hold: a recording tape gains it at its end, and
/// the one-off tape becomes that run; any other run leaves the recorder as it
/// is, and nothing is recorded while playing.
pub proof fn lemma_record_bit_decides(e: RunActEvent, t: Seq<RunActEvent>, one_off: Seq<RunActEvent>, c: KeyChord)
    ensures
        e.act.flags.bits & RECORD == RECORD ==> {
            &&& process_event_spec(RecorderView::Record(t, c), e) == RecorderView::Record(t.push(e), c)
            &&& process_event_spec(RecorderView::Off(one_off), e) == RecorderView::Off(seq![e])
        },
        e.act.flags.bits & RECORD != RECORD ==> {
            &&& process_event_spec(RecorderView::Record(t, c), e) == RecorderView::Record(t, c)
            &&& process_event_spec(RecorderView::Off(one_off), e) == RecorderView::Off(one_off)
        },
        process_event_spec(RecorderView::Play, e) == RecorderView::Play,
{
}

/// A run of an act with the default flags is recorded.
pub proof fn lemma_default_act_recorded(e: RunActEvent, t: Seq<RunActEvent>, c: KeyChord)
    requires
        e.act.flags.bits == crate::flags::DEFAULT_BITS,
    ensures
        process_event_spec(RecorderView::Record(t, c), e) == RecorderView::Record(t.push(e), c),
{
    assert(crate::flags::DEFAULT_BITS & RECORD == RECORD) by (bit_vector);
    lemma_record_bit_decides(e, t, seq![], c);
}

/// What the recorder is after it sees the input `input`.
pub open spec fn process_input_spec(r: RecorderView, input: u64) -> RecorderView {
    match r {
        RecorderView::Off(t) => RecorderView::Off(amend_input(t, input)),
        RecorderView::Record(t, c) => RecorderView::Record(amend_input(t, input), c),
        RecorderView::Play => RecorderView::Play,
    }
}

/// What the recorder is after it sees the runs `es`, in order.
pub open spec fn process_events(r: RecorderView, es: Seq<RunActEvent>) -> RecorderView
    decreases es.len(),
{
    if es.len() == 0 {
        r
    } else {
        process_event_spec(process_events(r, es.drop_last()), es.last())
    }
}

impl Default for TapeRecorder {
    fn default() -> (r: TapeRecorder)
        ensures
            r@ == RecorderView::Off(Seq::empty()),
    {
        TapeRecorder::Off { one_off: Tape::new() }
    }
}

impl TapeRecorder {
    /// Note that the act of `event` ran: a recordable run replaces the one-off
    /// tape when not recording, and is appended to the tape being recorded.
    pub fn process_event(&mut self, event: &RunActEvent)
        ensures
            final(self)@ == process_event_spec(old(self)@, *event),
    {
        if event.act.flags.contains(ActFlags::record()) {
            match self {
                TapeRecorder::Off { one_off } => {
                    let mut t = Tape::new();
                    t.append_run(*event);
                    assert(t@ =~= seq![*event]);
                    *one_off = t;
                },
                TapeRecorder::Record { tape, .. } => {
                    tape.append_run(*event);
                },
                TapeRecorder::Play => {},
            }
        }
    }

    /// Note the input that the last run act was given.
    pub fn process_input(&mut self, input: u64)
        ensures
            final(self)@ == process_input_spec(old(self)@, input),
    {
        match self {
            TapeRecorder::Off { one_off } => {
                one_off.ammend_input(input);
            },
            TapeRecorder::Record { tape, .. } => {
                tape.ammend_input(input);
            },
            TapeRecorder::Play => {},
        }
    }

    /// Switch to playing, handing back the recorder as it was.
    pub fn begin_play(&mut self) -> (saved: TapeRecorder)
        ensures
            final(self)@ == RecorderView::Play,
            saved@ == old(self)@,
    {
        let mut saved = TapeRecorder::Play;
        std::mem::swap(&mut saved, self);
        saved
    }
}

/// While a tape records, it gains exactly the recordable runs, in order.
pub proof fn lemma_recording_keeps_recordable(
    t: Seq<RunActEvent>,
    c: crate::hotkey::KeyChord,
    es: Seq<RunActEvent>,
)
    ensures
        process_events(RecorderView::Record(t, c), es) == RecorderView::Record(t + recordable(es), c),
    decreases es.len(),
{
    if es.len() == 0 {
        assert(t + recordable(es) =~= t);
    } else {
        lemma_recording_keeps_recordable(t, c, es.drop_last());
        if is_recordable(es.last()) {
            assert(t + recordable(es) =~= (t + recordable(es.drop_last())).push(es.last()));
        }
    }
}

/// When not recording, the one-off tape holds the last recordable run only.
pub proof fn lemma_one_off_keeps_last(t: Seq<RunActEvent>, es: Seq<RunActEvent>)
    ensures
        process_events(RecorderView::Off(t), es) == if recordable(es).len() == 0 {
            RecorderView::Off(t)
        } else {
            RecorderView::Off(seq![recordable(es).last()])
        },
    decreases es.len(),
{
    if es.len() > 0 {
        lemma_one_off_keeps_last(t, es.drop_last());
    }
}

/// Nothing is recorded while a tape plays.
pub proof fn lemma_play_records_nothing(es: Seq<RunActEvent>)
    ensures
        process_events(RecorderView::Play, es) == RecorderView::Play,
    decreases es.len(),
{
    if es.len() > 0 {
        lemma_play_records_nothing(es.drop_last());
    }
}

/// Where `k` stands in `keys`.
pub open spec fn key_index(keys: Seq<KeyChord>, k: KeyChord) -> int {
    choose|i: int| 0 <= i < keys.len() && keys[i] == k
}

/// No key occurs twice.
pub open spec fn unique_keys(keys: Seq<KeyChord>) -> bool {
    forall|i: int, j: int| 0 <= i < keys.len() && 0 <= j < keys.len() && keys[i] == keys[j] ==> i == j
}

/// The tapes recorded so far, each under the key chord it was recorded for.
#[derive(Debug)]
pub struct Tapes {
    keys: Vec<KeyChord>,
    tapes: Vec<Tape>,
}

impl Tapes {
    #[verifier::type_invariant]
    spec fn keys_match(&self) -> bool {
        &&& self.keys@.len() == self.tapes@.len()
        &&& unique_keys(self.keys@)
    }
}

impl View for Tapes {
    type V = Map<KeyChord, Seq<RunActEvent>>;

    closed spec fn view(&self) -> Map<KeyChord, Seq<RunActEvent>> {
        Map::new(
            |k: KeyChord| self.keys@.contains(k),
            |k: KeyChord| self.tapes@[key_index(self.keys@, k)]@,
        )
    }
}

impl Default for Tapes {
    fn default() -> (t: Tapes)
        ensures
            t@ == Map::<KeyChord, Seq<RunActEvent>>::empty(),
    {
        Tapes::new()
    }
}

impl Tapes {
    /// No tapes.
    pub fn new() -> (t: Tapes)
        ensures
            t@ == Map::<KeyChord, Seq<RunActEvent>>::empty(),
    {
        let t = Tapes { keys: Vec::new(), tapes: Vec::new() };
        assert(t@ =~= Map::<KeyChord, Seq<RunActEvent>>::empty());
        t
    }

    fn find(&self, chord: &KeyChord) -> (r: Option<usize>)
        ensures
            match r {
                Some(i) => i < self.keys@.len() && self.keys@[i as int] == *chord,
                None => !self.keys@.contains(*chord),
            },
    {
        let mut i: usize = 0;
        while i < self.keys.len()
            invariant
                i <= self.keys@.len(),
                forall|j: int| 0 <= j < i ==> self.keys@[j] != *chord,
            decreases self.keys@.len() - i,
        {
            if self.keys[i] == *chord {
                return Some(i);
            }
            i = i + 1;
        }
        None
    }

    /// The tape recorded for `chord`, if any.
    pub fn get(&self, chord: &KeyChord) -> (r: Option<&Tape>)
        ensures
            match r {
                Some(t) => self@.contains_key(*chord) && t@ == self@[*chord],
                None => !self@.contains_key(*chord),
            },
    {
        proof {
            use_type_invariant(self);
        }
        match self.find(chord) {
            Some(i) => {
                assert(self.keys@.contains(*chord));
                assert(key_index(self.keys@, *chord) == i);
                Some(&self.tapes[i])
            },
            None => None,
        }
    }

    /// Keep `tape` under `chord`, handing back the tape it replaces.
    pub fn insert(&mut self, chord: KeyChord, tape: Tape) -> (r: Option<Tape>)
        ensures
            final(self)@ == old(self)@.insert(chord, tape@),
            match r {
                Some(t) => old(self)@.contains_key(chord) && t@ == old(self)@[chord],
                None => !old(self)@.contains_key(chord),
            },
    {
        proof {
            use_type_invariant(&*self);
        }
        let ghost old_view = self@;
        let found = self.find(&chord);
        let mut taken = Tapes::new();
        std::mem::swap(&mut taken, self);
        let Tapes { mut keys, mut tapes } = taken;
        let ghost keys0 = keys@;
        let ghost tapes0 = tapes@;
        match found {
            Some(i) => {
                assert(keys0.contains(chord));
                assert(key_index(keys0, chord) == i);
                let mut prev = tape;
                tapes.push(prev);
                prev = tapes.swap_remove(i);
                let t = Tapes { keys, tapes };
                assert(t.tapes@ =~= tapes0.update(i as int, tape));
                assert forall|k: KeyChord| #[trigger] keys0.contains(k) && k != chord implies
                    key_index(keys0, k) != i by {
                }
                assert(t@ =~= old_view.insert(chord, tape@));
                *self = t;
                Some(prev)
            },
            None => {
                keys.push(chord);
                tapes.push(tape);
                let t = Tapes { keys, tapes };
                assert forall|k: KeyChord| #[trigger] keys0.contains(k) implies
                    key_index(t.keys@, k) == key_index(keys0, k) by {
                    let j = key_index(keys0, k);
                    assert(t.keys@[j] == k);
                }
                assert(t.keys@[keys0.len() as int] == chord);
                assert forall|k: KeyChord| #[trigger] t.keys@.contains(k) <==> (keys0.contains(k) || k == chord) by {
                    if t.keys@.contains(k) && k != chord {
                        let j = choose|j: int| 0 <= j < t.keys@.len() && t.keys@[j] == k;
                        assert(keys0[j] == k);
                    }
                    if keys0.contains(k) {
                        let j = choose|j: int| 0 <= j < keys0.len() && keys0[j] == k;
                        assert(t.keys@[j] == k);
                    }
                }
                assert(key_index(t.keys@, chord) == keys0.len()) by {
                    let j = key_index(t.keys@, chord);
                    if j < keys0.len() {
                        assert(keys0[j] == chord);
                    }
                }
                assert(t@ =~= old_view.insert(chord, tape@));
                *self = t;
                None
            },
        }
    }
}

/// The index of the first occurrence of `id` in `ids`.
pub open spec fn find_id(ids: Seq<u64>, id: u64) -> Option<int>
    decreases ids.len(),
{
    if ids.len() == 0 {
        None
    } else {
        match find_id(ids.drop_last(), id) {
            Some(i) => Some(i),
            None => if ids.last() == id {
                Some(ids.len() - 1)
            } else {
                None
            },
        }
    }
}

proof fn lemma_find_id_take(ids: Seq<u64>, id: u64, n: int)
    requires
        0 <= n <= ids.len(),
        find_id(ids.take(n), id) is Some,
    ensures
        find_id(ids, id) == find_id(ids.take(n), id),
    decreases ids.len(),
{
    if n < ids.len() {
        assert(ids.drop_last().take(n) =~= ids.take(n));
        lemma_find_id_take(ids.drop_last(), id, n);
    } else {
        assert(ids.take(n) =~= ids);
    }
}

proof fn lemma_find_id_bound(ids: Seq<u64>, id: u64)
    ensures
        find_id(ids, id) matches Some(i) ==> 0 <= i < ids.len() && ids[i] == id,
    decreases ids.len(),
{
    if ids.len() > 0 {
        lemma_find_id_bound(ids.drop_last(), id);
    }
}

/// The index of the first act spawned as `id`.
pub fn find_act(ids: &[u64], id: u64) -> (r: Option<usize>)
    ensures
        match find_id(ids@, id) {
            Some(i) => r == Some(i as usize),
            None => r is None,
        },
        r matches Some(i) ==> i < ids@.len() && ids@[i as int] == id,
{
    let mut i: usize = 0;
    while i < ids.len()
        invariant
            i <= ids@.len(),
            find_id(ids@.take(i as int), id) is None,
        decreases ids@.len() - i,
    {
        assert(ids@.take(i + 1).drop_last() =~= ids@.take(i as int));
        if ids[i] == id {
            proof {
                assert(find_id(ids@.take(i + 1), id) == Some(i as int));
                lemma_find_id_take(ids@, id, i + 1);
            }
            return Some(i);
        }
        i = i + 1;
    }
    assert(ids@.take(ids@.len() as int) =~= ids@);
    None
}

/// How the input of a recorded run is written in a script.
#[derive(Debug)]
pub enum InputText {
    /// The input's text.
    Text(String),
    /// The input's kind is known but it could not be written.
    Failed,
    /// Nothing is known of the input's kind.
    Missing,
}

/// The text of an input in a script.
pub open spec fn input_text(t: InputText) -> Seq<char> {
    match t {
        InputText::Text(s) => s@,
        InputText::Failed => "???"@,
        InputText::Missing => "!!!"@,
    }
}

/// The script line that runs system `sys`, with the input text `text` if
/// the run had an input.
pub open spec fn script_line(e: RunActEvent, sys: Seq<char>, text: Seq<char>) -> Seq<char> {
    match e.input {
        Some(_) => "    commands.run_system_cached_with("@ + sys + ", "@ + text + ")\n"@,
        None => "    commands.run_system_cached("@ + sys + ")\n"@,
    }
}

/// The script lines of the runs `content`; a run whose act is gone has none.
pub open spec fn script_lines(
    content: Seq<RunActEvent>,
    acts: Seq<Act>,
    ids: Seq<u64>,
    texts: Seq<InputText>,
) -> Seq<char>
    decreases content.len(),
{
    if content.len() == 0 {
        Seq::empty()
    } else {
        let n = content.len() - 1;
        let prev = script_lines(content.drop_last(), acts, ids, texts);
        match find_id(ids, content[n].act.id) {
            Some(j) => prev + script_line(content[n], acts[j].system_name@, input_text(texts[n])),
            None => prev,
        }
    }
}

/// The script that replays a tape.
pub open spec fn script_text(
    content: Seq<RunActEvent>,
    acts: Seq<Act>,
    ids: Seq<u64>,
    texts: Seq<InputText>,
) -> Seq<char> {
    "fn tape(mut commands: Commands) {\n"@ + script_lines(content, acts, ids, texts) + "}"@
}

impl Tape {
    /// A Rust function that runs the recorded acts again, given the acts
    /// (spawned as `ids`) and the text of each recorded run's input.
    pub fn script(&self, acts: &[Act], ids: &[u64], texts: &[InputText]) -> (s: String)
        requires
            ids@.len() == acts@.len(),
            texts@.len() == self@.len(),
        ensures
            s@ == script_text(self@, acts@, ids@, texts@),
    {
        let mut s = String::new();
        push_str(&mut s, "fn tape(mut commands: Commands) {\n");
        let mut i: usize = 0;
        while i < self.content.len()
            invariant
                i <= self@.len(),
                ids@.len() == acts@.len(),
                texts@.len() == self@.len(),
                s@ == "fn tape(mut commands: Commands) {\n"@ + script_lines(
                    self@.take(i as int),
                    acts@,
                    ids@,
                    texts@,
                ),
            decreases self@.len() - i,
        {
            let e = self.content[i];
            let ghost prefix = s@;
            assert(self@.take(i + 1).drop_last() =~= self@.take(i as int));
            assert(self@.take(i + 1)[i as int] == e);
            proof {
                lemma_find_id_bound(ids@, e.act.id);
            }
            match find_act(ids, e.act.id) {
                Some(j) => {
                    match e.input {
                        Some(_) => {
                            push_str(&mut s, "    commands.run_system_cached_with(");
                            push_str(&mut s, acts[j].system_name.as_str());
                            push_str(&mut s, ", ");
                            match &texts[i] {
                                InputText::Text(t) => push_str(&mut s, t.as_str()),
                                InputText::Failed => push_str(&mut s, "???"),
                                InputText::Missing => push_str(&mut s, "!!!"),
                            }
                            push_str(&mut s, ")\n");
                        },
                        None => {
                            push_str(&mut s, "    commands.run_system_cached(");
                            push_str(&mut s, acts[j].system_name.as_str());
                            push_str(&mut s, ")\n");
                        },
                    }
                    assert(s@ =~= prefix + script_line(
                        e,
                        acts@[j as int].system_name@,
                        input_text(texts@[i as int]),
                    ));
                },
                None => {},
            }
            i = i + 1;
        }
        assert(self@.take(self@.len() as int) =~= self@);
        push_str(&mut s, "}");
        s
    }
}

/// The runs of a tape whose act still exists, each with the index of its act.
pub open spec fn tape_runs_spec(content: Seq<RunActEvent>, ids: Seq<u64>) -> Seq<(RunActEvent, usize)>
    decreases content.len(),
{
    if content.len() == 0 {
        Seq::empty()
    } else {
        let prev = tape_runs_spec(content.drop_last(), ids);
        match find_id(ids, content.last().act.id) {
            Some(j) => prev.push((content.last(), j as usize)),
            None => prev,
        }
    }
}

impl Tape {
    /// What playing the tape runs: each recorded run whose act still exists
    /// among the acts spawned as `ids`, with that act's index, in order.
    pub fn runs(&self, ids: &[u64]) -> (v: Vec<(RunActEvent, usize)>)
        ensures
            v@ == tape_runs_spec(self@, ids@),
    {
        let mut v: Vec<(RunActEvent, usize)> = Vec::new();
        let mut i: usize = 0;
        while i < self.content.len()
            invariant
                i <= self@.len(),
                v@ == tape_runs_spec(self@.take(i as int), ids@),
            decreases self@.len() - i,
        {
            let e = self.content[i];
            assert(self@.take(i + 1).drop_last() =~= self@.take(i as int));
            assert(self@.take(i + 1).last() == e);
            match find_act(ids, e.act.id) {
                Some(j) => v.push((e, j)),
                None => {},
            }
            i = i + 1;
        }
        assert(self@.take(self@.len() as int) =~= self@);
        v
    }
}

/// The runs of `runs` repeated `count` times, or none for a count below one.
pub open spec fn repeated_runs(runs: Seq<(RunActEvent, usize)>, count: int) -> Seq<(RunActEvent, usize)>
    decreases count,
{
    if count <= 0 {
        seq![]
    } else {
        repeated_runs(runs, count - 1) + runs
    }
}

/// Plays a tape `count` times: gives the runs to make, in order, with the
/// recorder playing while they are gathered so that none is recorded, and
/// hands the recorder back as it was.
pub fn play_runs(recorder: &mut TapeRecorder, tape: &Tape, ids: &[u64], count: i32) -> (v: Vec<(RunActEvent, usize)>)
    ensures
        final(recorder)@ == old(recorder)@,
        v@ == repeated_runs(tape_runs_spec(tape@, ids@), count as int),
{
    let saved = recorder.begin_play();
    let mut v: Vec<(RunActEvent, usize)> = Vec::new();
    let mut k: i32 = 0;
    while k < count
        invariant
            0 <= k,
            k <= count || k == 0,
            v@ == repeated_runs(tape_runs_spec(tape@, ids@), k as int),
        decreases count - k,
    {
        let once = tape.runs(ids);
        let mut j: usize = 0;
        let ghost before = v@;
        while j < once.len()
            invariant
                j <= once@.len(),
                v@ == before + once@.take(j as int),
            decreases once@.len() - j,
        {
            v.push(once[j]);
            assert(once@.take(j + 1) =~= once@.take(j as int).push(once@[j as int]));
            j = j + 1;
        }
        assert(once@.take(once@.len() as int) =~= once@);
        k = k + 1;
    }
    assert(v@ == repeated_runs(tape_runs_spec(tape@, ids@), count as int)) by {
        if count < 0 {
            assert(repeated_runs(tape_runs_spec(tape@, ids@), count as int) =~= seq![]);
        }
    }
    *recorder = saved;
    v
}

/// The state of the tape recorder's sound and animation.
#[derive(Clone, Copy, PartialEq, Eq, Hash, Debug, Structural)]
pub enum SoundState {
    Off,
    Stop,
    Record,
    Play,
    Rewind,
    Load,
    Squeak,
}

impl Default for SoundState {
    fn default() -> (s: SoundState)
        ensures
            s == SoundState::Off,
    {
        SoundState::Off
    }
}

/// What pressing the record key does.
#[derive(Debug, Clone, Copy, PartialEq, Eq, Structural)]
pub enum RecordStart {
    /// Ask for the key chord to record a tape for.
    AskChord,
    /// The recording for this chord was stopped and its tape stored.
    Stopped(KeyChord),
    /// A tape is playing; nothing happens.
    Ignored,
}

/// The recorder and tapes after a stop: the tape being recorded is stored
/// under its key, and the recorder is off with an empty one-off tape.
pub open spec fn stop_recording(
    r: RecorderView,
    tapes: Map<KeyChord, Seq<RunActEvent>>,
) -> (RecorderView, Map<KeyChord, Seq<RunActEvent>>) {
    match r {
        RecorderView::Record(t, c) => (RecorderView::Off(Seq::empty()), tapes.insert(c, t)),
        _ => (r, tapes),
    }
}

/// Start or stop recording: when off, ask for a key chord; when recording,
/// stop and store the tape under its key chord.
pub fn record_tape(recorder: &mut TapeRecorder, tapes: &mut Tapes) -> (r: RecordStart)
    ensures
        (final(recorder)@, final(tapes)@) == stop_recording(old(recorder)@, old(tapes)@),
        match old(recorder)@ {
            RecorderView::Off(_) => r == RecordStart::AskChord,
            RecorderView::Record(_, c) => r == RecordStart::Stopped(c),
            RecorderView::Play => r == RecordStart::Ignored,
        },
{
    match recorder {
        TapeRecorder::Off { .. } => RecordStart::AskChord,
        TapeRecorder::Play => RecordStart::Ignored,
        TapeRecorder::Record { .. } => {
            let mut taken = TapeRecorder::Off { one_off: Tape::new() };
            std::mem::swap(&mut taken, recorder);
            match taken {
                TapeRecorder::Record { tape, chord } => {
                    tapes.insert(chord, tape);
                    RecordStart::Stopped(chord)
                },
                _ => RecordStart::Ignored,
            }
        },
    }
}

/// The sound the record key sets.
pub open spec fn record_start_sound(r: RecordStart) -> SoundState {
    match r {
        RecordStart::Stopped(_) => SoundState::Stop,
        _ => SoundState::Load,
    }
}

/// The sound the record key sets.
pub fn record_tape_sound(r: &RecordStart) -> (s: SoundState)
    ensures
        s == record_start_sound(*r),
{
    match r {
        RecordStart::Stopped(_) => SoundState::Stop,
        _ => SoundState::Load,
    }
}

/// The message the record key shows, given the text of the stopped chord.
pub fn record_tape_message(r: &RecordStart, chord_text: &str) -> (m: Option<String>)
    ensures
        match *r {
            RecordStart::AskChord => m matches Some(s) && s@ == "Record tape: "@,
            RecordStart::Stopped(_) => m matches Some(s) && s@ == "Stop recording tape "@ + chord_text@,
            RecordStart::Ignored => m is None,
        },
{
    match r {
        RecordStart::AskChord => {
            let mut s = String::new();
            push_str(&mut s, "Record tape: ");
            Some(s)
        },
        RecordStart::Stopped(_) => {
            let mut s = String::new();
            push_str(&mut s, "Stop recording tape ");
            push_str(&mut s, chord_text);
            Some(s)
        },
        RecordStart::Ignored => None,
    }
}

/// Start recording for the key chord the user gave (or report why there is
/// none). With `append`, recording continues the tape already kept for the
/// chord, if there is one.
pub fn record_tape_chord(
    recorder: &mut TapeRecorder,
    tapes: &Tapes,
    append: bool,
    chord: Result<KeyChord, Error>,
    chord_text: &str,
) -> (r: (String, SoundState))
    ensures
        match chord {
            Ok(c) => {
                &&& r.1 == SoundState::Record
                &&& if append && tapes@.contains_key(c) {
                    &&& final(recorder)@ == RecorderView::Record(tapes@[c], c)
                    &&& r.0@ == "Recording tape "@ + chord_text@
                } else if append {
                    &&& final(recorder)@ == RecorderView::Record(Seq::empty(), c)
                    &&& r.0@ == "No prior tape. Recording new tape "@ + chord_text@
                } else {
                    &&& final(recorder)@ == RecorderView::Record(Seq::empty(), c)
                    &&& r.0@ == "Recording new tape "@ + chord_text@
                }
            },
            Err(e) => {
                &&& r.1 == SoundState::Squeak
                &&& r.0@ == error_message(e)
                &&& final(recorder)@ == old(recorder)@
            },
        },
{
    match chord {
        Ok(c) => {
            let mut s = String::new();
            if append {
                match tapes.get(&c) {
                    Some(t) => {
                        push_str(&mut s, "Recording tape ");
                        push_str(&mut s, chord_text);
                        *recorder = TapeRecorder::Record { tape: t.copy(), chord: c };
                    },
                    None => {
                        push_str(&mut s, "No prior tape. Recording new tape ");
                        push_str(&mut s, chord_text);
                        *recorder = TapeRecorder::Record { tape: Tape::new(), chord: c };
                    },
                }
            } else {
                push_str(&mut s, "Recording new tape ");
                push_str(&mut s, chord_text);
                *recorder = TapeRecorder::Record { tape: Tape::new(), chord: c };
            }
            (s, SoundState::Record)
        },
        Err(e) => (e.text(), SoundState::Squeak),
    }
}

/// What playing a tape comes to.
#[derive(Debug)]
pub enum PlayStep {
    /// Play this tape, recorded for this chord, this many times.
    Play { chord: KeyChord, tape: Tape, count: i32 },
    /// No tape is kept for this chord.
    NoTape(KeyChord),
    /// The play key was given again to replay the last tape, but no tape has
    /// been played.
    NoLastTape,
    /// No key chord was given.
    Failed(Error),
}

/// How many times a tape plays for the universal argument `arg`.
pub open spec fn play_count_spec(arg: UniversalArg) -> i32 {
    match arg.0 {
        Some(n) => n,
        None => 1,
    }
}

/// How many times a tape plays: the universal argument, or once.
pub fn play_count(arg: &UniversalArg) -> (n: i32)
    ensures
        n == play_count_spec(*arg),
{
    match arg.0 {
        Some(n) => n,
        None => 1,
    }
}

/// Play the tape kept for `chord` once, when the chord is given directly.
pub fn play_tape_now(tapes: &Tapes, chord: KeyChord) -> (r: PlayStep)
    ensures
        if tapes@.contains_key(chord) {
            r matches PlayStep::Play { chord: c, tape, count } && c == chord && tape@ == tapes@[chord]
                && count == 1
        } else {
            r matches PlayStep::NoTape(c) && c == chord
        },
{
    match tapes.get(&chord) {
        Some(t) => PlayStep::Play { chord, tape: t.copy(), count: 1 },
        None => PlayStep::NoTape(chord),
    }
}

/// Whether the chord given is the play key itself: the act was run by a
/// hotkey of that one chord.
pub open spec fn replays_last(this_hotkey: Option<HotkeyView>, c: KeyChord) -> bool {
    this_hotkey matches Some(h) && h.chords == seq![c]
}

/// The sound set when the play key is pressed, given the current one.
pub fn play_tape_start_sound(current: SoundState) -> (s: Option<SoundState>)
    ensures
        s == if current == SoundState::Play { None } else { Some(SoundState::Load) },
{
    if current == SoundState::Play {
        None
    } else {
        Some(SoundState::Load)
    }
}

/// Play the tape for the chord the user gave, `count` times. Giving the play
/// key itself (`this_hotkey`, the hotkey that ran the play act) plays the last
/// tape played again. The chord played is remembered in `last_played`.
pub fn play_tape_chord(
    tapes: &Tapes,
    last_played: &mut Option<KeyChord>,
    this_hotkey: Option<&Hotkey>,
    chord: Result<KeyChord, Error>,
    count: i32,
) -> (r: PlayStep)
    ensures
        match chord {
            Err(e) => r == PlayStep::Failed(e) && *final(last_played) == *old(last_played),
            Ok(c) => {
                let hv = match this_hotkey {
                    Some(h) => Some(h@),
                    None => None,
                };
                let target = if replays_last(hv, c) { *old(last_played) } else { Some(c) };
                match target {
                    None => r == PlayStep::NoLastTape && *final(last_played) == *old(last_played),
                    Some(t) => if tapes@.contains_key(t) {
                        &&& r matches PlayStep::Play { chord: pc, tape, count: n } && pc == t
                            && tape@ == tapes@[t] && n == count
                        &&& *final(last_played) == Some(t)
                    } else {
                        &&& r matches PlayStep::NoTape(pc) && pc == t
                        &&& *final(last_played) == *old(last_played)
                    },
                }
            },
        },
{
    match chord {
        Err(e) => PlayStep::Failed(e),
        Ok(c) => {
            let again = match this_hotkey {
                Some(h) => {
                    let same = h.chords.len() == 1 && h.chords[0] == c;
                    proof {
                        if same {
                            assert(h@.chords =~= seq![c]);
                        } else if h@.chords == seq![c] {
                            assert(h@.chords[0] == c);
                        }
                    }
                    same
                },
                None => false,
            };
            let target = if again {
                *last_played
            } else {
                Some(c)
            };
            match target {
                None => PlayStep::NoLastTape,
                Some(t) => match tapes.get(&t) {
                    Some(tape) => {
                        *last_played = Some(t);
                        PlayStep::Play { chord: t, tape: tape.copy(), count }
                    },
                    None => PlayStep::NoTape(t),
                },
            }
        },
    }
}

/// The sound a play step sets, if any.
pub fn play_step_sound(step: &PlayStep) -> (s: Option<SoundState>)
    ensures
        s == match *step {
            PlayStep::Play { .. } => Some(SoundState::Play),
            PlayStep::NoTape(_) => Some(SoundState::Load),
            PlayStep::NoLastTape => None,
            PlayStep::Failed(_) => Some(SoundState::Squeak),
        },
{
    match step {
        PlayStep::Play { .. } => Some(SoundState::Play),
        PlayStep::NoTape(_) => Some(SoundState::Load),
        PlayStep::NoLastTape => None,
        PlayStep::Failed(_) => Some(SoundState::Squeak),
    }
}

/// The message a play step shows, if any, given the text of its chord.
pub fn play_step_message(step: &PlayStep, chord_text: &str) -> (m: Option<String>)
    ensures
        match *step {
            PlayStep::Play { .. } => m is None,
            PlayStep::NoTape(_) => m matches Some(s) && s@ == "No tape for "@ + chord_text@,
            PlayStep::NoLastTape => m matches Some(s) && s@
                == "Tried to play last tape but no tape has been played."@,
            PlayStep::Failed(e) => m matches Some(s) && s@ == error_message(e),
        },
{
    match step {
        PlayStep::Play { .. } => None,
        PlayStep::NoTape(_) => {
            let mut s = String::new();
            push_str(&mut s, "No tape for ");
            push_str(&mut s, chord_text);
            Some(s)
        },
        PlayStep::NoLastTape => {
            let mut s = String::new();
            push_str(&mut s, "Tried to play last tape but no tape has been played.");
            Some(s)
        },
        PlayStep::Failed(e) => Some(e.text()),
    }
}

/// What copying a tape comes to.
#[derive(Debug)]
pub enum CopyStep {
    /// Log the script of this tape, kept for this chord.
    Log(KeyChord, Tape),
    /// No tape is kept for this chord.
    NoTape(KeyChord),
    /// No key chord was given.
    Failed(Error),
}

/// Find the tape to copy for the chord the user gave.
pub fn copy_tape_chord(tapes: &Tapes, chord: Result<KeyChord, Error>) -> (r: CopyStep)
    ensures
        match chord {
            Err(e) => r == CopyStep::Failed(e),
            Ok(c) => if tapes@.contains_key(c) {
                r matches CopyStep::Log(k, t) && k == c && t@ == tapes@[c]
            } else {
                r matches CopyStep::NoTape(k) && k == c
            },
        },
{
    match chord {
        Err(e) => CopyStep::Failed(e),
        Ok(c) => match tapes.get(&c) {
            Some(t) => CopyStep::Log(c, t.copy()),
            None => CopyStep::NoTape(c),
        },
    }
}

/// The sound a copy step sets, if any.
pub fn copy_step_sound(step: &CopyStep) -> (s: Option<SoundState>)
    ensures
        s == match *step {
            CopyStep::Log(..) => Some(SoundState::Rewind),
            CopyStep::NoTape(_) => None,
            CopyStep::Failed(_) => Some(SoundState::Squeak),
        },
{
    match step {
        CopyStep::Log(..) => Some(SoundState::Rewind),
        CopyStep::NoTape(_) => None,
        CopyStep::Failed(_) => Some(SoundState::Squeak),
    }
}

/// The message a copy step shows, given the text of its chord and, when
/// there is a tape, its script.
pub fn copy_step_message(step: &CopyStep, chord_text: &str, script: &str) -> (s: String)
    ensures
        match *step {
            CopyStep::Log(..) => s@ == "Log tape "@ + chord_text@ + ":\n\n"@ + script@,
            CopyStep::NoTape(_) => s@ == "No tape for "@ + chord_text@,
            CopyStep::Failed(e) => s@ == error_message(e),
        },
{
    match step {
        CopyStep::Log(..) => {
            let mut s = String::new();
            push_str(&mut s, "Log tape ");
            push_str(&mut s, chord_text);
            push_str(&mut s, ":\n\n");
            push_str(&mut s, script);
            s
        },
        CopyStep::NoTape(_) => {
            let mut s = String::new();
            push_str(&mut s, "No tape for ");
            push_str(&mut s, chord_text);
            s
        },
        CopyStep::Failed(e) => e.text(),
    }
}

/// Repeat the last recordable act: when not recording, the one-off tape and
/// how many times to play it.
pub fn repeat_tape(recorder: &TapeRecorder, arg: &UniversalArg) -> (r: Option<(Tape, i32)>)
    ensures
        match recorder@ {
            RecorderView::Off(t) => r matches Some(p) && p.0@ == t && p.1 == play_count_spec(*arg),
            _ => r is None,
        },
{
    match recorder {
        TapeRecorder::Off { one_off } => Some((one_off.copy(), play_count(arg))),
        _ => None,
    }
}

/// Tapes are kept by key chord: after a tape is kept under a chord, as
/// [Tapes::insert] does, that chord finds it, and every other chord finds what
/// it found before.
pub proof fn lemma_tape_kept_under_chord(
    tapes: Map<KeyChord, Seq<RunActEvent>>,
    c: KeyChord,
    t: Seq<RunActEvent>,
    other: KeyChord,
)
    requires
        other != c,
    ensures
        tapes.insert(c, t).contains_key(c),
        tapes.insert(c, t)[c] == t,
        tapes.insert(c, t).contains_key(other) == tapes.contains_key(other),
        tapes.contains_key(other) ==> tapes.insert(c, t)[other] == tapes[other],
{
}

/// A tape records exactly the recordable runs between its start and its stop,
/// in order, and is then kept under its key chord.
pub proof fn lemma_recorded_tape_is_kept(
    c: KeyChord,
    es: Seq<RunActEvent>,
    tapes: Map<KeyChord, Seq<RunActEvent>>,
)
    ensures
        ({
            let (r, m) = stop_recording(process_events(RecorderView::Record(Seq::empty(), c), es), tapes);
            &&& r == RecorderView::Off(Seq::empty())
            &&& m.contains_key(c)
            &&& m[c] == recordable(es)
            &&& forall|k: KeyChord| k != c ==> m.contains_key(k) == tapes.contains_key(k)
                && (#[trigger] m[k]) == tapes[k]
        }),
{
    lemma_recording_keeps_recordable(Seq::empty(), c, es);
    assert(Seq::<RunActEvent>::empty() + recordable(es) =~= recordable(es));
}

} // verus!
