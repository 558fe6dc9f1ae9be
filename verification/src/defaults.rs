//! The act sets the library offers: the basic acts, the universal argument
//! and the tape recorder's acts.
use crate::acts::{name_slices, ActBuilder, ActBuilderView, Acts};
use crate::chars::{push_decimal, push_str, decimal};
use crate::flags::{ActFlags, ADVERB, DEFAULT_BITS, RECORD, RUN_ACT, SHOW_MINIBUFFER};
use crate::hotkey::{HotkeyView, KeyChord};
use crate::keys::{ALT, BACKQUOTE, CONTROL, DIGIT_2, KEY_A, KEY_B, KEY_H, KEY_K, KEY_Q, KEY_U, KEY_X, PERIOD, SEMICOLON, SHIFT};
use vstd::prelude::*;

verus! {

/// A system name without a `(` can be made an act name.
proof fn lemma_plain_name(s: Seq<char>)
    requires
        forall|i: int| 0 <= i < s.len() ==> s[i] != '(',
    ensures
        name_slices(s),
{
    crate::acts::lemma_first_index(s, '(');
}

fn string(s: &str) -> (t: String)
    ensures
        t@ == s@,
{
    let mut t = String::new();
    push_str(&mut t, s);
    t
}

/// A builder for the system `system_name`, named `name`.
fn named_builder(system_name: &str, name: &str) -> (b: ActBuilder)
    requires
        forall|i: int| 0 <= i < system_name@.len() ==> system_name@[i] != '(',
    ensures
        b@ == (ActBuilderView {
            name: name@,
            hotkeys: Seq::empty(),
            system_name: system_name@,
            flags: ActFlags { bits: DEFAULT_BITS },
            shorten_name: true,
            input: None,
        }),
{
    proof {
        lemma_plain_name(system_name@);
    }
    let mut b = ActBuilder::new(system_name);
    b.named(string(name));
    assert(b@.hotkeys =~= Seq::<HotkeyView>::empty());
    b
}

fn chord(mods: u8, key: u32) -> (c: KeyChord)
    ensures
        c == (KeyChord { mods, key }),
{
    KeyChord { mods, key }
}


fn push_new(acts: &mut Acts, b: ActBuilder)
    requires
        forall|i: int| 0 <= i < old(acts)@.len() ==> old(acts)@[i].name != b@.name,
    ensures
        final(acts)@ == old(acts)@.push(b@),
{
    let _ = acts.push(b);
}

/// A hotkey of these chords, with no alias.
pub open spec fn keys(cs: Seq<KeyChord>) -> HotkeyView {
    HotkeyView { chords: cs, alias: None }
}

/// A hotkey of these chords, shown as `alias`.
pub open spec fn aliased(cs: Seq<KeyChord>, alias: Seq<char>) -> HotkeyView {
    HotkeyView { chords: cs, alias: Some(alias) }
}

/// A builder's view.
pub open spec fn act_view(
    name: Seq<char>,
    system_name: Seq<char>,
    hotkeys: Seq<HotkeyView>,
    bits: u8,
    input: Option<u64>,
) -> ActBuilderView {
    ActBuilderView { name, hotkeys, system_name, flags: ActFlags { bits }, shorten_name: true, input }
}

/// `Ctrl-H` followed by `key`.
pub open spec fn help_key(key: u32) -> Seq<KeyChord> {
    seq![KeyChord { mods: CONTROL, key: KEY_H }, KeyChord { mods: 0, key }]
}

/// The hotkeys of `run_act`: `:` (Shift-;) and Alt-X.
pub open spec fn run_act_hotkeys() -> Seq<HotkeyView> {
    seq![
        aliased(seq![KeyChord { mods: SHIFT, key: SEMICOLON }], ":"@),
        keys(seq![KeyChord { mods: ALT, key: KEY_X }]),
    ]
}

/// The basic acts, with `run_act` bound to the hotkeys given.
pub open spec fn basic_acts_view(run_act_keys: Seq<HotkeyView>) -> Seq<ActBuilderView> {
    seq![
        act_view(
            "list_acts"@,
            "bevy_minibuffer::acts::basic::list_acts"@,
            seq![keys(help_key(KEY_A))],
            DEFAULT_BITS | SHOW_MINIBUFFER,
            None,
        ),
        act_view(
            "list_key_bindings"@,
            "bevy_minibuffer::acts::basic::list_key_bindings"@,
            seq![keys(help_key(KEY_B))],
            DEFAULT_BITS | SHOW_MINIBUFFER,
            None,
        ),
        act_view(
            "toggle_visibility"@,
            "bevy_minibuffer::acts::basic::toggle_visibility"@,
            seq![keys(seq![KeyChord { mods: 0, key: BACKQUOTE }])],
            DEFAULT_BITS & !RUN_ACT,
            None,
        ),
        act_view(
            "run_act"@,
            "bevy_minibuffer::acts::basic::run_act"@,
            run_act_keys,
            (DEFAULT_BITS | ADVERB) & !RUN_ACT,
            None,
        ),
        act_view(
            "describe_key"@,
            "bevy_minibuffer::acts::basic::describe_key"@,
            seq![keys(help_key(KEY_K))],
            DEFAULT_BITS,
            None,
        ),
    ]
}

/// Bare minimum of acts for a useable and discoverable console
pub struct BasicActs {
    /// Set of basic acts
    pub acts: Acts,
}

impl BasicActs {
    fn with_run_act_keys(emacs: bool) -> (b: BasicActs)
        ensures
            b.acts@ == basic_acts_view(if emacs {
                seq![aliased(seq![KeyChord { mods: ALT, key: KEY_X }], "M-x "@)]
            } else {
                run_act_hotkeys()
            }),
    {
        proof {
            reveal_strlit("bevy_minibuffer::acts::basic::list_acts");
            reveal_strlit("bevy_minibuffer::acts::basic::list_key_bindings");
            reveal_strlit("bevy_minibuffer::acts::basic::toggle_visibility");
            reveal_strlit("bevy_minibuffer::acts::basic::run_act");
            reveal_strlit("bevy_minibuffer::acts::basic::describe_key");
            reveal_strlit("list_acts");
            reveal_strlit("list_key_bindings");
            reveal_strlit("toggle_visibility");
            reveal_strlit("run_act");
            reveal_strlit("describe_key");
        }
        let mut acts = Acts::empty();
        let mut b = named_builder("bevy_minibuffer::acts::basic::list_acts", "list_acts");
        b.add_flags(ActFlags::show_minibuffer());
        {
            let cs = vec![chord(CONTROL, KEY_H), chord(0, KEY_A)];
            assert(cs@ =~= seq![KeyChord { mods: CONTROL, key: KEY_H }, KeyChord { mods: 0, key: KEY_A }]);
            b.bind(cs);
        }
        push_new(&mut acts, b);
        let mut b = named_builder("bevy_minibuffer::acts::basic::list_key_bindings", "list_key_bindings");
        b.add_flags(ActFlags::show_minibuffer());
        {
            let cs = vec![chord(CONTROL, KEY_H), chord(0, KEY_B)];
            assert(cs@ =~= seq![KeyChord { mods: CONTROL, key: KEY_H }, KeyChord { mods: 0, key: KEY_B }]);
            b.bind(cs);
        }
        assert(acts@.len() == 1);
        assert(acts@[0].name == "list_acts"@);
        assert("list_acts"@.len() == 9);
        assert("list_key_bindings"@.len() == 17);
        assert(b@.name == "list_key_bindings"@);
        push_new(&mut acts, b);
        let mut b = named_builder("bevy_minibuffer::acts::basic::toggle_visibility", "toggle_visibility");
        {
            let cs = vec![chord(0, BACKQUOTE)];
            assert(cs@ =~= seq![KeyChord { mods: 0, key: BACKQUOTE }]);
            b.bind(cs);
        }
        b.sub_flags(ActFlags::run_act());
        assert(acts@.len() == 2);
        assert(acts@[1].name == "list_key_bindings"@);
        assert("toggle_visibility"@.len() == 17);
        assert("toggle_visibility"@[0] == 't');
        assert("list_key_bindings"@[0] == 'l');
        assert(b@.name == "toggle_visibility"@);
        push_new(&mut acts, b);
        let mut b = named_builder("bevy_minibuffer::acts::basic::run_act", "run_act");
        if emacs {
            let cs = vec![chord(ALT, KEY_X)];
            assert(cs@ =~= seq![KeyChord { mods: ALT, key: KEY_X }]);
            b.bind_aliased(cs, string("M-x "));
            assert(b@.hotkeys =~= seq![aliased(seq![KeyChord { mods: ALT, key: KEY_X }], "M-x "@)]);
        } else {
            let cs = vec![chord(SHIFT, SEMICOLON)];
            assert(cs@ =~= seq![KeyChord { mods: SHIFT, key: SEMICOLON }]);
            b.bind_aliased(cs, string(":"));
            let cs = vec![chord(ALT, KEY_X)];
            assert(cs@ =~= seq![KeyChord { mods: ALT, key: KEY_X }]);
            b.bind(cs);
            assert(b@.hotkeys =~= run_act_hotkeys());
        }
        b.add_flags(ActFlags::adverb());
        b.sub_flags(ActFlags::run_act());
        assert(acts@.len() == 3);
        assert(acts@[2].name == "toggle_visibility"@);
        assert("run_act"@.len() == 7);
        assert(b@.name == "run_act"@);
        push_new(&mut acts, b);
        let mut b = named_builder("bevy_minibuffer::acts::basic::describe_key", "describe_key");
        {
            let cs = vec![chord(CONTROL, KEY_H), chord(0, KEY_K)];
            assert(cs@ =~= seq![KeyChord { mods: CONTROL, key: KEY_H }, KeyChord { mods: 0, key: KEY_K }]);
            b.bind(cs);
        }
        assert(acts@.len() == 4);
        assert(acts@[3].name == "run_act"@);
        assert("describe_key"@.len() == 12);
        assert(b@.name == "describe_key"@);
        push_new(&mut acts, b);
        let r = BasicActs { acts };
        assert(r.acts@ =~= basic_acts_view(if emacs {
            seq![aliased(seq![KeyChord { mods: ALT, key: KEY_X }], "M-x "@)]
        } else {
            run_act_hotkeys()
        }));
        r
    }

    /// Make run_act look like 'M-x ' at the prompt.
    pub fn emacs() -> (b: BasicActs)
        ensures
            b.acts@ == basic_acts_view(seq![aliased(seq![KeyChord { mods: ALT, key: KEY_X }], "M-x "@)]),
    {
        BasicActs::with_run_act_keys(true)
    }

    /// Take the acts, leaving none.
    pub fn take_acts(&mut self) -> (a: Acts)
        ensures
            a@ == old(self).acts@,
            final(self).acts@.len() == 0,
    {
        self.acts.take()
    }
}

impl Default for BasicActs {
    fn default() -> (b: BasicActs)
        ensures
            b.acts@ == basic_acts_view(run_act_hotkeys()),
    {
        BasicActs::with_run_act_keys(false)
    }
}


/// The universal argument act.
pub open spec fn universal_arg_view() -> ActBuilderView {
    act_view(
        "universal_arg"@,
        "bevy_minibuffer::acts::universal::universal_arg"@,
        seq![keys(seq![KeyChord { mods: CONTROL, key: KEY_U }])],
        DEFAULT_BITS & !(RUN_ACT | RECORD),
        None,
    )
}

/// The act that shows the universal argument.
pub open spec fn display_universal_arg_view() -> ActBuilderView {
    act_view(
        "display_universal_arg"@,
        "bevy_minibuffer::acts::universal::display_universal_arg"@,
        Seq::empty(),
        DEFAULT_BITS | SHOW_MINIBUFFER,
        None,
    )
}

/// Universal argument plugin and acts
///
/// Adds "universal_arg" act and resources: [crate::universal::UniversalArg]
/// and [crate::universal::Multiplier].
pub struct UniversalArgActs {
    /// Acts
    pub acts: Acts,
}

impl Default for UniversalArgActs {
    fn default() -> (u: UniversalArgActs)
        ensures
            u.acts@ == seq![universal_arg_view()],
    {
        proof {
            reveal_strlit("bevy_minibuffer::acts::universal::universal_arg");
        }
        let mut acts = Acts::empty();
        let mut b = named_builder("bevy_minibuffer::acts::universal::universal_arg", "universal_arg");
        let cs = vec![chord(CONTROL, KEY_U)];
        assert(cs@ =~= seq![KeyChord { mods: CONTROL, key: KEY_U }]);
        b.bind(cs);
        b.sub_flags(ActFlags::run_act().union(ActFlags::record()));
        push_new(&mut acts, b);
        let u = UniversalArgActs { acts };
        assert(u.acts@[0] == universal_arg_view());
        assert(u.acts@ =~= seq![universal_arg_view()]);
        u
    }
}

impl UniversalArgActs {
    /// Include an act that prints the universal arg resource.
    pub fn include_display_act(self) -> (u: UniversalArgActs)
        ensures
            match crate::acts::name_index(self.acts@, "display_universal_arg"@) {
                Some(i) => u.acts@ == self.acts@.update(i, display_universal_arg_view()),
                None => u.acts@ == self.acts@.push(display_universal_arg_view()),
            },
    {
        proof {
            reveal_strlit("bevy_minibuffer::acts::universal::display_universal_arg");
        }
        let mut acts = self.acts;
        let mut b = named_builder(
            "bevy_minibuffer::acts::universal::display_universal_arg",
            "display_universal_arg",
        );
        b.add_flags(ActFlags::show_minibuffer());
        let _ = acts.push(b);
        UniversalArgActs { acts }
    }

    /// Take the acts, leaving none.
    pub fn take_acts(&mut self) -> (a: Acts)
        ensures
            a@ == old(self).acts@,
            final(self).acts@.len() == 0,
    {
        self.acts.take()
    }
}

/// The key of the input kind of acts that take an optional key chord.
pub const CHORD_INPUT: u64 = 1;

/// The tape recorder's acts.
pub open spec fn tape_acts_view() -> Seq<ActBuilderView> {
    seq![
        act_view(
            "record_tape"@,
            "bevy_minibuffer::acts::tape::record_tape"@,
            seq![keys(seq![KeyChord { mods: 0, key: KEY_Q }])],
            DEFAULT_BITS & !RECORD,
            None,
        ),
        act_view(
            "play_tape"@,
            "bevy_minibuffer::acts::tape::play_tape"@,
            seq![aliased(seq![KeyChord { mods: SHIFT, key: DIGIT_2 }], "@"@)],
            DEFAULT_BITS & !RECORD,
            Some(CHORD_INPUT),
        ),
        act_view(
            "repeat"@,
            "bevy_minibuffer::acts::tape::repeat"@,
            seq![keys(seq![KeyChord { mods: 0, key: PERIOD }])],
            DEFAULT_BITS & !RECORD,
            None,
        ),
        act_view("copy_tape"@, "bevy_minibuffer::acts::tape::copy_tape"@, Seq::empty(), DEFAULT_BITS, None),
    ]
}

/// The tape recorder's acts: record, play, repeat and copy tapes.
pub struct TapeActs {
    /// Acts
    pub acts: Acts,
}

impl Default for TapeActs {
    fn default() -> (t: TapeActs)
        ensures
            t.acts@ == tape_acts_view(),
    {
        proof {
            reveal_strlit("bevy_minibuffer::acts::tape::record_tape");
            reveal_strlit("bevy_minibuffer::acts::tape::play_tape");
            reveal_strlit("bevy_minibuffer::acts::tape::repeat");
            reveal_strlit("bevy_minibuffer::acts::tape::copy_tape");
            reveal_strlit("record_tape");
            reveal_strlit("play_tape");
            reveal_strlit("repeat");
            reveal_strlit("copy_tape");
        }
        let mut acts = Acts::empty();
        let mut b = named_builder("bevy_minibuffer::acts::tape::record_tape", "record_tape");
        let cs = vec![chord(0, KEY_Q)];
        assert(cs@ =~= seq![KeyChord { mods: 0, key: KEY_Q }]);
        b.bind(cs);
        b.sub_flags(ActFlags::record());
        push_new(&mut acts, b);
        let mut b = named_builder("bevy_minibuffer::acts::tape::play_tape", "play_tape");
        b.input = Some(CHORD_INPUT);
        let cs = vec![chord(SHIFT, DIGIT_2)];
        assert(cs@ =~= seq![KeyChord { mods: SHIFT, key: DIGIT_2 }]);
        b.bind_aliased(cs, string("@"));
        b.sub_flags(ActFlags::record());
        assert(acts@.len() == 1);
        assert(acts@[0].name == "record_tape"@);
        assert("record_tape"@.len() == 11);
        assert("play_tape"@.len() == 9);
        assert(b@.name == "play_tape"@);
        push_new(&mut acts, b);
        let mut b = named_builder("bevy_minibuffer::acts::tape::repeat", "repeat");
        let cs = vec![chord(0, PERIOD)];
        assert(cs@ =~= seq![KeyChord { mods: 0, key: PERIOD }]);
        b.bind(cs);
        b.sub_flags(ActFlags::record());
        assert(acts@.len() == 2);
        assert(acts@[1].name == "play_tape"@);
        assert("repeat"@.len() == 6);
        assert(b@.name == "repeat"@);
        push_new(&mut acts, b);
        let b = named_builder("bevy_minibuffer::acts::tape::copy_tape", "copy_tape");
        assert(acts@.len() == 3);
        assert(acts@[2].name == "repeat"@);
        assert("copy_tape"@.len() == 9);
        assert("copy_tape"@[0] == 'c');
        assert("play_tape"@[0] == 'p');
        assert(b@.name == "copy_tape"@);
        push_new(&mut acts, b);
        let t = TapeActs { acts };
        assert(t.acts@ =~= tape_acts_view());
        t
    }
}

impl TapeActs {
    /// Take the acts, leaving none.
    pub fn take_acts(&mut self) -> (a: Acts)
        ensures
            a@ == old(self).acts@,
            final(self).acts@.len() == 0,
    {
        self.acts.take()
    }
}

/// The warning for a plugin whose acts were not added.
pub open spec fn unused_acts_text(plugin_name: Seq<char>, count: nat) -> Seq<char> {
    plugin_name + " has "@ + decimal(count) + " act"@ + (if count == 1 {
        " that was"@
    } else {
        "s that were"@
    }) + " not added; consider using add_acts() instead of add_plugins() for it."@
}

/// Warn if there are unused acts in an acts plugin: none when no act is
/// left in it.
pub fn unused_acts_warning(plugin_name: &str, acts: &Acts) -> (w: Option<String>)
    ensures
        acts@.len() == 0 ==> w is None,
        acts@.len() > 0 ==> (w matches Some(s) && s@ == unused_acts_text(plugin_name@, acts@.len())),
{
    let count = acts.len();
    if count == 0 {
        return None;
    }
    let mut s = String::new();
    push_str(&mut s, plugin_name);
    push_str(&mut s, " has ");
    push_decimal(&mut s, count as u64);
    push_str(&mut s, " act");
    if count == 1 {
        push_str(&mut s, " that was");
    } else {
        push_str(&mut s, "s that were");
    }
    push_str(&mut s, " not added; consider using add_acts() instead of add_plugins() for it.");
    Some(s)
}

} // verus!
