//! Key chords and hotkeys: sequences of key chords that run an act.
use crate::chars::{push_char, push_str};
use crate::lookup::strings_view;
use vstd::prelude::*;

verus! {

/// A key pressed with a set of modifier keys.
///
/// The modifiers are a bit set (control, alt, shift, super); the key is the
/// number of a key code.
#[derive(Clone, Copy, Debug, PartialEq, Eq, Hash, Structural)]
pub struct KeyChord {
    /// Modifier bits: 1 control, 2 alt, 4 shift, 8 super.
    pub mods: u8,
    /// The key code's number.
    pub key: u32,
}

impl KeyChord {
    /// A chord of `key` with the modifiers `mods`.
    pub fn new(mods: u8, key: u32) -> (c: KeyChord)
        ensures
            c.mods == mods,
            c.key == key,
    {
        KeyChord { mods, key }
    }

    /// Whether any modifier key is held.
    pub fn has_modifiers(&self) -> (b: bool)
        ensures
            b == (self.mods != 0),
    {
        self.mods != 0
    }
}

/// A key sequence and an optional alias
#[derive(Debug)]
pub struct Hotkey {
    /// Key chord sequence
    pub chords: Vec<KeyChord>,
    /// Alias
    pub alias: Option<String>,
}

/// A hotkey as a mathematical value.
pub struct HotkeyView {
    /// Key chord sequence
    pub chords: Seq<KeyChord>,
    /// Alias
    pub alias: Option<Seq<char>>,
}

impl View for Hotkey {
    type V = HotkeyView;

    open spec fn view(&self) -> HotkeyView {
        HotkeyView {
            chords: self.chords@,
            alias: match self.alias {
                Some(a) => Some(a@),
                None => None,
            },
        }
    }
}

/// Texts joined with one space between neighbours.
pub open spec fn join_spaced(ts: Seq<Seq<char>>) -> Seq<char>
    decreases ts.len(),
{
    if ts.len() == 0 {
        seq![]
    } else if ts.len() == 1 {
        ts[0]
    } else {
        join_spaced(ts.drop_last()) + seq![' '] + ts.last()
    }
}

/// How a hotkey is shown: its alias if it has one, else its chords' texts
/// separated by spaces.
pub open spec fn hotkey_text(h: HotkeyView, chord_texts: Seq<Seq<char>>) -> Seq<char> {
    match h.alias {
        Some(a) => a,
        None => join_spaced(chord_texts),
    }
}

fn copy_chords(v: &[KeyChord]) -> (r: Vec<KeyChord>)
    ensures
        r@ == v@,
{
    let mut r: Vec<KeyChord> = Vec::new();
    let mut i: usize = 0;
    while i < v.len()
        invariant
            i <= v@.len(),
            r@ == v@.subrange(0, i as int),
        decreases v@.len() - i,
    {
        r.push(v[i]);
        i = i + 1;
    }
    assert(r@ =~= v@);
    r
}

/// A copy of a string.
pub fn copy_string(s: &String) -> (r: String)
    ensures
        r@ == s@,
{
    let mut r = String::new();
    push_str(&mut r, s.as_str());
    r
}

impl Hotkey {
    /// New hotkey from a chord sequence.
    pub fn new(chords: Vec<KeyChord>) -> (h: Hotkey)
        ensures
            h@.chords == chords@,
            h@.alias is None,
    {
        Hotkey { chords, alias: None }
    }

    /// Return an empty hotkey.
    pub fn empty() -> (h: Hotkey)
        ensures
            h@.chords.len() == 0,
            h@.alias is None,
    {
        Hotkey { chords: Vec::new(), alias: None }
    }

    /// Define an alias.
    pub fn alias(self, name: String) -> (h: Hotkey)
        ensures
            h@.chords == self@.chords,
            h@.alias == Some(name@),
    {
        Hotkey { chords: self.chords, alias: Some(name) }
    }

    /// Whether this hotkey's chords are exactly `other`.
    pub fn eq_chords(&self, other: &[KeyChord]) -> (r: bool)
        ensures
            r == (self@.chords == other@),
    {
        if self.chords.len() != other.len() {
            return false;
        }
        let mut i: usize = 0;
        while i < other.len()
            invariant
                self.chords@.len() == other@.len(),
                i <= other@.len(),
                forall|j: int| 0 <= j < i ==> self.chords@[j] == other@[j],
            decreases other@.len() - i,
        {
            if self.chords[i] != other[i] {
                return false;
            }
            i = i + 1;
        }
        assert(self.chords@ =~= other@);
        true
    }

    /// A copy of this hotkey.
    pub fn copy(&self) -> (h: Hotkey)
        ensures
            h@ == self@,
    {
        let chords = copy_chords(self.chords.as_slice());
        let alias = match &self.alias {
            Some(a) => Some(copy_string(a)),
            None => None,
        };
        Hotkey { chords, alias }
    }

    /// The text of this hotkey given the text of each of its chords: the
    /// alias if there is one, else the chords separated by spaces.
    pub fn text(&self, chord_texts: &[String]) -> (s: String)
        requires
            chord_texts@.len() == self@.chords.len(),
        ensures
            s@ == hotkey_text(self@, strings_view(chord_texts@)),
    {
        match &self.alias {
            Some(a) => copy_string(a),
            None => {
                let ghost tv = strings_view(chord_texts@);
                let mut s = String::new();
                let mut i: usize = 0;
                while i < chord_texts.len()
                    invariant
                        tv == strings_view(chord_texts@),
                        i <= chord_texts@.len(),
                        s@ == join_spaced(tv.take(i as int)),
                    decreases chord_texts@.len() - i,
                {
                    assert(tv.take(i + 1).drop_last() =~= tv.take(i as int));
                    if i > 0 {
                        push_char(&mut s, ' ');
                    }
                    push_str(&mut s, chord_texts[i].as_str());
                    assert(tv.take(i + 1).last() == tv[i as int]);
                    proof {
                        if i == 0 {
                            assert(tv.take(1) =~= seq![tv[0]]);
                            assert(s@ =~= tv[0]);
                        } else {
                            assert(s@ =~= join_spaced(tv.take(i as int)) + seq![' '] + tv[i as int]);
                        }
                    }
                    i = i + 1;
                }
                assert(tv.take(chord_texts@.len() as int) =~= tv);
                s
            },
        }
    }
}

#[verifier::external_type_specification]
#[verifier::external_body]
pub struct ExKeyCode(bevy::input::keyboard::KeyCode);

/// The engine's key code at place `key` of its list of keys, found by
/// reflection (`Typed::type_info`, `EnumInfo::variant_at`, and
/// `FromReflect::from_reflect` of a unit `DynamicEnum`); a place that holds no
/// unit variant gives the unidentified key. Nothing is stated of the result.
#[verifier::external_body]
fn key_code(key: u32) -> bevy::input::keyboard::KeyCode {
    let info = <bevy::input::keyboard::KeyCode as bevy::reflect::Typed>::type_info();
    let name = match info.as_enum() {
        Ok(e) => e.variant_at(key as usize).map(|v| v.name()).unwrap_or(""),
        Err(_) => "",
    };
    let dynamic = bevy::reflect::DynamicEnum::new(name, bevy::reflect::DynamicVariant::Unit);
    <bevy::input::keyboard::KeyCode as bevy::reflect::FromReflect>::from_reflect(&dynamic)
        .unwrap_or(bevy::input::keyboard::KeyCode::Unidentified(
            bevy::input::keyboard::NativeKeyCode::Unidentified,
        ))
}

/// How the engine shows the chord of the key `key` with modifier bits `mods`.
pub uninterp spec fn chord_display(mods: u8, key: u32) -> Seq<char>;

/// The text of a chord (`Display` of `bevy_input_sequence::KeyChord`, built from
/// `keyseq::Modifiers::from_bits_truncate` of the bits and the key code): a
/// function of the chord alone.
#[verifier::external_body]
pub(crate) fn chord_text(c: KeyChord) -> (s: String)
    ensures
        s@ == chord_display(c.mods, c.key),
{
    bevy_input_sequence::KeyChord(keyseq::Modifiers::from_bits_truncate(c.mods), key_code(c.key))
        .to_string()
}

/// The texts of a list of chords.
pub open spec fn chord_displays(cs: Seq<KeyChord>) -> Seq<Seq<char>> {
    Seq::new(cs.len(), |i: int| chord_display(cs[i].mods, cs[i].key))
}

/// How a hotkey is shown by the engine.
pub open spec fn hotkey_display(h: HotkeyView) -> Seq<char> {
    hotkey_text(h, chord_displays(h.chords))
}

impl Hotkey {
    /// The hotkey as shown: its alias if it has one, else the text of its
    /// chords separated by spaces.
    pub fn display(&self) -> (s: String)
        ensures
            s@ == hotkey_display(self@),
    {
        let mut texts: Vec<String> = Vec::new();
        let mut i: usize = 0;
        while i < self.chords.len()
            invariant
                i <= self@.chords.len(),
                texts@.len() == i,
                forall|j: int| 0 <= j < i ==> (#[trigger] texts@[j])@ == chord_display(
                    self@.chords[j].mods,
                    self@.chords[j].key,
                ),
            decreases self@.chords.len() - i,
        {
            texts.push(chord_text(self.chords[i]));
            i = i + 1;
        }
        assert(strings_view(texts@) =~= chord_displays(self@.chords));
        self.text(texts.as_slice())
    }
}

} // verus!
