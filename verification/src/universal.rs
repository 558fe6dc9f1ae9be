//! An act adverb that accepts a numerical prefix
//!
//! Typing the universal argument's key and then digits, say `Ctrl-U 1 0`,
//! sets the universal argument to 10 for the next act. Typing its key again
//! multiplies the argument by the multiplier, four by default.
use crate::chars::{decimal, push_char, push_decimal, push_str};
use crate::flags::{ActFlags, has_bits, ADVERB};
use crate::hotkey::{Hotkey, KeyChord, hotkey_text};
use crate::keys::{BACKSPACE, DIGIT_0, DIGIT_9, MINUS};
use crate::lookup::strings_view;
use vstd::prelude::*;
use vstd::arithmetic::power::pow;

verus! {

/// Universal argument multiplier
///
/// When universal argument's key binding is invoked multiple times, its
/// multiplied by the number stored in this resource. By default that number is
/// four initially.
#[derive(Debug, Clone, Copy, PartialEq, Eq, Structural)]
pub struct Multiplier(pub i32);

impl Default for Multiplier {
    fn default() -> (m: Multiplier)
        ensures
            m.0 == 4,
    {
        Multiplier(4)
    }
}

/// This holds the last given universal argument. It is cleared after any
/// act---that is not specifically marked as an adverb---runs.
#[derive(Debug, Clone, Copy, PartialEq, Eq, Structural)]
pub struct UniversalArg(pub Option<i32>);

impl Default for UniversalArg {
    fn default() -> (u: UniversalArg)
        ensures
            u.0 is None,
    {
        UniversalArg(None)
    }
}

/// A key as the universal argument reads it.
#[derive(Debug, Clone, Copy, PartialEq, Eq, Structural)]
pub enum ArgKey {
    /// A digit key, `0` to `9`.
    Digit(u8),
    /// The minus key.
    Minus,
    /// The backspace key.
    Backspace,
    /// Any other key.
    Other,
}

/// What reading the universal argument does after a chord.
#[derive(Debug)]
pub enum ArgStep {
    /// Keep reading chords and show this message.
    Continue(String),
    /// Stop reading: set the universal argument to `arg` and send the chord
    /// back to be processed.
    Finish { arg: i32, requeue: KeyChord },
    /// Stop reading and leave the universal argument alone.
    Abort,
}

/// The state of reading a universal argument.
#[derive(Debug, Clone, Copy, PartialEq, Eq, Structural)]
pub struct UniversalArgState {
    /// The number read so far.
    pub accum: i32,
    /// Whether any key has changed the number.
    pub accumulated: bool,
    /// The multiplier.
    pub multiplier: i32,
    /// The chord of the act's hotkey, if it has a single-chord one.
    pub bindkey: Option<KeyChord>,
}

/// The number after one key: the act's own chord multiplies it (starting
/// from the multiplier squared), a digit is appended on the side of its sign,
/// minus flips the sign and backspace drops the last digit.
pub open spec fn arg_next(accum: int, mult: int, is_bind: bool, key: ArgKey) -> int {
    if is_bind {
        if accum == 0 {
            mult * mult
        } else {
            accum * mult
        }
    } else {
        match key {
            ArgKey::Digit(d) => if accum >= 0 {
                accum * 10 + d
            } else {
                accum * 10 - d
            },
            ArgKey::Minus => -accum,
            ArgKey::Backspace => if accum >= 0 {
                accum / 10
            } else {
                -((-accum) / 10)
            },
            ArgKey::Other => accum,
        }
    }
}

/// An integer written in decimal, with a leading minus sign when negative.
pub open spec fn int_text(n: int) -> Seq<char> {
    if n < 0 {
        seq!['-'] + decimal((-n) as nat)
    } else {
        decimal(n as nat)
    }
}

/// The message shown while reading: the prompt, a space and the number.
pub open spec fn arg_message(prompt: Seq<char>, n: int) -> Seq<char> {
    prompt + seq![' '] + int_text(n)
}

/// Whether a key changes the number, rather than ending the reading: a
/// chord with no modifiers whose key is a digit, minus or backspace.
pub open spec fn edits(chord: KeyChord, key: ArgKey) -> bool {
    &&& chord.mods == 0
    &&& match key {
        ArgKey::Digit(d) => d < 10,
        ArgKey::Minus => true,
        ArgKey::Backspace => true,
        ArgKey::Other => false,
    }
}

/// The chord is the act's own single-chord hotkey.
pub open spec fn is_bind(state: UniversalArgState, chord: KeyChord) -> bool {
    state.bindkey == Some(chord)
}

/// The next number fits in an `i32` wherever the reading goes on.
pub open spec fn step_fits(state: UniversalArgState, chord: Option<KeyChord>, key: ArgKey) -> bool {
    match chord {
        Some(c) => (is_bind(state, c) || edits(c, key)) ==> i32::MIN <= arg_next(
            state.accum as int,
            state.multiplier as int,
            is_bind(state, c),
            key,
        ) <= i32::MAX,
        None => true,
    }
}

/// What one step of reading does, for every chord and key.
pub open spec fn step_matches(
    old_state: UniversalArgState,
    new_state: UniversalArgState,
    prompt: Seq<char>,
    chord: Option<KeyChord>,
    key: ArgKey,
    r: ArgStep,
) -> bool {
    match chord {
        None => r is Abort && new_state == old_state,
        Some(c) => if is_bind(old_state, c) || edits(c, key) {
            let n = arg_next(old_state.accum as int, old_state.multiplier as int, is_bind(old_state, c), key);
            &&& new_state == (UniversalArgState { accum: n as i32, accumulated: true, ..old_state })
            &&& r matches ArgStep::Continue(m) && m@ == arg_message(prompt, n)
        } else {
            &&& new_state == old_state
            &&& r matches ArgStep::Finish { arg, requeue } && requeue == c && arg == (if old_state.accumulated {
                old_state.accum
            } else {
                old_state.multiplier
            })
        },
    }
}

/// The size of a number, whatever its sign.
pub open spec fn magnitude(n: int) -> int {
    if n < 0 {
        -n
    } else {
        n
    }
}

/// A digit typed while reading is appended to the number on the side of its
/// sign: the number's size becomes ten times its old size plus the digit, and
/// its sign stays, whatever the number was before.
pub proof fn lemma_digit_appends(
    old_state: UniversalArgState,
    new_state: UniversalArgState,
    prompt: Seq<char>,
    c: KeyChord,
    d: u8,
    r: ArgStep,
)
    requires
        d < 10,
        c.mods == 0,
        old_state.bindkey != Some(c),
        step_fits(old_state, Some(c), ArgKey::Digit(d)),
        step_matches(old_state, new_state, prompt, Some(c), ArgKey::Digit(d), r),
    ensures
        magnitude(new_state.accum as int) == 10 * magnitude(old_state.accum as int) + d,
        old_state.accum < 0 ==> new_state.accum < 0,
        old_state.accum >= 0 ==> new_state.accum >= 0,
        new_state.accumulated,
        new_state.multiplier == old_state.multiplier,
        r matches ArgStep::Continue(m) && m@ == arg_message(prompt, new_state.accum as int),
{
}

fn push_int(s: &mut String, n: i64)
    requires
        n > i64::MIN,
    ensures
        final(s)@ == old(s)@ + int_text(n as int),
{
    if n < 0 {
        push_char(s, '-');
        push_decimal(s, (-n) as u64);
        assert(final(s)@ =~= old(s)@ + int_text(n as int));
    } else {
        push_decimal(s, n as u64);
    }
}

impl UniversalArgState {
    /// A fresh reading with the given multiplier and act chord.
    pub fn new(multiplier: i32, bindkey: Option<KeyChord>) -> (s: UniversalArgState)
        ensures
            s.accum == 0,
            !s.accumulated,
            s.multiplier == multiplier,
            s.bindkey == bindkey,
    {
        UniversalArgState { accum: 0, accumulated: false, multiplier, bindkey }
    }

    /// Reads one chord, or its absence where it could not be had. `key` says
    /// what the chord's key is to the reader.
    pub fn step(&mut self, prompt: &str, chord: Option<KeyChord>, key: ArgKey) -> (r: ArgStep)
        requires
            step_fits(*old(self), chord, key),
        ensures
            step_matches(*old(self), *final(self), prompt@, chord, key, r),
    {
        match self.try_step(prompt, chord, key) {
            Some(r) => r,
            None => ArgStep::Abort,
        }
    }

    /// Reads one chord as [UniversalArgState::step] does where the next
    /// number fits in an `i32`; otherwise gives nothing and leaves the
    /// reading as it was.
    pub fn try_step(&mut self, prompt: &str, chord: Option<KeyChord>, key: ArgKey) -> (r: Option<ArgStep>)
        ensures
            step_fits(*old(self), chord, key) ==> (r matches Some(s) && step_matches(
                *old(self),
                *final(self),
                prompt@,
                chord,
                key,
                s,
            )),
            !step_fits(*old(self), chord, key) ==> r is None && *final(self) == *old(self),
    {
        let c = match chord {
            None => {
                return Some(ArgStep::Abort);
            },
            Some(c) => c,
        };
        let bind = match self.bindkey {
            Some(b) => b == c,
            None => false,
        };
        let edit = c.mods == 0 && match key {
            ArgKey::Digit(d) => d < 10,
            ArgKey::Minus => true,
            ArgKey::Backspace => true,
            ArgKey::Other => false,
        };
        if !bind && !edit {
            let arg = if self.accumulated {
                self.accum
            } else {
                self.multiplier
            };
            return Some(ArgStep::Finish { arg, requeue: c });
        }
        let a = self.accum as i64;
        let m = self.multiplier as i64;
        assert(-0x8000_0000 <= a < 0x8000_0000 && -0x8000_0000 <= m < 0x8000_0000);
        let n: i64 = if bind {
            if a == 0 {
                assert(-0x4000_0000_0000_0000 <= m * m <= 0x4000_0000_0000_0000) by (nonlinear_arith)
                    requires
                        -0x8000_0000 <= m < 0x8000_0000,
                ;
                m * m
            } else {
                assert(-0x4000_0000_0000_0000 <= a * m <= 0x4000_0000_0000_0000) by (nonlinear_arith)
                    requires
                        -0x8000_0000 <= m < 0x8000_0000,
                        -0x8000_0000 <= a < 0x8000_0000,
                ;
                a * m
            }
        } else {
            match key {
                ArgKey::Digit(d) => if a >= 0 {
                    a * 10 + d as i64
                } else {
                    a * 10 - d as i64
                },
                ArgKey::Minus => -a,
                ArgKey::Backspace => if a >= 0 {
                    a / 10
                } else {
                    -((-a) / 10)
                },
                ArgKey::Other => a,
            }
        };
        assert(n == arg_next(self.accum as int, self.multiplier as int, bind, key));
        if n < -0x8000_0000 || n > 0x7fff_ffff {
            return None;
        }
        self.accum = n as i32;
        self.accumulated = true;
        let mut msg = String::new();
        push_str(&mut msg, prompt);
        push_char(&mut msg, ' ');
        push_int(&mut msg, n);
        assert(msg@ =~= arg_message(prompt@, n as int));
        Some(ArgStep::Continue(msg))
    }
}

/// What a key is to the reader of the universal argument: the digit keys
/// give their digit, the minus key minus, the backspace key backspace, and
/// any other key is other.
pub open spec fn arg_key_of(key: u32) -> ArgKey {
    if DIGIT_0 <= key <= DIGIT_9 {
        ArgKey::Digit((key - DIGIT_0) as u8)
    } else if key == MINUS {
        ArgKey::Minus
    } else if key == BACKSPACE {
        ArgKey::Backspace
    } else {
        ArgKey::Other
    }
}

/// What a key is to the reader of the universal argument.
pub fn arg_key(key: u32) -> (k: ArgKey)
    ensures
        k == arg_key_of(key),
{
    if DIGIT_0 <= key && key <= DIGIT_9 {
        ArgKey::Digit((key - DIGIT_0) as u8)
    } else if key == MINUS {
        ArgKey::Minus
    } else if key == BACKSPACE {
        ArgKey::Backspace
    } else {
        ArgKey::Other
    }
}

/// The prompt and the fresh state for reading a universal argument after
/// the act ran from `hotkey`, whose chords read as `chord_texts`: the prompt
/// is the hotkey's text, or the act's name where no hotkey ran it; the act's
/// chord is the hotkey's only chord, if it has exactly one.
pub fn universal_arg_setup(
    hotkey: Option<&Hotkey>,
    chord_texts: &[String],
    multiplier: i32,
) -> (r: (String, UniversalArgState))
    requires
        hotkey matches Some(h) ==> chord_texts@.len() == h@.chords.len(),
    ensures
        r.1 == UniversalArgState::new_spec(multiplier, match hotkey {
            Some(h) => if h@.chords.len() == 1 {
                Some(h@.chords[0])
            } else {
                None
            },
            None => None,
        }),
        r.0@ == match hotkey {
            Some(h) => hotkey_text(h@, strings_view(chord_texts@)),
            None => seq!['u', 'n', 'i', 'v', 'e', 'r', 's', 'a', 'l', '_', 'a', 'r', 'g'],
        },
{
    match hotkey {
        Some(h) => {
            let bindkey = if h.chords.len() == 1 {
                Some(h.chords[0])
            } else {
                None
            };
            (h.text(chord_texts), UniversalArgState::new(multiplier, bindkey))
        },
        None => {
            let mut prompt = String::new();
            push_str(&mut prompt, "universal_arg");
            proof {
                reveal_strlit("universal_arg");
            }
            (prompt, UniversalArgState::new(multiplier, None))
        },
    }
}

impl UniversalArgState {
    /// A fresh reading, as a mathematical value.
    pub open spec fn new_spec(multiplier: i32, bindkey: Option<KeyChord>) -> UniversalArgState {
        UniversalArgState { accum: 0, accumulated: false, multiplier, bindkey }
    }
}

/// Whether any of the acts run in a frame is no adverb.
pub open spec fn any_plain(runs: Seq<ActFlags>) -> bool {
    exists|i: int| 0 <= i < runs.len() && !has_bits(#[trigger] runs[i].bits, ADVERB)
}

/// What one frame of clearing does: the argument is cleared if an act
/// asked for it last frame, and clearing is asked for next frame if any act
/// run this frame is no adverb.
pub open spec fn clear_arg_spec(pending: bool, runs: Seq<ActFlags>, arg: Option<i32>) -> (Option<i32>, bool) {
    (
        if pending {
            None
        } else {
            arg
        },
        any_plain(runs),
    )
}

/// What clearing the universal argument does in one frame, given the flags
/// of the acts run in it: it clears the argument if an act asked for it last
/// frame, and asks for it next frame if any act run this frame is not an
/// adverb.
pub fn clear_arg_step(pending: bool, runs: &[ActFlags], arg: &mut UniversalArg) -> (next_pending: bool)
    ensures
        (final(arg).0, next_pending) == clear_arg_spec(pending, runs@, old(arg).0),
{
    let mut plain = false;
    let mut i: usize = 0;
    while i < runs.len()
        invariant
            i <= runs@.len(),
            plain == exists|j: int| 0 <= j < i && !has_bits(#[trigger] runs@[j].bits, ADVERB),
        decreases runs@.len() - i,
    {
        if !runs[i].contains(ActFlags::adverb()) {
            plain = true;
        }
        i = i + 1;
    }
    if pending {
        arg.0 = None;
    }
    plain
}

/// The universal argument is cleared the frame after a frame in which some
/// act that is no adverb runs, whatever runs then; a frame of adverbs alone
/// leaves it for the acts after them.
pub proof fn lemma_arg_cleared_after_act(
    pending: bool,
    runs: Seq<ActFlags>,
    next: Seq<ActFlags>,
    arg: Option<i32>,
)
    ensures
        any_plain(runs) ==> clear_arg_spec(
            clear_arg_spec(pending, runs, arg).1,
            next,
            clear_arg_spec(pending, runs, arg).0,
        ).0 is None,
        (forall|i: int| 0 <= i < runs.len() ==> has_bits(#[trigger] runs[i].bits, ADVERB)) && !pending
            ==> clear_arg_spec(pending, runs, arg) == (arg, false),
{
}

/// Over two frames: where an act that is no adverb runs in a frame with no
/// clear pending, the argument it may read stays through that frame and is
/// gone after the next, whatever runs then; a frame in which only adverbs run
/// leaves the argument as it is and asks for no clear.
pub proof fn lemma_arg_two_frames(runs: Seq<ActFlags>, next: Seq<ActFlags>, n: i32)
    ensures
        any_plain(runs) ==> {
            let first = clear_arg_spec(false, runs, Some(n));
            &&& first.0 == Some(n)
            &&& clear_arg_spec(first.1, next, first.0).0 is None
        },
        (forall|i: int| 0 <= i < runs.len() ==> has_bits(#[trigger] runs[i].bits, ADVERB))
            ==> clear_arg_spec(false, runs, Some(n)) == (Some(n), false),
{
}

/// What the act that displays the universal argument shows: its value as
/// `Some(n)` or `None`, then whether it is set.
pub open spec fn arg_display(arg: Option<i32>) -> Seq<char> {
    match arg {
        Some(n) => "Some("@ + int_text(n as int) + ") true"@,
        None => "None false"@,
    }
}

/// The text showing the universal argument.
pub fn display_universal_arg(arg: &UniversalArg) -> (s: String)
    ensures
        s@ == arg_display(arg.0),
{
    let mut s = String::new();
    match arg.0 {
        Some(n) => {
            push_str(&mut s, "Some(");
            push_int(&mut s, n as i64);
            push_str(&mut s, ") true");
        },
        None => push_str(&mut s, "None false"),
    }
    s
}

/// The value of a sequence of decimal digits.
pub open spec fn digits_value(ds: Seq<u8>) -> int
    decreases ds.len(),
{
    if ds.len() == 0 {
        0
    } else {
        digits_value(ds.drop_last()) * 10 + ds.last()
    }
}

/// The number after reading the digits `ds` from `accum`.
pub open spec fn after_digits(accum: int, mult: int, ds: Seq<u8>) -> int
    decreases ds.len(),
{
    if ds.len() == 0 {
        accum
    } else {
        arg_next(after_digits(accum, mult, ds.drop_last()), mult, false, ArgKey::Digit(ds.last()))
    }
}

/// The number after reading the act's own chord `k` times from `accum`.
pub open spec fn after_binds(accum: int, mult: int, k: nat) -> int
    decreases k,
{
    if k == 0 {
        accum
    } else {
        arg_next(after_binds(accum, mult, (k - 1) as nat), mult, true, ArgKey::Other)
    }
}

/// Typing digits from a fresh reading gives the number they write: typing
/// `1 0` gives 10.
pub proof fn lemma_digits_give_number(mult: int, ds: Seq<u8>)
    requires
        forall|i: int| 0 <= i < ds.len() ==> ds[i] < 10,
    ensures
        after_digits(0, mult, ds) == digits_value(ds),
        digits_value(ds) >= 0,
    decreases ds.len(),
{
    if ds.len() > 0 {
        lemma_digits_give_number(mult, ds.drop_last());
    }
}

/// Typing the act's own chord `k` times (at least once) from a fresh
/// reading gives the multiplier to the power `k + 1`: with the multiplier
/// four, once gives 16 and twice 64.
pub proof fn lemma_binds_multiply(mult: int, k: nat)
    requires
        k >= 1,
    ensures
        after_binds(0, mult, k) == pow(mult, k + 1),
        mult != 0 ==> after_binds(0, mult, k) != 0,
    decreases k,
{
    reveal(pow);
    if k == 1 {
        assert(pow(mult, 0) == 1);
        assert(pow(mult, 1) == mult * pow(mult, 0));
        assert(pow(mult, 2) == mult * pow(mult, 1));
        assert(after_binds(0, mult, 0) == 0);
        assert(mult != 0 ==> mult * mult != 0) by (nonlinear_arith);
    } else {
        lemma_binds_multiply(mult, (k - 1) as nat);
        let prev = after_binds(0, mult, (k - 1) as nat);
        assert(pow(mult, k + 1) == mult * pow(mult, k));
        assert(prev * mult == mult * prev) by (nonlinear_arith);
        if mult == 0 {
            assert(pow(mult, k + 1) == 0);
            assert(prev == 0);
        } else {
            assert(prev != 0 && mult != 0 ==> prev * mult != 0) by (nonlinear_arith);
        }
    }
}

} // verus!
