//! Key codes, modifier keys, and the queue of key chords handed to acts that
//! ask for one.
//!
//! A key code is numbered by its place in the engine's list of physical keys.
use crate::hotkey::KeyChord;
use vstd::prelude::*;

verus! {

/// The backquote key.
pub const BACKQUOTE: u32 = 1;
/// The digit 0 key.
pub const DIGIT_0: u32 = 6;
/// The digit 2 key.
pub const DIGIT_2: u32 = 8;
/// The digit 9 key.
pub const DIGIT_9: u32 = 15;
/// The A key.
pub const KEY_A: u32 = 20;
/// The B key.
pub const KEY_B: u32 = 21;
/// The H key.
pub const KEY_H: u32 = 27;
/// The K key.
pub const KEY_K: u32 = 30;
/// The Q key.
pub const KEY_Q: u32 = 36;
/// The U key.
pub const KEY_U: u32 = 40;
/// The X key.
pub const KEY_X: u32 = 43;
/// The minus key.
pub const MINUS: u32 = 46;
/// The period key.
pub const PERIOD: u32 = 47;
/// The semicolon key.
pub const SEMICOLON: u32 = 49;
/// The left alt key.
pub const ALT_LEFT: u32 = 51;
/// The right alt key.
pub const ALT_RIGHT: u32 = 52;
/// The backspace key.
pub const BACKSPACE: u32 = 53;
/// The left control key.
pub const CONTROL_LEFT: u32 = 56;
/// The right control key.
pub const CONTROL_RIGHT: u32 = 57;
/// The left super key.
pub const SUPER_LEFT: u32 = 59;
/// The right super key.
pub const SUPER_RIGHT: u32 = 60;
/// The left shift key.
pub const SHIFT_LEFT: u32 = 61;
/// The right shift key.
pub const SHIFT_RIGHT: u32 = 62;

/// The control modifier bit.
pub const CONTROL: u8 = 1;
/// The alt modifier bit.
pub const ALT: u8 = 2;
/// The shift modifier bit.
pub const SHIFT: u8 = 4;
/// The super modifier bit.
pub const SUPER: u8 = 8;

/// The modifier a key is, as bits; no bits for a key that is no modifier.
pub open spec fn modifier_bits(key: u32) -> u8 {
    if key == SHIFT_LEFT || key == SHIFT_RIGHT {
        SHIFT
    } else if key == CONTROL_LEFT || key == CONTROL_RIGHT {
        CONTROL
    } else if key == ALT_LEFT || key == ALT_RIGHT {
        ALT
    } else if key == SUPER_LEFT || key == SUPER_RIGHT {
        SUPER
    } else {
        0
    }
}

/// The modifier a key is, as bits.
pub fn key_modifiers(key: u32) -> (m: u8)
    ensures
        m == modifier_bits(key),
{
    if key == SHIFT_LEFT || key == SHIFT_RIGHT {
        SHIFT
    } else if key == CONTROL_LEFT || key == CONTROL_RIGHT {
        CONTROL
    } else if key == ALT_LEFT || key == ALT_RIGHT {
        ALT
    } else if key == SUPER_LEFT || key == SUPER_RIGHT {
        SUPER
    } else {
        0
    }
}

/// Returns true if the key is a modifier key.
pub fn is_modifier(key: u32) -> (b: bool)
    ensures
        b == (modifier_bits(key) != 0),
{
    key_modifiers(key) != 0
}

/// Whether `a` or `b` is among the keys held.
pub open spec fn either_held(held: Seq<u32>, a: u32, b: u32) -> bool {
    held.contains(a) || held.contains(b)
}

/// The modifier bits of the keys held down: a modifier is on when its left
/// or right key is held.
pub open spec fn held_bits(held: Seq<u32>) -> u8 {
    (if either_held(held, SHIFT_LEFT, SHIFT_RIGHT) { SHIFT } else { 0 }) | (if either_held(
        held,
        CONTROL_LEFT,
        CONTROL_RIGHT,
    ) {
        CONTROL
    } else {
        0
    }) | (if either_held(held, ALT_LEFT, ALT_RIGHT) { ALT } else { 0 }) | (if either_held(
        held,
        SUPER_LEFT,
        SUPER_RIGHT,
    ) {
        SUPER
    } else {
        0
    })
}

fn held_any(held: &[u32], a: u32, b: u32) -> (r: bool)
    ensures
        r == either_held(held@, a, b),
{
    let mut i: usize = 0;
    while i < held.len()
        invariant
            i <= held@.len(),
            forall|j: int| 0 <= j < i ==> held@[j] != a && held@[j] != b,
        decreases held@.len() - i,
    {
        if held[i] == a || held[i] == b {
            assert(held@[i as int] == a ==> held@.contains(a));
            assert(held@[i as int] == b ==> held@.contains(b));
            return true;
        }
        i = i + 1;
    }
    false
}

/// Whether `key` is among `keys`.
pub fn contains_key(keys: &[u32], key: u32) -> (r: bool)
    ensures
        r == keys@.contains(key),
{
    let mut i: usize = 0;
    while i < keys.len()
        invariant
            i <= keys@.len(),
            forall|j: int| 0 <= j < i ==> keys@[j] != key,
        decreases keys@.len() - i,
    {
        if keys[i] == key {
            assert(keys@[i as int] == key);
            return true;
        }
        i = i + 1;
    }
    false
}

/// The modifiers held, from the keys held down.
pub fn held_modifiers(held: &[u32]) -> (m: u8)
    ensures
        m == held_bits(held@),
{
    let s: u8 = if held_any(held, SHIFT_LEFT, SHIFT_RIGHT) { SHIFT } else { 0 };
    let c: u8 = if held_any(held, CONTROL_LEFT, CONTROL_RIGHT) { CONTROL } else { 0 };
    let a: u8 = if held_any(held, ALT_LEFT, ALT_RIGHT) { ALT } else { 0 };
    let p: u8 = if held_any(held, SUPER_LEFT, SUPER_RIGHT) { SUPER } else { 0 };
    s | c | a | p
}

/// Whether the key is one of the eight modifier keys: left or right shift,
/// control, alt or super.
pub open spec fn is_modifier_key(k: u32) -> bool {
    k == SHIFT_LEFT || k == SHIFT_RIGHT || k == CONTROL_LEFT || k == CONTROL_RIGHT || k == ALT_LEFT
        || k == ALT_RIGHT || k == SUPER_LEFT || k == SUPER_RIGHT
}

/// Each of the eight modifier keys gives its own modifier bit, the one that
/// holding it down sets; every other key gives none.
pub proof fn lemma_modifier_keys(k: u32)
    ensures
        (k == SHIFT_LEFT || k == SHIFT_RIGHT) ==> modifier_bits(k) == SHIFT,
        (k == CONTROL_LEFT || k == CONTROL_RIGHT) ==> modifier_bits(k) == CONTROL,
        (k == ALT_LEFT || k == ALT_RIGHT) ==> modifier_bits(k) == ALT,
        (k == SUPER_LEFT || k == SUPER_RIGHT) ==> modifier_bits(k) == SUPER,
        (modifier_bits(k) != 0) <==> is_modifier_key(k),
        modifier_bits(k) == held_bits(seq![k]),
{
    let h = seq![k];
    assert(h[0] == k);
    assert(h.contains(k));
    assert forall|a: u32| h.contains(a) implies a == k by {
        let i = choose|i: int| 0 <= i < h.len() && h[i] == a;
        assert(h[i] == k);
    }
    assert(4u8 | 0u8 | 0u8 | 0u8 == 4u8) by (bit_vector);
    assert(0u8 | 1u8 | 0u8 | 0u8 == 1u8) by (bit_vector);
    assert(0u8 | 0u8 | 2u8 | 0u8 == 2u8) by (bit_vector);
    assert(0u8 | 0u8 | 0u8 | 8u8 == 8u8) by (bit_vector);
    assert(0u8 | 0u8 | 0u8 | 0u8 == 0u8) by (bit_vector);
}

/// The chords handed out for keys just pressed never have a modifier key as
/// their key, and each carries the modifiers held.
pub proof fn lemma_chords_skip_modifiers(mods: u8, pressed: Seq<u32>)
    ensures
        forall|i: int|
            0 <= i < chords_of(mods, pressed).len() ==> !is_modifier_key(#[trigger] chords_of(mods, pressed)[i].key)
                && chords_of(mods, pressed)[i].mods == mods && pressed.contains(chords_of(mods, pressed)[i].key),
    decreases pressed.len(),
{
    if pressed.len() > 0 {
        lemma_chords_skip_modifiers(mods, pressed.drop_last());
        lemma_modifier_keys(pressed.last());
        let prev = chords_of(mods, pressed.drop_last());
        assert forall|i: int| 0 <= i < prev.len() implies pressed.contains(#[trigger] prev[i].key) by {
            let j = choose|j: int| 0 <= j < pressed.drop_last().len() && pressed.drop_last()[j] == prev[i].key;
            assert(pressed[j] == prev[i].key);
        }
        assert(pressed[pressed.len() - 1] == pressed.last());
    }
}

/// The chords of the keys just pressed that are no modifiers, each with the
/// modifiers `mods`, in order.
pub open spec fn chords_of(mods: u8, pressed: Seq<u32>) -> Seq<KeyChord>
    decreases pressed.len(),
{
    if pressed.len() == 0 {
        Seq::empty()
    } else if modifier_bits(pressed.last()) == 0 {
        chords_of(mods, pressed.drop_last()).push(KeyChord { mods, key: pressed.last() })
    } else {
        chords_of(mods, pressed.drop_last())
    }
}

/// The chords of the keys just pressed, modifiers themselves left out.
pub fn pressed_chords(mods: u8, pressed: &[u32]) -> (v: Vec<KeyChord>)
    ensures
        v@ == chords_of(mods, pressed@),
{
    let mut v: Vec<KeyChord> = Vec::new();
    let mut i: usize = 0;
    while i < pressed.len()
        invariant
            i <= pressed@.len(),
            v@ == chords_of(mods, pressed@.take(i as int)),
        decreases pressed@.len() - i,
    {
        assert(pressed@.take(i + 1).drop_last() =~= pressed@.take(i as int));
        assert(pressed@.take(i + 1).last() == pressed@[i as int]);
        if !is_modifier(pressed[i]) {
            v.push(KeyChord { mods, key: pressed[i] });
        }
        i = i + 1;
    }
    assert(pressed@.take(pressed@.len() as int) =~= pressed@);
    v
}

/// Key chords waiting to be handed to an act that asks for one.
#[derive(Debug)]
pub struct ChordQueue {
    /// The chords waiting, oldest first.
    pub pending: Vec<KeyChord>,
}

impl Default for ChordQueue {
    fn default() -> (q: ChordQueue)
        ensures
            q.pending@ == Seq::<KeyChord>::empty(),
    {
        ChordQueue { pending: Vec::new() }
    }
}

/// One step of the queue: the chords waiting, then those just pressed; the
/// first of them is handed out and the rest wait.
pub open spec fn queue_step(pending: Seq<KeyChord>, pressed: Seq<KeyChord>) -> (
    Option<KeyChord>,
    Seq<KeyChord>,
) {
    let all = pending + pressed;
    if all.len() == 0 {
        (None, all)
    } else {
        (Some(all[0]), all.drop_first())
    }
}

impl ChordQueue {
    /// Hand out the oldest chord, waiting or just pressed, and keep the rest
    /// waiting.
    pub fn next_chord(&mut self, pressed: Vec<KeyChord>) -> (r: Option<KeyChord>)
        ensures
            (r, final(self).pending@) == queue_step(old(self).pending@, pressed@),
    {
        let mut all: Vec<KeyChord> = Vec::new();
        std::mem::swap(&mut all, &mut self.pending);
        let mut i: usize = 0;
        let ghost p0 = all@;
        while i < pressed.len()
            invariant
                i <= pressed@.len(),
                all@ == p0 + pressed@.take(i as int),
            decreases pressed@.len() - i,
        {
            all.push(pressed[i]);
            i = i + 1;
            assert(all@ =~= p0 + pressed@.take(i as int));
        }
        assert(pressed@.take(pressed@.len() as int) =~= pressed@);
        if all.len() == 0 {
            self.pending = all;
            None
        } else {
            let first = all.remove(0);
            self.pending = all;
            Some(first)
        }
    }
}

/// All the chords of the batches, in order.
pub open spec fn concat_all(bs: Seq<Seq<KeyChord>>) -> Seq<KeyChord>
    decreases bs.len(),
{
    if bs.len() == 0 {
        Seq::empty()
    } else {
        concat_all(bs.drop_last()) + bs.last()
    }
}

/// The chords handed out over several steps, and those left waiting.
pub open spec fn run_queue(pending: Seq<KeyChord>, bs: Seq<Seq<KeyChord>>) -> (
    Seq<KeyChord>,
    Seq<KeyChord>,
)
    decreases bs.len(),
{
    if bs.len() == 0 {
        (Seq::empty(), pending)
    } else {
        let (handed, waiting) = run_queue(pending, bs.drop_last());
        let (r, rest) = queue_step(waiting, bs.last());
        match r {
            Some(c) => (handed.push(c), rest),
            None => (handed, rest),
        }
    }
}

/// No chord is lost, doubled or reordered: the chords handed out, followed
/// by those still waiting, are the chords that waited at first followed by
/// all the chords pressed, in order.
pub proof fn lemma_queue_keeps_order(pending: Seq<KeyChord>, bs: Seq<Seq<KeyChord>>)
    ensures
        run_queue(pending, bs).0 + run_queue(pending, bs).1 == pending + concat_all(bs),
    decreases bs.len(),
{
    if bs.len() == 0 {
        assert(Seq::<KeyChord>::empty() + pending =~= pending + Seq::<KeyChord>::empty());
    } else {
        lemma_queue_keeps_order(pending, bs.drop_last());
        let (handed, waiting) = run_queue(pending, bs.drop_last());
        let all = waiting + bs.last();
        assert(pending + concat_all(bs) =~= (pending + concat_all(bs.drop_last())) + bs.last());
        if all.len() > 0 {
            assert(handed.push(all[0]) + all.drop_first() =~= handed + all);
        }
        assert(handed + all =~= (handed + waiting) + bs.last());
    }
}

} // verus!
