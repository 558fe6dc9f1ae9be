//! Act flags: a small set of bits that say how an act behaves.
use vstd::prelude::*;

verus! {

/// `Active | RunAct | Adverb | ShowMinibuffer | Record`
#[derive(Clone, Copy, Debug, PartialEq, Eq, Hash, Structural)]
pub struct ActFlags {
    /// The raw bits.
    pub bits: u8,
}

/// Bit of an act that is active.
pub const ACTIVE: u8 = 0b00000001;

/// Bit of an act that is shown by `run_act`.
pub const RUN_ACT: u8 = 0b00000010;

/// Bit of an act that usually runs another act, like `run_act`.
pub const ADVERB: u8 = 0b00000100;

/// Bit of an act that shows the minibuffer when run.
pub const SHOW_MINIBUFFER: u8 = 0b00001000;

/// Bit of an act that is recordable.
pub const RECORD: u8 = 0b00010000;

/// All the bits a flag set knows.
pub const ALL_BITS: u8 = 0b00011111;

/// The bits of the default flag set: `Active | RunAct | Record`.
pub const DEFAULT_BITS: u8 = 0b00010011;

/// `a` holds every bit of `b`.
pub open spec fn has_bits(a: u8, b: u8) -> bool {
    a & b == b
}

impl ActFlags {
    /// No flags.
    pub fn empty() -> (f: ActFlags)
        ensures
            f.bits == 0,
    {
        ActFlags { bits: 0 }
    }

    /// Act is active.
    pub fn active() -> (f: ActFlags)
        ensures
            f.bits == ACTIVE,
    {
        ActFlags { bits: ACTIVE }
    }

    /// Act is shown in `run_act`.
    pub fn run_act() -> (f: ActFlags)
        ensures
            f.bits == RUN_ACT,
    {
        ActFlags { bits: RUN_ACT }
    }

    /// Act usually runs another act like `run_act`.
    pub fn adverb() -> (f: ActFlags)
        ensures
            f.bits == ADVERB,
    {
        ActFlags { bits: ADVERB }
    }

    /// Act shows the minibuffer when run.
    pub fn show_minibuffer() -> (f: ActFlags)
        ensures
            f.bits == SHOW_MINIBUFFER,
    {
        ActFlags { bits: SHOW_MINIBUFFER }
    }

    /// Act is recordable.
    pub fn record() -> (f: ActFlags)
        ensures
            f.bits == RECORD,
    {
        ActFlags { bits: RECORD }
    }

    /// The flag set of the known bits among `bits`.
    pub fn from_bits_truncate(bits: u8) -> (f: ActFlags)
        ensures
            f.bits == bits & ALL_BITS,
    {
        ActFlags { bits: bits & ALL_BITS }
    }

    /// The raw bits.
    pub fn bits(&self) -> (b: u8)
        ensures
            b == self.bits,
    {
        self.bits
    }

    /// Whether every flag of `other` is set here.
    pub fn contains(&self, other: ActFlags) -> (r: bool)
        ensures
            r == has_bits(self.bits, other.bits),
    {
        self.bits & other.bits == other.bits
    }

    /// Whether any flag of `other` is set here.
    pub fn intersects(&self, other: ActFlags) -> (r: bool)
        ensures
            r == (self.bits & other.bits != 0),
    {
        self.bits & other.bits != 0
    }

    /// The flags set here or in `other`.
    pub fn union(self, other: ActFlags) -> (f: ActFlags)
        ensures
            f.bits == self.bits | other.bits,
    {
        ActFlags { bits: self.bits | other.bits }
    }

    /// The flags set here and not in `other`.
    pub fn difference(self, other: ActFlags) -> (f: ActFlags)
        ensures
            f.bits == self.bits & !other.bits,
    {
        ActFlags { bits: self.bits & !other.bits }
    }

    /// Sets the flags of `other`.
    pub fn insert(&mut self, other: ActFlags)
        ensures
            final(self).bits == old(self).bits | other.bits,
    {
        self.bits = self.bits | other.bits;
    }

    /// Clears the flags of `other`.
    pub fn remove(&mut self, other: ActFlags)
        ensures
            final(self).bits == old(self).bits & !other.bits,
    {
        self.bits = self.bits & !other.bits;
    }
}

impl Default for ActFlags {
    /// `Active | RunAct | Record`
    fn default() -> (f: ActFlags)
        ensures
            f.bits == DEFAULT_BITS,
    {
        assert(1u8 | 2u8 | 16u8 == 19u8) by (bit_vector);
        ActFlags { bits: ACTIVE | RUN_ACT | RECORD }
    }
}

/// After setting the flags of `b`, a flag set contains them and everything
/// it contained before; after clearing them, it shares none of them and
/// still contains what it held besides.
pub proof fn lemma_flags_insert_remove(a: u8, b: u8, c: u8)
    ensures
        has_bits(a | b, b),
        has_bits(a, c) ==> has_bits(a | b, c),
        (a & !b) & b == 0,
        has_bits(a, c) && c & b == 0 ==> has_bits(a & !b, c),
{
    assert(has_bits(a | b, b)) by (bit_vector);
    assert(has_bits(a, c) ==> has_bits(a | b, c)) by (bit_vector);
    assert((a & !b) & b == 0) by (bit_vector);
    assert(has_bits(a, c) && c & b == 0 ==> has_bits(a & !b, c)) by (bit_vector);
}

/// The default flags are active, shown by `run_act` and recordable; they
/// are neither an adverb nor shown in the minibuffer.
pub proof fn lemma_default_flags()
    ensures
        has_bits(DEFAULT_BITS, ACTIVE),
        has_bits(DEFAULT_BITS, RUN_ACT),
        has_bits(DEFAULT_BITS, RECORD),
        !has_bits(DEFAULT_BITS, ADVERB),
        !has_bits(DEFAULT_BITS, SHOW_MINIBUFFER),
{
    assert(has_bits(0b00010011u8, 1u8)) by (bit_vector);
    assert(has_bits(0b00010011u8, 2u8)) by (bit_vector);
    assert(has_bits(0b00010011u8, 16u8)) by (bit_vector);
    assert(!has_bits(0b00010011u8, 4u8)) by (bit_vector);
    assert(!has_bits(0b00010011u8, 8u8)) by (bit_vector);
}

} // verus!
