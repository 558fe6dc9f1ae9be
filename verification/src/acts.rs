//! Acts (the console's commands), their builders and collections.
use crate::chars::{from_chars, push_str, to_chars};
use crate::flags::ActFlags;
use crate::hotkey::{copy_string, Hotkey, HotkeyView, KeyChord};
use vstd::prelude::*;

verus! {

/// A reference to a spawned act: its entity and its flags.
#[derive(Debug, Clone, Copy, PartialEq, Eq, Structural)]
pub struct ActRef {
    /// The act's entity, as bits.
    pub id: u64,
    /// The act's flags.
    pub flags: ActFlags,
}

/// A Minibuffer command
#[derive(Debug)]
pub struct Act {
    /// An act's name
    pub name: String,
    /// Hot keys
    pub hotkeys: Vec<Hotkey>,
    /// The entity of the system that runs when the act is called.
    pub system_id: u64,
    /// Flags for this act
    pub flags: ActFlags,
    /// The name of the act's system.
    pub system_name: String,
    /// The key of the act's input type, if it takes input.
    pub input: Option<u64>,
}

impl ActRef {
    /// A reference to the act `id` with `flags`.
    pub fn new(id: u64, flags: ActFlags) -> (r: ActRef)
        ensures
            r.id == id,
            r.flags == flags,
    {
        ActRef { id, flags }
    }

    /// A reference to `act`, spawned as `act_id`.
    pub fn from_act(act: &Act, act_id: u64) -> (r: ActRef)
        ensures
            r.id == act_id,
            r.flags == act.flags,
    {
        ActRef { id: act_id, flags: act.flags }
    }
}

/// The views of a list of hotkeys.
pub open spec fn hotkeys_view(hs: Seq<Hotkey>) -> Seq<HotkeyView> {
    Seq::new(hs.len(), |i: int| hs[i]@)
}

/// The index of the first hotkey whose chords are `chords`.
pub open spec fn first_hotkey(hs: Seq<HotkeyView>, chords: Seq<KeyChord>) -> Option<int>
    decreases hs.len(),
{
    if hs.len() == 0 {
        None
    } else {
        match first_hotkey(hs.drop_last(), chords) {
            Some(i) => Some(i),
            None => if hs.last().chords == chords {
                Some(hs.len() - 1)
            } else {
                None
            },
        }
    }
}

impl Act {
    /// Find hotkey based on chords.
    pub fn find_hotkey(&self, chords: &[KeyChord]) -> (r: Option<&Hotkey>)
        ensures
            match first_hotkey(hotkeys_view(self.hotkeys@), chords@) {
                Some(i) => r matches Some(h) && h@ == self.hotkeys@[i]@,
                None => r is None,
            },
    {
        let ghost hv = hotkeys_view(self.hotkeys@);
        let mut i: usize = 0;
        while i < self.hotkeys.len()
            invariant
                hv == hotkeys_view(self.hotkeys@),
                i <= self.hotkeys@.len(),
                first_hotkey(hv.take(i as int), chords@) is None,
            decreases self.hotkeys@.len() - i,
        {
            assert(hv.take(i + 1).drop_last() =~= hv.take(i as int));
            if self.hotkeys[i].eq_chords(chords) {
                proof {
                    lemma_first_hotkey_prefix(hv, chords@, i + 1);
                }
                return Some(&self.hotkeys[i]);
            }
            i = i + 1;
        }
        assert(hv.take(self.hotkeys@.len() as int) =~= hv);
        None
    }

    /// The act's name.
    pub fn name(&self) -> (s: &str)
        ensures
            s@ == self.name@,
    {
        self.name.as_str()
    }
}

/// A found first hotkey in a prefix of the list is the first in the list.
proof fn lemma_first_hotkey_prefix(hs: Seq<HotkeyView>, chords: Seq<KeyChord>, n: int)
    requires
        0 <= n <= hs.len(),
        first_hotkey(hs.take(n), chords) is Some,
    ensures
        first_hotkey(hs, chords) == first_hotkey(hs.take(n), chords),
    decreases hs.len(),
{
    if n < hs.len() {
        assert(hs.drop_last().take(n) =~= hs.take(n));
        lemma_first_hotkey_prefix(hs.drop_last(), chords, n);
    } else {
        assert(hs.take(n) =~= hs);
    }
}

/// The first index of `c` in `s`.
pub open spec fn first_index(s: Seq<char>, c: char) -> Option<int>
    decreases s.len(),
{
    if s.len() == 0 {
        None
    } else {
        match first_index(s.drop_last(), c) {
            Some(i) => Some(i),
            None => if s.last() == c {
                Some(s.len() - 1)
            } else {
                None
            },
        }
    }
}

/// Whether `c` ends a system's name inside a pipe: a comma, a space or a
/// closing parenthesis.
pub open spec fn is_name_end(c: char) -> bool {
    c == ',' || c == ' ' || c == ')'
}

/// The first index of a comma, space or closing parenthesis in `s`.
pub open spec fn first_name_end(s: Seq<char>) -> Option<int>
    decreases s.len(),
{
    if s.len() == 0 {
        None
    } else {
        match first_name_end(s.drop_last()) {
            Some(i) => Some(i),
            None => if is_name_end(s.last()) {
                Some(s.len() - 1)
            } else {
                None
            },
        }
    }
}

/// The last index of `c` in `s`.
pub open spec fn last_index(s: Seq<char>, c: char) -> Option<int>
    decreases s.len(),
{
    if s.len() == 0 {
        None
    } else if s.last() == c {
        Some(s.len() - 1)
    } else {
        last_index(s.drop_last(), c)
    }
}

/// The system's name taken out of a pipe: what stands between the first
/// `(` and the first comma, space or `)`, where both occur.
pub open spec fn unpiped_name(s: Seq<char>) -> Seq<char> {
    match (first_index(s, '('), first_name_end(s)) {
        (Some(start), Some(end)) => s.subrange(start + 1, end),
        _ => s,
    }
}

/// The act name for a system's name: out of a pipe, and with the module path
/// up to the last `:` dropped when `shorten` is set.
pub open spec fn act_name_for(s: Seq<char>, shorten: bool) -> Seq<char> {
    let n = unpiped_name(s);
    if shorten {
        match last_index(n, ':') {
            Some(i) => n.subrange(i + 1, n.len() as int),
            None => n,
        }
    } else {
        n
    }
}

/// A system's name can be taken out of a pipe: where it has a `(` and a
/// comma, space or `)`, the latter comes after the former.
pub open spec fn name_slices(s: Seq<char>) -> bool {
    match (first_index(s, '('), first_name_end(s)) {
        (Some(start), Some(end)) => start < end,
        _ => true,
    }
}

pub(crate) proof fn lemma_first_index(s: Seq<char>, c: char)
    ensures
        match first_index(s, c) {
            Some(i) => 0 <= i < s.len() && s[i] == c && forall|j: int| 0 <= j < i ==> s[j] != c,
            None => forall|j: int| 0 <= j < s.len() ==> s[j] != c,
        },
    decreases s.len(),
{
    if s.len() > 0 {
        lemma_first_index(s.drop_last(), c);
        assert(forall|j: int| 0 <= j < s.len() - 1 ==> s.drop_last()[j] == s[j]);
    }
}

proof fn lemma_first_name_end(s: Seq<char>)
    ensures
        match first_name_end(s) {
            Some(i) => 0 <= i < s.len() && is_name_end(s[i]) && forall|j: int|
                0 <= j < i ==> !is_name_end(s[j]),
            None => forall|j: int| 0 <= j < s.len() ==> !is_name_end(s[j]),
        },
    decreases s.len(),
{
    if s.len() > 0 {
        lemma_first_name_end(s.drop_last());
        assert(forall|j: int| 0 <= j < s.len() - 1 ==> s.drop_last()[j] == s[j]);
    }
}

proof fn lemma_last_index(s: Seq<char>, c: char)
    ensures
        match last_index(s, c) {
            Some(i) => 0 <= i < s.len() && s[i] == c && forall|j: int| i < j < s.len() ==> s[j] != c,
            None => forall|j: int| 0 <= j < s.len() ==> s[j] != c,
        },
    decreases s.len(),
{
    if s.len() > 0 && s.last() != c {
        lemma_last_index(s.drop_last(), c);
        assert(forall|j: int| 0 <= j < s.len() - 1 ==> s.drop_last()[j] == s[j]);
    }
}

fn find_first(s: &[char], c: char) -> (r: Option<usize>)
    ensures
        match first_index(s@, c) {
            Some(i) => r == Some(i as usize),
            None => r is None,
        },
{
    proof {
        lemma_first_index(s@, c);
    }
    let mut i: usize = 0;
    while i < s.len()
        invariant
            i <= s@.len(),
            forall|j: int| 0 <= j < i ==> s@[j] != c,
            match first_index(s@, c) {
                Some(k) => 0 <= k < s@.len() && s@[k] == c && forall|j: int| 0 <= j < k ==> s@[j] != c,
                None => forall|j: int| 0 <= j < s@.len() ==> s@[j] != c,
            },
        decreases s@.len() - i,
    {
        if s[i] == c {
            return Some(i);
        }
        i = i + 1;
    }
    None
}

fn find_name_end(s: &[char]) -> (r: Option<usize>)
    ensures
        match first_name_end(s@) {
            Some(i) => r == Some(i as usize),
            None => r is None,
        },
{
    proof {
        lemma_first_name_end(s@);
    }
    let mut i: usize = 0;
    while i < s.len()
        invariant
            i <= s@.len(),
            forall|j: int| 0 <= j < i ==> !is_name_end(s@[j]),
            match first_name_end(s@) {
                Some(k) => 0 <= k < s@.len() && is_name_end(s@[k]) && forall|j: int|
                    0 <= j < k ==> !is_name_end(s@[j]),
                None => forall|j: int| 0 <= j < s@.len() ==> !is_name_end(s@[j]),
            },
        decreases s@.len() - i,
    {
        if s[i] == ',' || s[i] == ' ' || s[i] == ')' {
            return Some(i);
        }
        i = i + 1;
    }
    None
}

fn find_last(s: &[char], c: char) -> (r: Option<usize>)
    ensures
        match last_index(s@, c) {
            Some(i) => r == Some(i as usize),
            None => r is None,
        },
{
    proof {
        lemma_last_index(s@, c);
    }
    let mut i: usize = s.len();
    while i > 0
        invariant
            i <= s@.len(),
            forall|j: int| i <= j < s@.len() ==> s@[j] != c,
            match last_index(s@, c) {
                Some(k) => 0 <= k < s@.len() && s@[k] == c && forall|j: int| k < j < s@.len() ==> s@[j] != c,
                None => forall|j: int| 0 <= j < s@.len() ==> s@[j] != c,
            },
        decreases i,
    {
        if s[i - 1] == c {
            return Some(i - 1);
        }
        i = i - 1;
    }
    None
}

fn sub_chars(s: &[char], from: usize, to: usize) -> (r: Vec<char>)
    requires
        from <= to <= s@.len(),
    ensures
        r@ == s@.subrange(from as int, to as int),
{
    let mut r: Vec<char> = Vec::new();
    let mut i: usize = from;
    while i < to
        invariant
            from <= i <= to <= s@.len(),
            r@ == s@.subrange(from as int, i as int),
        decreases to - i,
    {
        r.push(s[i]);
        i = i + 1;
    }
    r
}

/// The act name for a system's name.
///
/// "Pipe(cube_async::speed, bevy_minibuffer::sink::future_result<..>)" gives
/// "cube_async::speed", or "speed" when `shorten_name` is set.
pub fn name_for_system(system_name: &str, shorten_name: bool) -> (n: String)
    requires
        name_slices(system_name@),
    ensures
        n@ == act_name_for(system_name@, shorten_name),
{
    let s = to_chars(system_name);
    proof {
        lemma_first_index(s@, '(');
        lemma_first_name_end(s@);
    }
    let n: Vec<char> = match (find_first(s.as_slice(), '('), find_name_end(s.as_slice())) {
        (Some(start), Some(end)) => sub_chars(s.as_slice(), start + 1, end),
        _ => s,
    };
    proof {
        lemma_last_index(n@, ':');
    }
    if shorten_name {
        match find_last(n.as_slice(), ':') {
            Some(i) => {
                let m = sub_chars(n.as_slice(), i + 1, n.len());
                return from_chars(m.as_slice());
            },
            None => {},
        }
    }
    from_chars(n.as_slice())
}

/// Builds an [Act]
#[derive(Debug)]
pub struct ActBuilder {
    /// The act's name.
    pub name: String,
    /// Hotkeys
    pub hotkeys: Vec<Hotkey>,
    /// The name of the act's system.
    pub system_name: String,
    /// Flags for this act
    pub flags: ActFlags,
    /// Shorten the name to just the first system.
    pub shorten_name: bool,
    /// The key of the act's input type, if it takes input.
    pub input: Option<u64>,
}

/// An act builder as a mathematical value.
pub struct ActBuilderView {
    pub name: Seq<char>,
    pub hotkeys: Seq<HotkeyView>,
    pub system_name: Seq<char>,
    pub flags: ActFlags,
    pub shorten_name: bool,
    pub input: Option<u64>,
}

impl View for ActBuilder {
    type V = ActBuilderView;

    open spec fn view(&self) -> ActBuilderView {
        ActBuilderView {
            name: self.name@,
            hotkeys: hotkeys_view(self.hotkeys@),
            system_name: self.system_name@,
            flags: self.flags,
            shorten_name: self.shorten_name,
            input: self.input,
        }
    }
}

/// The name a builder is given in place of its own once it was taken.
pub open spec fn taken_name() -> Seq<char> {
    seq!['*', 'T', 'A', 'K', 'E', 'N', '*']
}

impl ActBuilder {
    /// A builder for an act that runs the system named `system_name`; the act
    /// is named after the system, with default flags and no hotkeys.
    pub fn new(system_name: &str) -> (b: ActBuilder)
        requires
            name_slices(system_name@),
        ensures
            b@.name == act_name_for(system_name@, true),
            b@.system_name == system_name@,
            b@.hotkeys.len() == 0,
            b@.flags.bits == crate::flags::DEFAULT_BITS,
            b@.shorten_name,
            b@.input == None::<u64>,
    {
        let name = name_for_system(system_name, true);
        let mut sn = String::new();
        push_str(&mut sn, system_name);
        ActBuilder {
            name,
            hotkeys: Vec::new(),
            system_name: sn,
            flags: ActFlags::default(),
            shorten_name: true,
            input: None,
        }
    }

    /// A builder for an act whose system takes input of the type keyed by
    /// `input`.
    pub fn new_with_input(system_name: &str, input: u64) -> (b: ActBuilder)
        requires
            name_slices(system_name@),
        ensures
            b@.name == act_name_for(system_name@, true),
            b@.system_name == system_name@,
            b@.hotkeys.len() == 0,
            b@.flags.bits == crate::flags::DEFAULT_BITS,
            b@.shorten_name,
            b@.input == Some(input),
    {
        let mut b = ActBuilder::new(system_name);
        b.input = Some(input);
        b
    }

    /// Return the name of the act. Derived from system if not explicitly given.
    pub fn name(&self) -> (s: String)
        ensures
            s@ == self.name@,
    {
        copy_string(&self.name)
    }

    /// Build the [Act] whose system was registered as `system_id`.
    pub fn build(self, system_id: u64) -> (r: (Act, u64))
        ensures
            r.0.name@ == self@.name,
            hotkeys_view(r.0.hotkeys@) == self@.hotkeys,
            r.0.system_id == system_id,
            r.0.flags == self@.flags,
            r.0.system_name@ == self@.system_name,
            r.0.input == self@.input,
            r.1 == system_id,
    {
        (
            Act {
                name: self.name,
                hotkeys: self.hotkeys,
                flags: self.flags,
                system_id,
                system_name: self.system_name,
                input: self.input,
            },
            system_id,
        )
    }

    /// Name the act.
    pub fn named(&mut self, name: String) -> (r: &mut Self)
        ensures
            r@ == (ActBuilderView { name: name@, ..old(self)@ }),
            *final(self) == *final(r),
    {
        self.name = name;
        self
    }

    /// Bind a hotkey.
    pub fn bind(&mut self, chords: Vec<KeyChord>) -> (r: &mut Self)
        ensures
            r@ == (ActBuilderView {
                hotkeys: old(self)@.hotkeys.push(HotkeyView { chords: chords@, alias: None }),
                ..old(self)@
            }),
            *final(self) == *final(r),
    {
        self.hotkeys.push(Hotkey::new(chords));
        assert(hotkeys_view(self.hotkeys@) =~= old(self)@.hotkeys.push(
            HotkeyView { chords: chords@, alias: None },
        ));
        self
    }

    /// Bind a hotkey with an alias for that key sequence.
    pub fn bind_aliased(&mut self, chords: Vec<KeyChord>, name: String) -> (r: &mut Self)
        ensures
            r@ == (ActBuilderView {
                hotkeys: old(self)@.hotkeys.push(
                    HotkeyView { chords: chords@, alias: Some(name@) },
                ),
                ..old(self)@
            }),
            *final(self) == *final(r),
    {
        let ghost name_view = name@;
        self.hotkeys.push(Hotkey::new(chords).alias(name));
        assert(hotkeys_view(self.hotkeys@) =~= old(self)@.hotkeys.push(
            HotkeyView { chords: chords@, alias: Some(name_view) },
        ));
        self
    }

    /// Set flags.
    pub fn flags(&mut self, flags: ActFlags) -> (r: &mut Self)
        ensures
            r@ == (ActBuilderView { flags: flags, ..old(self)@ }),
            *final(self) == *final(r),
    {
        self.flags = flags;
        self
    }

    /// Add the given the flags.
    pub fn add_flags(&mut self, flags: ActFlags) -> (r: &mut Self)
        ensures
            r@ == (ActBuilderView {
                flags: ActFlags { bits: old(self)@.flags.bits | flags.bits },
                ..old(self)@
            }),
            *final(self) == *final(r),
    {
        self.flags = self.flags.union(flags);
        self
    }

    /// Subtracts the given the flags.
    pub fn sub_flags(&mut self, flags: ActFlags) -> (r: &mut Self)
        ensures
            r@ == (ActBuilderView {
                flags: ActFlags { bits: old(self)@.flags.bits & !flags.bits },
                ..old(self)@
            }),
            *final(self) == *final(r),
    {
        self.flags = self.flags.difference(flags);
        self
    }

    /// Takes the builder's contents, leaving it depleted: named `*TAKEN*`,
    /// with no hotkeys and no input.
    pub fn take_from(builder: &mut ActBuilder) -> (b: ActBuilder)
        ensures
            b@ == old(builder)@,
            final(builder)@ == (ActBuilderView {
                name: taken_name(),
                hotkeys: Seq::empty(),
                system_name: taken_name(),
                input: None,
                ..old(builder)@
            }),
    {
        let mut taken = String::new();
        push_str(&mut taken, "*TAKEN*");
        let mut taken2 = String::new();
        push_str(&mut taken2, "*TAKEN*");
        proof {
            reveal_strlit("*TAKEN*");
            assert(taken@ =~= taken_name());
            assert(taken2@ =~= taken_name());
        }
        let mut name = taken;
        std::mem::swap(&mut name, &mut builder.name);
        let mut system_name = taken2;
        std::mem::swap(&mut system_name, &mut builder.system_name);
        let mut hotkeys: Vec<Hotkey> = Vec::new();
        std::mem::swap(&mut hotkeys, &mut builder.hotkeys);
        let input = builder.input;
        builder.input = None;
        assert(hotkeys_view(builder.hotkeys@) =~= Seq::<HotkeyView>::empty());
        ActBuilder {
            name,
            hotkeys,
            system_name,
            flags: builder.flags,
            shorten_name: builder.shorten_name,
            input,
        }
    }
}

/// The index of the builder named `name`.
pub open spec fn name_index(bs: Seq<ActBuilderView>, name: Seq<char>) -> Option<int> {
    if exists|i: int| 0 <= i < bs.len() && bs[i].name == name {
        Some(choose|i: int| 0 <= i < bs.len() && bs[i].name == name)
    } else {
        None
    }
}

/// The views of a list of builders.
pub open spec fn builders_view(bs: Seq<ActBuilder>) -> Seq<ActBuilderView> {
    Seq::new(bs.len(), |i: int| bs[i]@)
}

/// The index of the last builder named `name`.
pub open spec fn last_named(bs: Seq<ActBuilderView>, name: Seq<char>) -> Option<int>
    decreases bs.len(),
{
    if bs.len() == 0 {
        None
    } else if bs.last().name == name {
        Some(bs.len() - 1)
    } else {
        last_named(bs.drop_last(), name)
    }
}

/// A name's index holds a builder of that name.
pub proof fn lemma_name_index_some(bs: Seq<ActBuilderView>, n: Seq<char>)
    ensures
        name_index(bs, n) matches Some(i) ==> 0 <= i < bs.len() && bs[i].name == n,
{
}

/// Where the names are unique, the index of a name is where it stands.
pub proof fn lemma_name_index(bs: Seq<ActBuilderView>, k: int)
    requires
        unique_names(bs),
        0 <= k < bs.len(),
    ensures
        name_index(bs, bs[k].name) == Some(k),
{
}

/// Acts are kept by name: after a builder is pushed, as [Acts::push] does,
/// its name finds it, and every other name finds what it found before.
pub proof fn lemma_name_index_after_push(
    before: Seq<ActBuilderView>,
    b: ActBuilderView,
    after: Seq<ActBuilderView>,
    m: Seq<char>,
)
    requires
        unique_names(before),
        unique_names(after),
        match name_index(before, b.name) {
            Some(i) => after == before.update(i, b),
            None => after == before.push(b),
        },
    ensures
        m == b.name ==> (name_index(after, m) matches Some(i) && after[i] == b),
        m != b.name ==> match name_index(before, m) {
            Some(i) => name_index(after, m) == Some(i) && after[i] == before[i],
            None => name_index(after, m) is None,
        },
{
    match name_index(before, b.name) {
        Some(i) => {
            assert(after[i] == b);
            lemma_name_index(after, i);
        },
        None => {
            assert(after[before.len() as int] == b);
            lemma_name_index(after, before.len() as int);
        },
    }
    if m != b.name {
        match name_index(before, m) {
            Some(i) => {
                assert(before[i].name == m);
                assert(after[i] == before[i]);
                lemma_name_index(after, i);
            },
            None => {
                if exists|j: int| 0 <= j < after.len() && after[j].name == m {
                    let j = choose|j: int| 0 <= j < after.len() && after[j].name == m;
                    assert(j < before.len() && before[j].name == m);
                }
            },
        }
    }
}

/// No two builders share a name.
pub open spec fn unique_names(bs: Seq<ActBuilderView>) -> bool {
    forall|i: int, j: int| 0 <= i < bs.len() && 0 <= j < bs.len() && i != j ==> bs[i].name != bs[j].name
}

/// A collection of acts, keyed by name
///
/// Acts may be inspected and modified before adding to app.
#[derive(Debug)]
pub struct Acts {
    builders: Vec<ActBuilder>,
}

impl View for Acts {
    type V = Seq<ActBuilderView>;

    closed spec fn view(&self) -> Seq<ActBuilderView> {
        Seq::new(self.builders@.len(), |i: int| self.builders@[i]@)
    }
}

impl Default for Acts {
    fn default() -> (a: Acts)
        ensures
            a@.len() == 0,
    {
        Acts::empty()
    }
}

impl Acts {
    #[verifier::type_invariant]
    spec fn names_unique(&self) -> bool {
        unique_names(self@)
    }

    /// The builder of each act, in the order they were added.
    pub closed spec fn builders(&self) -> Seq<ActBuilder> {
        self.builders@
    }

    /// The view of each builder is the view of the collection, and the names
    /// are unique.
    fn view_facts(&self)
        ensures
            self@.len() == self.builders().len(),
            forall|i: int| 0 <= i < self@.len() ==> #[trigger] self@[i] == self.builders()[i]@,
            unique_names(self@),
    {
        proof {
            use_type_invariant(self);
        }
    }

    /// A collection with no acts.
    pub fn empty() -> (a: Acts)
        ensures
            a@.len() == 0,
    {
        let a = Acts { builders: Vec::new() };
        assert(a@ =~= Seq::<ActBuilderView>::empty());
        a
    }

    /// Create a collection from builders; of two builders with the same name
    /// the later one replaces the earlier.
    pub fn new(v: Vec<ActBuilder>) -> (a: Acts)
        ensures
            forall|n: Seq<char>|
                match #[trigger] last_named(builders_view(v@), n) {
                    Some(j) => name_index(a@, n) matches Some(i) && a@[i] == builders_view(v@)[j],
                    None => name_index(a@, n) is None,
                },
    {
        let ghost vv = builders_view(v@);
        let mut a = Acts::empty();
        let mut v = v;
        let mut rest: Vec<ActBuilder> = Vec::new();
        while v.len() > 0
            invariant
                vv.len() == v@.len() + rest@.len(),
                forall|i: int| 0 <= i < v@.len() ==> #[trigger] v@[i]@ == vv[i],
                forall|i: int| 0 <= i < rest@.len() ==> #[trigger] rest@[i]@ == vv[vv.len() - 1 - i],
            decreases v@.len(),
        {
            let b = v.pop().unwrap();
            rest.push(b);
        }
        let mut k: usize = 0;
        let n = rest.len();
        while rest.len() > 0
            invariant
                n == vv.len(),
                k + rest@.len() == n,
                forall|i: int| 0 <= i < rest@.len() ==> #[trigger] rest@[i]@ == vv[n - 1 - i],
                forall|m: Seq<char>|
                    match #[trigger] last_named(vv.take(k as int), m) {
                        Some(j) => name_index(a@, m) matches Some(i) && a@[i] == vv[j],
                        None => name_index(a@, m) is None,
                    },
            decreases rest@.len(),
        {
            let b = rest.pop().unwrap();
            let ghost bv = b@;
            let ghost before = a@;
            assert(bv == vv[k as int]);
            assert(forall|m: Seq<char>|
                match #[trigger] last_named(vv.take(k as int), m) {
                    Some(j) => name_index(before, m) matches Some(i) && before[i] == vv[j],
                    None => name_index(before, m) is None,
                });
            a.view_facts();
            a.push(b);
            a.view_facts();
            proof {
                assert(vv.take(k + 1).drop_last() =~= vv.take(k as int));
                assert(vv.take(k + 1).last() == bv);
                assert forall|m: Seq<char>|
                    match #[trigger] last_named(vv.take(k + 1), m) {
                        Some(j) => name_index(a@, m) matches Some(i) && a@[i] == vv[j],
                        None => name_index(a@, m) is None,
                    } by {
                    lemma_name_index_after_push(before, bv, a@, m);
                    let _ = last_named(vv.take(k as int), m);
                }
            }
            k = k + 1;
        }
        assert(vv.take(n as int) =~= vv);
        a
    }

    /// Add an [ActBuilder], replacing and returning the one of the same name.
    pub fn push(&mut self, builder: ActBuilder) -> (r: Option<ActBuilder>)
        ensures
            match name_index(old(self)@, builder@.name) {
                Some(i) => final(self)@ == old(self)@.update(i, builder@) && (r matches Some(o)
                    && o@ == old(self)@[i]),
                None => final(self)@ == old(self)@.push(builder@) && r is None,
            },
    {
        proof {
            use_type_invariant(&*self);
        }
        let name = to_chars(builder.name.as_str());
        let ghost bv = builder@;
        match self.position(name.as_slice()) {
            Some(i) => {
                proof {
                    lemma_name_index_some(old(self)@, name@);
                }
                let mut bs: Vec<ActBuilder> = Vec::new();
                std::mem::swap(&mut bs, &mut self.builders);
                let o = bs.remove(i);
                bs.insert(i, builder);
                assert(builders_view(bs@) =~= old(self)@.update(i as int, bv));
                self.builders = bs;
                assert(self@ =~= old(self)@.update(i as int, bv));
                Some(o)
            },
            None => {
                let mut bs: Vec<ActBuilder> = Vec::new();
                std::mem::swap(&mut bs, &mut self.builders);
                bs.push(builder);
                assert(builders_view(bs@) =~= old(self)@.push(bv));
                proof {
                    assert forall|j: int| 0 <= j < old(self)@.len() implies old(self)@[j].name != bv.name by {
                        if old(self)@[j].name == bv.name {
                            assert(exists|k: int| 0 <= k < old(self)@.len() && old(self)@[k].name == bv.name);
                        }
                    }
                }
                self.builders = bs;
                assert(self@ =~= old(self)@.push(bv));
                None
            },
        }
    }

    /// Remove the act of the given name.
    pub fn remove(&mut self, name: &str) -> (r: Option<ActBuilder>)
        ensures
            match name_index(old(self)@, name@) {
                Some(i) => final(self)@ == old(self)@.remove(i) && (r matches Some(o) && o@
                    == old(self)@[i]),
                None => final(self)@ == old(self)@ && r is None,
            },
    {
        proof {
            use_type_invariant(&*self);
        }
        let n = to_chars(name);
        match self.position(n.as_slice()) {
            Some(i) => {
                let mut bs: Vec<ActBuilder> = Vec::new();
                std::mem::swap(&mut bs, &mut self.builders);
                let o = bs.remove(i);
                assert(builders_view(bs@) =~= old(self)@.remove(i as int));
                self.builders = bs;
                assert(self@ =~= old(self)@.remove(i as int));
                Some(o)
            },
            None => None,
        }
    }

    /// The builder of the act with the given name.
    pub fn get(&self, name: &str) -> (r: Option<&ActBuilder>)
        ensures
            match name_index(self@, name@) {
                Some(i) => r matches Some(b) && b@ == self@[i],
                None => r is None,
            },
    {
        self.view_facts();
        let n = to_chars(name);
        match self.position(n.as_slice()) {
            Some(i) => {
                proof {
                    lemma_name_index_some(self@, name@);
                }
                Some(&self.builders[i])
            },
            None => None,
        }
    }

    /// Removes all the builders and hands them out in order.
    pub fn drain(&mut self) -> (v: Vec<ActBuilder>)
        ensures
            builders_view(v@) == old(self)@,
            final(self)@.len() == 0,
    {
        let mut v: Vec<ActBuilder> = Vec::new();
        std::mem::swap(&mut v, &mut self.builders);
        assert(builders_view(v@) =~= old(self)@);
        assert(self@ =~= Seq::<ActBuilderView>::empty());
        v
    }

    /// The number of acts.
    pub fn len(&self) -> (n: usize)
        ensures
            n == self@.len(),
    {
        self.builders.len()
    }

    /// Whether there are no acts.
    pub fn is_empty(&self) -> (b: bool)
        ensures
            b == (self@.len() == 0),
    {
        self.builders.len() == 0
    }

    fn position(&self, name: &[char]) -> (r: Option<usize>)
        ensures
            r matches Some(i) ==> i < self@.len() && self@[i as int].name == name@,
            match name_index(self@, name@) {
                Some(i) => r == Some(i as usize),
                None => r is None,
            },
    {
        proof {
            use_type_invariant(self);
        }
        let mut i: usize = 0;
        while i < self.builders.len()
            invariant
                i <= self@.len(),
                self@.len() == self.builders@.len(),
                forall|j: int| 0 <= j < self@.len() ==> #[trigger] self@[j] == self.builders@[j]@,
                forall|j: int| 0 <= j < i ==> self@[j].name != name@,
                unique_names(self@),
            decreases self@.len() - i,
        {
            let n = to_chars(self.builders[i].name.as_str());
            if crate::chars::chars_eq(n.as_slice(), name) {
                proof {
                    assert(self@[i as int].name == name@);
                    let k = choose|k: int| 0 <= k < self@.len() && self@[k].name == name@;
                    assert(k == i);
                }
                return Some(i);
            }
            i = i + 1;
        }
        None
    }

    /// Take the acts replacing self with an empty collection.
    pub fn take(&mut self) -> (a: Acts)
        ensures
            a@ == old(self)@,
            final(self)@.len() == 0,
    {
        let mut a = Acts::empty();
        std::mem::swap(&mut a, self);
        a
    }
}

} // verus!
