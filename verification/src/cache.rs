//! Caches of tries over the acts: key chord sequences to acts, and act names
//! to acts.
use crate::acts::Act;
use crate::flags::ActFlags;
use crate::hotkey::{copy_string, Hotkey, KeyChord};
use crate::trie::map_trie_entries;
use vstd::prelude::*;
use vstd::utf8::*;

verus! {

/// A key chord as a trie label: its modifier bits and its key.
pub open spec fn label(c: KeyChord) -> (u8, u32) {
    (c.mods, c.key)
}

/// The labels of a chord sequence.
pub open spec fn labels(cs: Seq<KeyChord>) -> Seq<(u8, u32)> {
    Seq::new(cs.len(), |i: int| label(cs[i]))
}

/// The chord sequences a chord trie holds, each with its value.
pub uninterp spec fn chord_trie_entries(t: trie_rs::map::Trie<(u8, u32), usize>) -> Map<Seq<(u8, u32)>, usize>;

/// The chord sequences a chord trie builder holds so far, each with its value.
pub uninterp spec fn chord_builder_entries(b: trie_rs::map::TrieBuilder<(u8, u32), usize>) -> Map<Seq<(u8, u32)>, usize>;

/// What an incremental search answers at a node of the trie.
#[derive(Debug, Clone, Copy, PartialEq, Eq, Structural)]
pub enum Answer {
    /// Longer entries start here; none ends here.
    Prefix,
    /// An entry ends here; none is longer.
    Match,
    /// An entry ends here and longer ones start here.
    PrefixAndMatch,
}

/// Some entry starts with `p`.
pub open spec fn reaches(m: Map<Seq<(u8, u32)>, usize>, p: Seq<(u8, u32)>) -> bool {
    exists|k: Seq<(u8, u32)>| m.contains_key(k) && p.is_prefix_of(k)
}

/// Some entry starts with `p` and is longer.
pub open spec fn goes_on(m: Map<Seq<(u8, u32)>, usize>, p: Seq<(u8, u32)>) -> bool {
    exists|k: Seq<(u8, u32)>| m.contains_key(k) && p.is_prefix_of(k) && p.len() < k.len()
}

/// What searching the entries for `p` answers.
pub open spec fn answer_for(m: Map<Seq<(u8, u32)>, usize>, p: Seq<(u8, u32)>) -> Option<Answer> {
    if !reaches(m, p) {
        None
    } else if m.contains_key(p) && goes_on(m, p) {
        Some(Answer::PrefixAndMatch)
    } else if m.contains_key(p) {
        Some(Answer::Match)
    } else {
        Some(Answer::Prefix)
    }
}

/// No entries at all.
pub open spec fn no_chord_entries() -> Map<Seq<(u8, u32)>, usize> {
    Map::empty()
}

/// A builder with no entries (`trie_rs::map::TrieBuilder::new`).
#[verifier::external_body]
fn chord_builder_new() -> (b: trie_rs::map::TrieBuilder<(u8, u32), usize>)
    ensures
        chord_builder_entries(b) == no_chord_entries(),
{
    trie_rs::map::TrieBuilder::new()
}

/// Adds an entry, replacing the value of an equal one
/// (`trie_rs::map::TrieBuilder::insert`); it panics on an empty entry, which
/// `requires` leaves out.
#[verifier::external_body]
fn chord_builder_insert(b: &mut trie_rs::map::TrieBuilder<(u8, u32), usize>, key: Vec<(u8, u32)>, value: usize)
    requires
        key@.len() > 0,
    ensures
        chord_builder_entries(*final(b)) == chord_builder_entries(*old(b)).insert(key@, value),
{
    b.insert(key, value)
}

/// The trie of the builder's entries (`trie_rs::map::TrieBuilder::build`).
#[verifier::external_body]
fn chord_builder_build(b: trie_rs::map::TrieBuilder<(u8, u32), usize>) -> (t: trie_rs::map::Trie<(u8, u32), usize>)
    ensures
        chord_trie_entries(t) == chord_builder_entries(b),
{
    b.build()
}

/// Searches the trie from its root along `key`
/// (`trie_rs::inc_search::IncSearch::query_until`, then `value`): the answer
/// at the node reached, none if no entry starts with `key`, and the value of
/// the entry `key`, if there is one.
#[verifier::external_body]
fn chord_trie_search(t: &trie_rs::map::Trie<(u8, u32), usize>, key: &Vec<(u8, u32)>) -> (r: (Option<Answer>, Option<usize>))
    requires
        key@.len() > 0,
    ensures
        r.0 == answer_for(chord_trie_entries(*t), key@),
        r.1 == if chord_trie_entries(*t).contains_key(key@) {
            Some(chord_trie_entries(*t)[key@])
        } else {
            None
        },
{
    let mut search = trie_rs::inc_search::IncSearch::new(t);
    match search.query_until(key) {
        Ok(trie_rs::inc_search::Answer::Prefix) => (Some(Answer::Prefix), search.value().copied()),
        Ok(trie_rs::inc_search::Answer::Match) => (Some(Answer::Match), search.value().copied()),
        Ok(trie_rs::inc_search::Answer::PrefixAndMatch) => (Some(Answer::PrefixAndMatch), search.value().copied()),
        Err(_) => (None, None),
    }
}

/// Every hotkey of the acts has a chord.
pub open spec fn hotkeys_nonempty(acts: Seq<Act>) -> bool {
    forall|i: int, k: int|
        0 <= i < acts.len() && 0 <= k < acts[i].hotkeys@.len() ==> (#[trigger] acts[i].hotkeys@[k])@.chords.len() > 0
}

/// Whether every hotkey of the acts has a chord.
pub fn hotkeys_nonempty_exec(acts: &[Act]) -> (b: bool)
    ensures
        b == hotkeys_nonempty(acts@),
{
    let mut i: usize = 0;
    while i < acts.len()
        invariant
            i <= acts@.len(),
            forall|j: int, k: int|
                0 <= j < i && 0 <= k < acts@[j].hotkeys@.len() ==> (#[trigger] acts@[j].hotkeys@[k])@.chords.len() > 0,
        decreases acts@.len() - i,
    {
        let mut k: usize = 0;
        while k < acts[i].hotkeys.len()
            invariant
                i < acts@.len(),
                k <= acts@[i as int].hotkeys@.len(),
                forall|j: int, m: int|
                    0 <= j < i && 0 <= m < acts@[j].hotkeys@.len() ==> (#[trigger] acts@[j].hotkeys@[m])@.chords.len() > 0,
                forall|m: int| 0 <= m < k ==> (#[trigger] acts@[i as int].hotkeys@[m])@.chords.len() > 0,
            decreases acts@[i as int].hotkeys@.len() - k,
        {
            if acts[i].hotkeys[k].chords.len() == 0 {
                return false;
            }
            k = k + 1;
        }
        i = i + 1;
    }
    true
}

/// The entries for the hotkeys of one act, added to `m`.
pub open spec fn act_entries(m: Map<Seq<(u8, u32)>, usize>, hs: Seq<Hotkey>, i: usize) -> Map<Seq<(u8, u32)>, usize>
    decreases hs.len(),
{
    if hs.len() == 0 {
        m
    } else {
        act_entries(m, hs.drop_last(), i).insert(labels(hs.last()@.chords), i)
    }
}

/// Each hotkey of each act mapped to the act's index; of equal hotkeys the
/// later one's act stays.
pub open spec fn hotkey_entries(acts: Seq<Act>) -> Map<Seq<(u8, u32)>, usize>
    decreases acts.len(),
{
    if acts.len() == 0 {
        Map::empty()
    } else {
        act_entries(hotkey_entries(acts.drop_last()), acts.last().hotkeys@, (acts.len() - 1) as usize)
    }
}

proof fn lemma_act_entries_bound(m: Map<Seq<(u8, u32)>, usize>, hs: Seq<Hotkey>, i: usize, n: int)
    requires
        i < n,
        forall|k: Seq<(u8, u32)>| #[trigger] m.contains_key(k) ==> m[k] < n,
    ensures
        forall|k: Seq<(u8, u32)>| #[trigger] act_entries(m, hs, i).contains_key(k) ==> act_entries(m, hs, i)[k] < n,
    decreases hs.len(),
{
    if hs.len() > 0 {
        lemma_act_entries_bound(m, hs.drop_last(), i, n);
        let prev = act_entries(m, hs.drop_last(), i);
        let key = labels(hs.last()@.chords);
        assert forall|k: Seq<(u8, u32)>| #[trigger] act_entries(m, hs, i).contains_key(k) implies act_entries(
            m,
            hs,
            i,
        )[k] < n by {
            if k != key {
                assert(prev.contains_key(k));
            }
        }
    }
}

proof fn lemma_hotkey_entries_bound(acts: Seq<Act>)
    ensures
        forall|k: Seq<(u8, u32)>| #[trigger] hotkey_entries(acts).contains_key(k) ==> hotkey_entries(acts)[k] < acts.len(),
    decreases acts.len(),
{
    if acts.len() > 0 {
        lemma_hotkey_entries_bound(acts.drop_last());
        lemma_act_entries_bound(
            hotkey_entries(acts.drop_last()),
            acts.last().hotkeys@,
            (acts.len() - 1) as usize,
            acts.len() as int,
        );
    }
}

/// The labels of a hotkey's chords.
pub fn chord_labels(h: &Hotkey) -> (v: Vec<(u8, u32)>)
    ensures
        v@ == labels(h@.chords),
{
    let mut v: Vec<(u8, u32)> = Vec::new();
    let mut i: usize = 0;
    while i < h.chords.len()
        invariant
            i <= h@.chords.len(),
            v@ == labels(h@.chords).take(i as int),
        decreases h@.chords.len() - i,
    {
        v.push((h.chords[i].mods, h.chords[i].key));
        i = i + 1;
        assert(v@ =~= labels(h@.chords).take(i as int));
    }
    assert(labels(h@.chords).take(h@.chords.len() as int) =~= labels(h@.chords));
    v
}

/// Builds the trie of every hotkey of the acts, each mapped to its act's
/// index.
pub fn hotkey_trie(acts: &[Act]) -> (t: trie_rs::map::Trie<(u8, u32), usize>)
    requires
        hotkeys_nonempty(acts@),
    ensures
        chord_trie_entries(t) == hotkey_entries(acts@),
{
    let mut b = chord_builder_new();
    let mut i: usize = 0;
    while i < acts.len()
        invariant
            i <= acts@.len(),
            hotkeys_nonempty(acts@),
            chord_builder_entries(b) == hotkey_entries(acts@.take(i as int)),
        decreases acts@.len() - i,
    {
        let a = &acts[i];
        let ghost start = chord_builder_entries(b);
        let mut k: usize = 0;
        while k < a.hotkeys.len()
            invariant
                k <= a.hotkeys@.len(),
                i < acts@.len(),
                a == acts@[i as int],
                hotkeys_nonempty(acts@),
                chord_builder_entries(b) == act_entries(start, a.hotkeys@.take(k as int), i),
            decreases a.hotkeys@.len() - k,
        {
            let key = chord_labels(&a.hotkeys[k]);
            assert(a.hotkeys@[k as int]@.chords.len() > 0);
            chord_builder_insert(&mut b, key, i);
            assert(a.hotkeys@.take(k + 1).drop_last() =~= a.hotkeys@.take(k as int));
            k = k + 1;
        }
        assert(a.hotkeys@.take(a.hotkeys@.len() as int) =~= a.hotkeys@);
        assert(acts@.take(i + 1).drop_last() =~= acts@.take(i as int));
        i = i + 1;
    }
    assert(acts@.take(acts@.len() as int) =~= acts@);
    chord_builder_build(b)
}

impl Act {
    /// A copy of the act.
    pub fn copy(&self) -> (a: Act)
        ensures
            a.name@ == self.name@,
            a.system_name@ == self.system_name@,
            a.system_id == self.system_id,
            a.flags == self.flags,
            a.input == self.input,
            a.hotkeys@.len() == self.hotkeys@.len(),
            forall|k: int| 0 <= k < self.hotkeys@.len() ==> (#[trigger] a.hotkeys@[k])@ == self.hotkeys@[k]@,
    {
        let mut hotkeys: Vec<Hotkey> = Vec::new();
        let mut k: usize = 0;
        while k < self.hotkeys.len()
            invariant
                k <= self.hotkeys@.len(),
                hotkeys@.len() == k,
                forall|j: int| 0 <= j < k ==> (#[trigger] hotkeys@[j])@ == self.hotkeys@[j]@,
            decreases self.hotkeys@.len() - k,
        {
            hotkeys.push(self.hotkeys[k].copy());
            k = k + 1;
        }
        Act {
            name: copy_string(&self.name),
            hotkeys,
            system_id: self.system_id,
            flags: self.flags,
            system_name: copy_string(&self.system_name),
            input: self.input,
        }
    }
}

/// Maps hotkeys to the acts they run.
///
/// The trie is kept until it is invalidated, together with a copy of the acts
/// it was built from; its values index that copy.
pub struct HotkeyActCache {
    cached: Option<(trie_rs::map::Trie<(u8, u32), usize>, Vec<Act>)>,
}

impl HotkeyActCache {
    #[verifier::type_invariant]
    spec fn values_index_acts(&self) -> bool {
        self.cached matches Some(c) ==> forall|k: Seq<(u8, u32)>|
            #[trigger] chord_trie_entries(c.0).contains_key(k) ==> chord_trie_entries(c.0)[k] < c.1@.len()
    }

    /// The acts the cached trie was built from, if there is one.
    pub closed spec fn cached_acts(&self) -> Option<Seq<Act>> {
        match self.cached {
            Some(c) => Some(c.1@),
            None => None,
        }
    }

    /// The entries of the cached trie, if there is one.
    pub closed spec fn cached_entries(&self) -> Option<Map<Seq<(u8, u32)>, usize>> {
        match self.cached {
            Some(c) => Some(chord_trie_entries(c.0)),
            None => None,
        }
    }

    /// No trie is cached.
    pub fn new() -> (c: HotkeyActCache)
        ensures
            c.cached_acts() is None,
    {
        HotkeyActCache { cached: None }
    }

    /// The acts the cached trie was built from, if there is one.
    pub fn acts(&self) -> (r: Option<&Vec<Act>>)
        ensures
            match self.cached_acts() {
                Some(c) => r matches Some(v) && v@ == c,
                None => r is None,
            },
    {
        match &self.cached {
            Some(c) => Some(&c.1),
            None => None,
        }
    }

    /// Invalidate the cache.
    pub fn invalidate(&mut self)
        ensures
            final(self).cached_acts() is None,
    {
        self.cached = None;
    }

    /// Build and keep the trie from `acts` unless one is kept already.
    pub fn fill(&mut self, acts: &[Act])
        requires
            hotkeys_nonempty(acts@),
        ensures
            old(self).cached_acts() is Some ==> final(self).cached_acts() == old(self).cached_acts()
                && final(self).cached_entries() == old(self).cached_entries(),
            old(self).cached_acts() is None ==> final(self).cached_entries() == Some(hotkey_entries(acts@))
                && (final(self).cached_acts() matches Some(c) && c.len() == acts@.len() && forall|i: int|
                0 <= i < acts@.len() ==> (#[trigger] c[i]).name@ == acts@[i].name@ && c[i].hotkeys@.len()
                == acts@[i].hotkeys@.len() && forall|k: int| 0 <= k < c[i].hotkeys@.len() ==> (
                #[trigger] c[i].hotkeys@[k])@ == acts@[i].hotkeys@[k]@),
    {
        if self.cached.is_none() {
            let t = hotkey_trie(acts);
            let mut copies: Vec<Act> = Vec::new();
            let mut i: usize = 0;
            while i < acts.len()
                invariant
                    i <= acts@.len(),
                    copies@.len() == i,
                    forall|j: int| 0 <= j < i ==> (#[trigger] copies@[j]).name@ == acts@[j].name@
                        && copies@[j].hotkeys@.len() == acts@[j].hotkeys@.len() && forall|k: int|
                        0 <= k < copies@[j].hotkeys@.len() ==> (#[trigger] copies@[j].hotkeys@[k])@
                        == acts@[j].hotkeys@[k]@,
                decreases acts@.len() - i,
            {
                copies.push(acts[i].copy());
                i = i + 1;
            }
            proof {
                lemma_hotkey_entries_bound(acts@);
            }
            self.cached = Some((t, copies));
        }
    }
}

/// Where a description of a key sequence stands.
#[derive(Debug)]
pub struct DescribeKey {
    /// The chords pressed so far.
    pub accum: Hotkey,
}

/// What pressing a chord while describing keys comes to.
#[derive(Debug)]
pub enum DescribeStep {
    /// The chords pressed run the act with this index; no longer hotkey
    /// starts with them.
    Bound(usize),
    /// The chords pressed run the act with this index, and longer hotkeys
    /// start with them.
    BoundAndMore(usize),
    /// Longer hotkeys start with the chords pressed.
    Prefix,
    /// No hotkey starts with the chords pressed.
    Unbound,
}

/// What the description comes to once `chords` are pressed, given the
/// entries of the hotkey trie.
pub open spec fn describe_spec(m: Map<Seq<(u8, u32)>, usize>, chords: Seq<KeyChord>) -> DescribeStep {
    match answer_for(m, labels(chords)) {
        None => DescribeStep::Unbound,
        Some(Answer::Prefix) => DescribeStep::Prefix,
        Some(Answer::Match) => DescribeStep::Bound(m[labels(chords)]),
        Some(Answer::PrefixAndMatch) => DescribeStep::BoundAndMore(m[labels(chords)]),
    }
}

impl DescribeKey {
    /// No chord pressed yet.
    pub fn new() -> (d: DescribeKey)
        ensures
            d.accum@.chords == Seq::<KeyChord>::empty(),
            d.accum@.alias is None,
    {
        DescribeKey { accum: Hotkey::empty() }
    }

    /// Press a chord: add it to those pressed and search the kept trie.
    pub fn press(&mut self, cache: &HotkeyActCache, chord: KeyChord) -> (r: Option<DescribeStep>)
        ensures
            final(self).accum@.chords == old(self).accum@.chords.push(chord),
            final(self).accum@.alias == old(self).accum@.alias,
            match cache.cached_entries() {
                Some(m) => r == Some(describe_spec(m, final(self).accum@.chords)),
                None => r is None,
            },
            r matches Some(s) ==> match s {
                DescribeStep::Bound(i) => cache.cached_acts() matches Some(c) && i < c.len(),
                DescribeStep::BoundAndMore(i) => cache.cached_acts() matches Some(c) && i < c.len(),
                _ => true,
            },
    {
        proof {
            use_type_invariant(cache);
        }
        self.accum.chords.push(chord);
        match &cache.cached {
            None => None,
            Some(c) => {
                let key = chord_labels(&self.accum);
                let (answer, value) = chord_trie_search(&c.0, &key);
                match answer {
                    None => Some(DescribeStep::Unbound),
                    Some(Answer::Prefix) => Some(DescribeStep::Prefix),
                    Some(Answer::Match) => match value {
                        Some(i) => Some(DescribeStep::Bound(i)),
                        None => Some(DescribeStep::Unbound),
                    },
                    Some(Answer::PrefixAndMatch) => match value {
                        Some(i) => Some(DescribeStep::BoundAndMore(i)),
                        None => Some(DescribeStep::Unbound),
                    },
                }
            },
        }
    }
}

/// Where `f` stands in `keys`.
pub open spec fn flags_index(keys: Seq<ActFlags>, f: ActFlags) -> int {
    choose|i: int| 0 <= i < keys.len() && keys[i] == f
}

/// Tries of act names, one for each set of flags asked for: the names of
/// the acts with those flags, each mapped to its act's index.
pub struct NameActCache {
    flags: Vec<ActFlags>,
    tries: Vec<trie_rs::map::Trie<u8, usize>>,
}

impl NameActCache {
    #[verifier::type_invariant]
    spec fn keys_match(&self) -> bool {
        &&& self.flags@.len() == self.tries@.len()
        &&& forall|i: int, j: int|
            0 <= i < self.flags@.len() && 0 <= j < self.flags@.len() && self.flags@[i] == self.flags@[j] ==> i == j
    }

    /// The entries of the trie kept for each set of flags.
    pub closed spec fn kept(&self) -> Map<ActFlags, Map<Seq<u8>, usize>> {
        Map::new(
            |f: ActFlags| self.flags@.contains(f),
            |f: ActFlags| map_trie_entries(self.tries@[flags_index(self.flags@, f)]),
        )
    }

    /// No tries kept.
    pub fn new() -> (c: NameActCache)
        ensures
            c.kept() == Map::<ActFlags, Map<Seq<u8>, usize>>::empty(),
    {
        let c = NameActCache { flags: Vec::new(), tries: Vec::new() };
        assert(c.kept() =~= Map::<ActFlags, Map<Seq<u8>, usize>>::empty());
        c
    }

    fn find(&self, flags: ActFlags) -> (r: Option<usize>)
        ensures
            match r {
                Some(i) => i < self.flags@.len() && self.flags@[i as int] == flags,
                None => !self.flags@.contains(flags),
            },
    {
        let mut i: usize = 0;
        while i < self.flags.len()
            invariant
                i <= self.flags@.len(),
                forall|j: int| 0 <= j < i ==> self.flags@[j] != flags,
            decreases self.flags@.len() - i,
        {
            if self.flags[i] == flags {
                return Some(i);
            }
            i = i + 1;
        }
        None
    }

    /// The trie for `flags`: the one kept, or one built from `acts` and kept.
    pub fn trie(&mut self, acts: &[Act], flags: ActFlags) -> (t: &trie_rs::map::Trie<u8, usize>)
        requires
            crate::basic::flagged_named(acts@, flags),
        ensures
            old(self).kept().contains_key(flags) ==> final(self).kept() == old(self).kept()
                && map_trie_entries(*t) == old(self).kept()[flags],
            !old(self).kept().contains_key(flags) ==> final(self).kept() == old(self).kept().insert(
                flags,
                crate::basic::flagged_names(acts@, flags, acts@.len() as int),
            ) && map_trie_entries(*t) == crate::basic::flagged_names(acts@, flags, acts@.len() as int),
    {
        proof {
            use_type_invariant(&*self);
        }
        match self.find(flags) {
            Some(i) => {
                assert(self.flags@.contains(flags));
                assert(flags_index(self.flags@, flags) == i);
                &self.tries[i]
            },
            None => {
                let t = crate::basic::act_name_trie(acts, flags);
                let ghost old_kept = self.kept();
                let ghost keys0 = self.flags@;
                let mut taken = NameActCache::new();
                std::mem::swap(&mut taken, self);
                let NameActCache { flags: mut fs, tries: mut ts } = taken;
                fs.push(flags);
                ts.push(t);
                let c = NameActCache { flags: fs, tries: ts };
                assert(c.flags@[keys0.len() as int] == flags);
                assert forall|f: ActFlags| #[trigger] c.flags@.contains(f) <==> (keys0.contains(f) || f == flags) by {
                    if c.flags@.contains(f) && f != flags {
                        let j = choose|j: int| 0 <= j < c.flags@.len() && c.flags@[j] == f;
                        assert(keys0[j] == f);
                    }
                    if keys0.contains(f) {
                        let j = choose|j: int| 0 <= j < keys0.len() && keys0[j] == f;
                        assert(c.flags@[j] == f);
                    }
                }
                assert(flags_index(c.flags@, flags) == keys0.len()) by {
                    let j = flags_index(c.flags@, flags);
                    if j < keys0.len() {
                        assert(keys0[j] == flags);
                    }
                }
                assert forall|f: ActFlags| #[trigger] keys0.contains(f) implies flags_index(c.flags@, f)
                    == flags_index(keys0, f) by {
                    let j = flags_index(keys0, f);
                    assert(c.flags@[j] == f);
                }
                assert(c.kept() =~= old_kept.insert(flags, map_trie_entries(t)));
                *self = c;
                let n = self.tries.len() - 1;
                proof {
                    use_type_invariant(&*self);
                }
                &self.tries[n]
            },
        }
    }

    /// Forget the trie for `flags`, or every trie.
    pub fn invalidate(&mut self, flags: Option<ActFlags>)
        ensures
            match flags {
                Some(f) => final(self).kept() == old(self).kept().remove(f),
                None => final(self).kept() == Map::<ActFlags, Map<Seq<u8>, usize>>::empty(),
            },
    {
        proof {
            use_type_invariant(&*self);
        }
        match flags {
            None => {
                *self = NameActCache::new();
            },
            Some(f) => {
                match self.find(f) {
                    None => {
                        assert(self.kept() =~= self.kept().remove(f));
                    },
                    Some(i) => {
                        let ghost old_kept = self.kept();
                        let ghost keys0 = self.flags@;
                        let mut taken = NameActCache::new();
                        std::mem::swap(&mut taken, self);
                        let NameActCache { flags: mut fs, tries: mut ts } = taken;
                        fs.remove(i);
                        ts.remove(i);
                        let c = NameActCache { flags: fs, tries: ts };
                        assert forall|g: ActFlags| #[trigger] c.flags@.contains(g) <==> (keys0.contains(g) && g != f) by {
                            if c.flags@.contains(g) {
                                let j = choose|j: int| 0 <= j < c.flags@.len() && c.flags@[j] == g;
                                if j < i {
                                    assert(keys0[j] == g);
                                } else {
                                    assert(keys0[j + 1] == g);
                                }
                            }
                            if keys0.contains(g) && g != f {
                                let j = choose|j: int| 0 <= j < keys0.len() && keys0[j] == g;
                                if j < i {
                                    assert(c.flags@[j] == g);
                                } else {
                                    assert(c.flags@[j - 1] == g);
                                }
                            }
                        }
                        assert forall|g: ActFlags| #[trigger] c.flags@.contains(g) implies map_trie_entries(
                            c.tries@[flags_index(c.flags@, g)],
                        ) == old_kept[g] by {
                            let j = flags_index(keys0, g);
                            assert(keys0[j] == g);
                            if j < i {
                                assert(c.flags@[j] == g);
                                assert(flags_index(c.flags@, g) == j);
                            } else {
                                assert(c.flags@[j - 1] == g);
                                assert(flags_index(c.flags@, g) == j - 1);
                            }
                        }
                        assert(c.kept() =~= old_kept.remove(f));
                        *self = c;
                    },
                }
            },
        }
    }
}

} // verus!
