//! Lookup and autocompletion over tries of words.
//!
//! A trie holds its words as UTF-8 bytes. Its contents are named by
//! [trie_words] and [map_trie_entries]; the trusted items below say what the
//! trie's searches return in terms of those contents, and the lookups of this
//! module are proved from that.
use crate::lookup::{Lookup, LookupError, Resolve};
use crate::chars::push_str;
use trie_rs::iter::KeysExt;
use vstd::prelude::*;
use vstd::string::*;
use vstd::utf8::*;

verus! {

#[verifier::external_type_specification]
#[verifier::external_body]
#[verifier::reject_recursive_types(L)]
pub struct ExTrie<L>(trie_rs::Trie<L>);

#[verifier::external_type_specification]
#[verifier::external_body]
#[verifier::reject_recursive_types(L)]
#[verifier::reject_recursive_types(V)]
pub struct ExMapTrie<L, V>(trie_rs::map::Trie<L, V>);

#[verifier::external_type_specification]
#[verifier::external_body]
#[verifier::reject_recursive_types(L)]
#[verifier::reject_recursive_types(V)]
pub struct ExMapTrieBuilder<L, V>(trie_rs::map::TrieBuilder<L, V>);

/// The words a trie holds, as byte sequences.
pub uninterp spec fn trie_words(t: trie_rs::Trie<u8>) -> Set<Seq<u8>>;

/// The words a map trie holds, each with its value.
pub uninterp spec fn map_trie_entries(t: trie_rs::map::Trie<u8, usize>) -> Map<Seq<u8>, usize>;

/// The words a map trie builder holds so far, each with its value.
pub uninterp spec fn map_builder_entries(b: trie_rs::map::TrieBuilder<u8, usize>) -> Map<Seq<u8>, usize>;

/// The words of `words` that start with `q`.
pub open spec fn prefixed(words: Set<Seq<u8>>, q: Seq<u8>) -> Set<Seq<u8>> {
    words.filter(|k: Seq<u8>| q.is_prefix_of(k))
}

/// Some word starts with `p`: the trie has a node for `p`.
pub open spec fn has_node(words: Set<Seq<u8>>, p: Seq<u8>) -> bool {
    exists|k: Seq<u8>| words.contains(k) && p.is_prefix_of(k)
}

/// `p` is a non-empty word of the trie.
pub open spec fn is_terminal(words: Set<Seq<u8>>, p: Seq<u8>) -> bool {
    p.len() > 0 && words.contains(p)
}

/// The node for `p` has exactly one child.
pub open spec fn sole_next(words: Set<Seq<u8>>, p: Seq<u8>) -> bool {
    exists|c: u8|
        has_node(words, p.push(c)) && forall|d: u8| #[trigger] has_node(words, p.push(d)) ==> d == c
}

/// A walk from `q` that only follows nodes with one child, never passes a word
/// and stops at `r`: a word or a node with other than one child.
pub open spec fn walk_ends_at(words: Set<Seq<u8>>, q: Seq<u8>, r: Seq<u8>) -> bool {
    &&& q.is_prefix_of(r)
    &&& r.len() > 0
    &&& has_node(words, r)
    &&& forall|i: int|
        q.len() <= i < r.len() ==> !is_terminal(words, #[trigger] r.take(i)) && sole_next(
            words,
            r.take(i),
        )
    &&& is_terminal(words, r) || !sole_next(words, r)
}

/// The longest shared prefix or word that a trie reaches from `q`: nothing
/// where no word starts with `q`, or where `q` is empty and the words do not
/// all share a first byte.
pub open spec fn trie_walk(words: Set<Seq<u8>>, q: Seq<u8>) -> Option<Seq<u8>> {
    if (q.len() > 0 && !has_node(words, q)) || (q.len() == 0 && !sole_next(words, q)) {
        None
    } else {
        Some(choose|r: Seq<u8>| walk_ends_at(words, q, r))
    }
}

/// The value of word `q` in the entries, if `q` is a non-empty word there.
pub open spec fn map_trie_value(entries: Map<Seq<u8>, usize>, q: Seq<u8>) -> Option<usize> {
    if q.len() > 0 && entries.contains_key(q) {
        Some(entries[q])
    } else {
        None
    }
}

/// The UTF-8 encoding of an optional string.
pub open spec fn opt_bytes(r: Option<String>) -> Option<Seq<u8>> {
    match r {
        Some(s) => Some(encode_utf8(s@)),
        None => None,
    }
}

/// No words at all.
pub open spec fn no_entries() -> Map<Seq<u8>, usize> {
    Map::empty()
}

/// The UTF-8 encodings of a list of strings.
pub open spec fn strings_bytes(v: Seq<String>) -> Seq<Seq<u8>> {
    Seq::new(v.len(), |i: int| encode_utf8(v[i]@))
}

/// Every word starting with `q` is valid UTF-8.
pub open spec fn prefixed_valid(words: Set<Seq<u8>>, q: Seq<u8>) -> bool {
    forall|k: Seq<u8>| #[trigger] prefixed(words, q).contains(k) ==> valid_utf8(k)
}

/// Where the walk from `q` reaches a node, its bytes are valid UTF-8.
pub open spec fn walk_valid(words: Set<Seq<u8>>, q: Seq<u8>) -> bool {
    trie_walk(words, q) matches Some(r) ==> valid_utf8(r)
}

/// What a lookup in a trie answers: found when the input is one of the
/// words, else how many words start with it.
pub open spec fn trie_lookup_matches(r: Result<(), LookupError>, words: Set<Seq<u8>>, q: Seq<u8>) -> bool {
    let found = q.len() > 0 && words.contains(q);
    let ms = prefixed(words, q);
    match r {
        Ok(()) => found,
        Err(LookupError::NoMatch) => !found && ms == Set::<Seq<u8>>::empty(),
        Err(LookupError::OneMatch(s)) => !found && ms == set![encode_utf8(s@)],
        Err(LookupError::ManyMatches) => !found && exists|a: Seq<u8>, b: Seq<u8>|
            a != b && ms.contains(a) && ms.contains(b),
        Err(LookupError::Message(_)) => false,
    }
}

/// Whether `q` is a word of the trie (`trie_rs::Trie::exact_match`).
#[verifier::external_body]
fn trie_exact_match(t: &trie_rs::Trie<u8>, q: &str) -> (b: bool)
    ensures
        b == (encode_utf8(q@).len() > 0 && trie_words(*t).contains(encode_utf8(q@))),
{
    t.exact_match(q)
}

/// The words that start with `q`, each once, as strings
/// (`trie_rs::Trie::predictive_search`); it panics on a word that is not
/// UTF-8, which `requires` leaves out.
#[verifier::external_body]
fn trie_predictive_search(t: &trie_rs::Trie<u8>, q: &str) -> (v: Vec<String>)
    requires
        prefixed_valid(trie_words(*t), encode_utf8(q@)),
    ensures
        strings_bytes(v@).no_duplicates(),
        strings_bytes(v@).to_set() == prefixed(trie_words(*t), encode_utf8(q@)),
{
    t.predictive_search::<String, trie_rs::try_collect::StringCollect>(q).collect()
}

/// The longest shared prefix or word reached from `q`
/// (`trie_rs::Trie::longest_prefix`); it panics where that prefix is not
/// UTF-8, which `requires` leaves out.
#[verifier::external_body]
fn trie_longest_prefix(t: &trie_rs::Trie<u8>, q: &str) -> (r: Option<String>)
    requires
        walk_valid(trie_words(*t), encode_utf8(q@)),
    ensures
        opt_bytes(r) == trie_walk(trie_words(*t), encode_utf8(q@)),
{
    t.longest_prefix::<String, trie_rs::try_collect::StringCollect>(q)
}

/// The value of `q` if it is a word of the map trie
/// (`trie_rs::map::Trie::exact_match`).
#[verifier::external_body]
fn map_trie_exact_match(t: &trie_rs::map::Trie<u8, usize>, q: &str) -> (r: Option<usize>)
    ensures
        r == map_trie_value(map_trie_entries(*t), encode_utf8(q@)),
{
    t.exact_match(q).copied()
}

/// The words of the map trie that start with `q`, each once
/// (`trie_rs::map::Trie::predictive_search`); it panics on a word that is
/// not UTF-8, which `requires` leaves out.
#[verifier::external_body]
fn map_trie_predictive_search(t: &trie_rs::map::Trie<u8, usize>, q: &str) -> (v: Vec<String>)
    requires
        prefixed_valid(map_trie_entries(*t).dom(), encode_utf8(q@)),
    ensures
        strings_bytes(v@).no_duplicates(),
        strings_bytes(v@).to_set() == prefixed(map_trie_entries(*t).dom(), encode_utf8(q@)),
{
    t.predictive_search::<String, trie_rs::try_collect::StringCollect>(q).keys().collect()
}

/// The longest shared prefix or word reached from `q`
/// (`trie_rs::map::Trie::longest_prefix`); it panics where that prefix is not
/// UTF-8, which `requires` leaves out.
#[verifier::external_body]
fn map_trie_longest_prefix(t: &trie_rs::map::Trie<u8, usize>, q: &str) -> (r: Option<String>)
    requires
        walk_valid(map_trie_entries(*t).dom(), encode_utf8(q@)),
    ensures
        opt_bytes(r) == trie_walk(map_trie_entries(*t).dom(), encode_utf8(q@)),
{
    t.longest_prefix::<String, trie_rs::try_collect::StringCollect>(q)
}

/// A builder with no words (`trie_rs::map::TrieBuilder::new`).
#[verifier::external_body]
pub(crate) fn map_builder_new() -> (r: trie_rs::map::TrieBuilder<u8, usize>)
    ensures
        map_builder_entries(r) == no_entries(),
{
    trie_rs::map::TrieBuilder::new()
}

/// Adds a word with its value, replacing the value of an equal word
/// (`trie_rs::map::TrieBuilder::push`); it panics on an empty word, which
/// `requires` leaves out.
#[verifier::external_body]
pub(crate) fn map_builder_push(b: &mut trie_rs::map::TrieBuilder<u8, usize>, word: &str, value: usize)
    requires
        encode_utf8(word@).len() > 0,
    ensures
        map_builder_entries(*final(b)) == map_builder_entries(*old(b)).insert(encode_utf8(word@), value),
{
    b.push(word, value)
}

/// The trie of the builder's words (`trie_rs::map::TrieBuilder::build`).
#[verifier::external_body]
pub(crate) fn map_builder_build(b: trie_rs::map::TrieBuilder<u8, usize>) -> (t: trie_rs::map::Trie<u8, usize>)
    ensures
        map_trie_entries(t) == map_builder_entries(b),
{
    b.build()
}

/// Builds a map trie from names: each non-empty name maps to its index in
/// `names`; of equal names the last one's index stays.
pub fn name_trie(names: &[&str]) -> (t: trie_rs::map::Trie<u8, usize>)
    ensures
        map_trie_entries(t) == names_map(names@.map_values(|n: &str| n@), names@.len() as int),
{
    let ghost nv = names@.map_values(|n: &str| n@);
    let mut b = map_builder_new();
    let mut i: usize = 0;
    while i < names.len()
        invariant
            nv == names@.map_values(|n: &str| n@),
            i <= names@.len(),
            map_builder_entries(b) == names_map(nv, i as int),
        decreases names@.len() - i,
    {
        let name = names[i];
        proof {
            lemma_encode_nonempty(name@);
            assert(nv[i as int] == name@);
        }
        if !name.is_empty() {
            map_builder_push(&mut b, name, i);
        }
        i = i + 1;
    }
    map_builder_build(b)
}

/// The map from the UTF-8 bytes of each non-empty name among the first `n`
/// names to the index of its last occurrence.
pub open spec fn names_map(names: Seq<Seq<char>>, n: int) -> Map<Seq<u8>, usize>
    decreases n,
{
    if n <= 0 {
        Map::empty()
    } else if encode_utf8(names[n - 1]).len() > 0 {
        names_map(names, n - 1).insert(encode_utf8(names[n - 1]), (n - 1) as usize)
    } else {
        names_map(names, n - 1)
    }
}

/// A string is empty exactly when its UTF-8 encoding is.
pub proof fn lemma_encode_nonempty(chars: Seq<char>)
    ensures
        (encode_utf8(chars).len() == 0) == (chars.len() == 0),
{
    if chars.len() > 0 {
        assert(encode_scalar(chars[0] as u32).len() >= 1);
    }
}

proof fn lemma_search_result(v: Seq<String>, ms: Set<Seq<u8>>)
    requires
        strings_bytes(v).no_duplicates(),
        strings_bytes(v).to_set() == ms,
    ensures
        v.len() == 0 ==> ms == Set::<Seq<u8>>::empty(),
        v.len() == 1 ==> ms == set![encode_utf8(v[0]@)],
        v.len() >= 2 ==> encode_utf8(v[0]@) != encode_utf8(v[1]@) && ms.contains(encode_utf8(v[0]@))
            && ms.contains(encode_utf8(v[1]@)),
{
    let sb = strings_bytes(v);
    if v.len() == 0 {
        assert(ms =~= Set::<Seq<u8>>::empty()) by {
            assert forall|k: Seq<u8>| !ms.contains(k) by {
                if ms.contains(k) {
                    assert(sb.contains(k));
                }
            }
        }
    } else if v.len() == 1 {
        assert(sb[0] == encode_utf8(v[0]@));
        assert(ms =~= set![encode_utf8(v[0]@)]) by {
            assert forall|k: Seq<u8>| ms.contains(k) <==> k == encode_utf8(v[0]@) by {
                if ms.contains(k) {
                    assert(sb.contains(k));
                }
                if k == encode_utf8(v[0]@) {
                    assert(sb.contains(sb[0]));
                }
            }
        }
    } else {
        assert(sb[0] == encode_utf8(v[0]@));
        assert(sb[1] == encode_utf8(v[1]@));
        assert(sb.contains(sb[0]));
        assert(sb.contains(sb[1]));
    }
}

/// Classifies a lookup in a trie from whether the input is a word and from
/// the words that start with it.
fn classify(found: bool, v: Vec<String>) -> (r: Result<(), LookupError>)
    requires
        !found ==> strings_bytes(v@).no_duplicates(),
    ensures
        found ==> r is Ok,
        !found ==> (r matches Err(e) && (match e {
            LookupError::NoMatch => v@.len() == 0,
            LookupError::OneMatch(s) => v@.len() == 1 && s@ == v@[0]@,
            LookupError::ManyMatches => v@.len() >= 2,
            LookupError::Message(_) => false,
        })),
{
    if found {
        return Ok(());
    }
    let mut v = v;
    if v.len() == 0 {
        Err(LookupError::NoMatch)
    } else if v.len() == 1 {
        let s = v.pop().unwrap();
        Err(LookupError::OneMatch(s))
    } else {
        Err(LookupError::ManyMatches)
    }
}

impl Lookup for trie_rs::Trie<u8> {
    open spec fn completes(&self, input: Seq<char>) -> bool {
        prefixed_valid(trie_words(*self), encode_utf8(input))
    }

    open spec fn extends(&self, input: Seq<char>) -> bool {
        walk_valid(trie_words(*self), encode_utf8(input))
    }

    open spec fn lookup_gives(&self, input: Seq<char>, r: Result<(), LookupError>) -> bool {
        trie_lookup_matches(r, trie_words(*self), encode_utf8(input))
    }

    open spec fn prefix_gives(&self, input: Seq<char>, r: Option<String>) -> bool {
        opt_bytes(r) == trie_walk(trie_words(*self), encode_utf8(input))
    }

    open spec fn lookups_give(&self, input: Seq<char>, r: Seq<String>) -> bool {
        &&& strings_bytes(r).no_duplicates()
        &&& strings_bytes(r).to_set() == prefixed(trie_words(*self), encode_utf8(input))
    }

    fn lookup(&self, input: &str) -> Result<(), LookupError> {
        if trie_exact_match(self, input) {
            return Ok(());
        }
        let v = trie_predictive_search(self, input);
        proof {
            lemma_search_result(v@, prefixed(trie_words(*self), encode_utf8(input@)));
        }
        let ghost vv = v@;
        let r = classify(false, v);
        proof {
            if vv.len() >= 2 {
                let a = encode_utf8(vv[0]@);
                let b = encode_utf8(vv[1]@);
                assert(prefixed(trie_words(*self), encode_utf8(input@)).contains(a));
                assert(prefixed(trie_words(*self), encode_utf8(input@)).contains(b));
            }
        }
        r
    }

    fn longest_prefix(&self, input: &str) -> Option<String> {
        trie_longest_prefix(self, input)
    }

    fn all_lookups(&self, input: &str) -> Vec<String> {
        trie_predictive_search(self, input)
    }
}

impl Lookup for trie_rs::map::Trie<u8, usize> {
    open spec fn completes(&self, input: Seq<char>) -> bool {
        prefixed_valid(map_trie_entries(*self).dom(), encode_utf8(input))
    }

    open spec fn extends(&self, input: Seq<char>) -> bool {
        walk_valid(map_trie_entries(*self).dom(), encode_utf8(input))
    }

    open spec fn lookup_gives(&self, input: Seq<char>, r: Result<(), LookupError>) -> bool {
        trie_lookup_matches(r, map_trie_entries(*self).dom(), encode_utf8(input))
    }

    open spec fn prefix_gives(&self, input: Seq<char>, r: Option<String>) -> bool {
        opt_bytes(r) == trie_walk(map_trie_entries(*self).dom(), encode_utf8(input))
    }

    open spec fn lookups_give(&self, input: Seq<char>, r: Seq<String>) -> bool {
        &&& strings_bytes(r).no_duplicates()
        &&& strings_bytes(r).to_set() == prefixed(map_trie_entries(*self).dom(), encode_utf8(input))
    }

    fn lookup(&self, input: &str) -> Result<(), LookupError> {
        if map_trie_exact_match(self, input).is_some() {
            return Ok(());
        }
        let v = map_trie_predictive_search(self, input);
        proof {
            lemma_search_result(v@, prefixed(map_trie_entries(*self).dom(), encode_utf8(input@)));
        }
        let ghost vv = v@;
        let r = classify(false, v);
        proof {
            if vv.len() >= 2 {
                let a = encode_utf8(vv[0]@);
                let b = encode_utf8(vv[1]@);
                assert(prefixed(map_trie_entries(*self).dom(), encode_utf8(input@)).contains(a));
                assert(prefixed(map_trie_entries(*self).dom(), encode_utf8(input@)).contains(b));
            }
        }
        r
    }

    fn longest_prefix(&self, input: &str) -> Option<String> {
        map_trie_longest_prefix(self, input)
    }

    fn all_lookups(&self, input: &str) -> Vec<String> {
        map_trie_predictive_search(self, input)
    }
}

impl Resolve for trie_rs::map::Trie<u8, usize> {
    type Item = usize;

    fn resolve(&self, input: &str) -> (r: Option<usize>)
        ensures
            r == map_trie_value(map_trie_entries(*self), encode_utf8(input@)),
    {
        map_trie_exact_match(self, input)
    }

    fn resolve_res(&self, input: &str) -> (r: Result<usize, LookupError>)
        ensures
            match map_trie_value(map_trie_entries(*self), encode_utf8(input@)) {
                Some(v) => r matches Ok(x) && x == v,
                None => r matches Err(e) && trie_lookup_matches(
                    Err(e),
                    map_trie_entries(*self).dom(),
                    encode_utf8(input@),
                ),
            },
    {
        match map_trie_exact_match(self, input) {
            Some(v) => Ok(v),
            None => match self.lookup(input) {
                Ok(()) => {
                    let mut m = String::new();
                    push_str(&mut m, "Inconsistent: Resolve failed but lookup succeeded.");
                    Err(LookupError::Message(m))
                },
                Err(e) => Err(e),
            },
        }
    }
}

} // verus!
