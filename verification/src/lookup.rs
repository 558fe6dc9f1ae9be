//! Lookup and autocompletion over lists of words.
//!
//! A word list completes an input by the words that start with it. The
//! outcome of a lookup, the longest prefix that every such word shares, and
//! the word an input resolves to are all stated over the sequence of those
//! matching words, in the order the list holds them.
use crate::chars::{chars_eq, from_chars, is_prefix, push_str, to_chars};
use vstd::prelude::*;
use vstd::string::*;

verus! {

/// Look up error
///
/// Alternatives to having an exact match for lookup.
#[derive(Debug, Clone)]
pub enum LookupError {
    /// An error message
    Message(String),
    /// No matches
    NoMatch,
    /// One match
    OneMatch(String),
    /// Many matches
    ManyMatches,
}

/// The outcome of a lookup, as a mathematical value.
pub enum LookupOutcome {
    /// The input is one of the words.
    Found,
    /// A message instead of an answer.
    Message(Seq<char>),
    /// No word starts with the input.
    NoMatch,
    /// Exactly this one word starts with the input.
    OneMatch(Seq<char>),
    /// More than one word starts with the input.
    ManyMatches,
}

/// The outcome that a lookup's result stands for.
pub open spec fn outcome_of(r: Result<(), LookupError>) -> LookupOutcome {
    match r {
        Ok(()) => LookupOutcome::Found,
        Err(LookupError::Message(s)) => LookupOutcome::Message(s@),
        Err(LookupError::NoMatch) => LookupOutcome::NoMatch,
        Err(LookupError::OneMatch(s)) => LookupOutcome::OneMatch(s@),
        Err(LookupError::ManyMatches) => LookupOutcome::ManyMatches,
    }
}

/// The text of a lookup error.
pub open spec fn error_text(e: LookupError) -> Seq<char> {
    match e {
        LookupError::Message(s) => s@,
        LookupError::NoMatch => seq!['N', 'o', ' ', 'm', 'a', 't', 'c', 'h', 'e', 's'],
        LookupError::OneMatch(s) => seq!['O', 'n', 'e', ' ', 'm', 'a', 't', 'c', 'h', ':', ' '] + s@,
        LookupError::ManyMatches => seq!['M', 'a', 'n', 'y', ' ', 'm', 'a', 't', 'c', 'h', 'e', 's'],
    }
}

impl LookupError {
    /// The text of this error, as it is shown to the user.
    pub fn message(&self) -> (s: String)
        ensures
            s@ == error_text(*self),
    {
        match self {
            LookupError::Message(m) => {
                let mut s = String::new();
                push_str(&mut s, m.as_str());
                s
            },
            LookupError::NoMatch => {
                let mut s = String::new();
                push_str(&mut s, "No matches");
                proof {
                    reveal_strlit("No matches");
                    assert(s@ =~= error_text(*self));
                }
                s
            },
            LookupError::OneMatch(m) => {
                let mut s = String::new();
                push_str(&mut s, "One match: ");
                push_str(&mut s, m.as_str());
                proof {
                    reveal_strlit("One match: ");
                    assert(s@ =~= error_text(*self));
                }
                s
            },
            LookupError::ManyMatches => {
                let mut s = String::new();
                push_str(&mut s, "Many matches");
                proof {
                    reveal_strlit("Many matches");
                    assert(s@ =~= error_text(*self));
                }
                s
            },
        }
    }
}

/// The words that start with `input`, in the order of `words`.
pub open spec fn prefix_matches(words: Seq<Seq<char>>, input: Seq<char>) -> Seq<Seq<char>>
    decreases words.len(),
{
    if words.len() == 0 {
        seq![]
    } else {
        let rest = prefix_matches(words.drop_last(), input);
        if input.is_prefix_of(words.last()) {
            rest.push(words.last())
        } else {
            rest
        }
    }
}

/// The outcome of looking `input` up in `words`: found when one of the words
/// is the input, wherever it stands; otherwise it follows the number of words
/// that start with the input.
pub open spec fn list_outcome(words: Seq<Seq<char>>, input: Seq<char>) -> LookupOutcome {
    let ms = prefix_matches(words, input);
    if words.contains(input) {
        LookupOutcome::Found
    } else if ms.len() == 0 {
        LookupOutcome::NoMatch
    } else if ms.len() == 1 {
        LookupOutcome::OneMatch(ms[0])
    } else {
        LookupOutcome::ManyMatches
    }
}

/// The index of the first position at or after `i` where `a` and `b` differ
/// or one of them ends.
pub open spec fn first_diff(a: Seq<char>, b: Seq<char>, i: nat) -> nat
    decreases a.len() - i,
{
    if i >= a.len() || i >= b.len() || a[i as int] != b[i as int] {
        i
    } else {
        first_diff(a, b, i + 1)
    }
}

/// The longest common prefix of two sequences.
pub open spec fn common_prefix(a: Seq<char>, b: Seq<char>) -> Seq<char> {
    a.take(first_diff(a, b, 0) as int)
}

/// The longest common prefix of a non-empty list of sequences.
pub open spec fn lcp(ms: Seq<Seq<char>>) -> Seq<char>
    decreases ms.len(),
{
    if ms.len() == 0 {
        seq![]
    } else if ms.len() == 1 {
        ms[0]
    } else {
        common_prefix(lcp(ms.drop_last()), ms.last())
    }
}

/// The longest prefix that every word starting with `input` shares, or
/// nothing when no word starts with it.
pub open spec fn list_longest_prefix(words: Seq<Seq<char>>, input: Seq<char>) -> Option<Seq<char>> {
    let ms = prefix_matches(words, input);
    if ms.len() == 0 {
        None
    } else {
        Some(lcp(ms))
    }
}

/// The word that `input` resolves to: the one word starting with it, if
/// exactly one does.
pub open spec fn list_resolve(words: Seq<Seq<char>>, input: Seq<char>) -> Option<Seq<char>> {
    let ms = prefix_matches(words, input);
    if ms.len() == 1 {
        Some(ms[0])
    } else {
        None
    }
}

/// The text of the message that reports a resolve that failed although the
/// lookup succeeded.
pub open spec fn inconsistent_text() -> Seq<char> {
    seq![
        'I', 'n', 'c', 'o', 'n', 's', 'i', 's', 't', 'e', 'n', 't', ':', ' ', 'R', 'e', 's', 'o',
        'l', 'v', 'e', ' ', 'f', 'a', 'i', 'l', 'e', 'd', ' ', 'b', 'u', 't', ' ', 'l', 'o', 'o',
        'k', 'u', 'p', ' ', 's', 'u', 'c', 'c', 'e', 'e', 'd', 'e', 'd', '.',
    ]
}

/// What `resolve_res` answers: the resolved word, or else the lookup's error,
/// or a message where the lookup found the input that resolve could not.
pub open spec fn resolve_res_matches(
    r: Result<String, LookupError>,
    resolved: Option<Seq<char>>,
    outcome: LookupOutcome,
) -> bool {
    match resolved {
        Some(w) => r matches Ok(s) && s@ == w,
        None => match r {
            Ok(_) => false,
            Err(e) => match outcome {
                LookupOutcome::Found => e matches LookupError::Message(m) && m@ == inconsistent_text(),
                _ => outcome_of(Err(e)) == outcome,
            },
        },
    }
}

/// The character sequences of a list of strings.
pub open spec fn words_view(words: Seq<&str>) -> Seq<Seq<char>> {
    Seq::new(words.len(), |i: int| words[i]@)
}

/// The character sequences of a list of owned strings.
pub open spec fn strings_view(words: Seq<String>) -> Seq<Seq<char>> {
    Seq::new(words.len(), |i: int| words[i]@)
}

/// The character sequences of a list of character vectors.
pub open spec fn chars_view(words: Seq<Vec<char>>) -> Seq<Seq<char>> {
    Seq::new(words.len(), |i: int| words[i]@)
}

/// The matches among the first `i` words are a prefix of all the matches.
pub proof fn lemma_prefix_matches_take(words: Seq<Seq<char>>, input: Seq<char>, i: int)
    requires
        0 <= i <= words.len(),
    ensures
        prefix_matches(words.take(i), input).is_prefix_of(prefix_matches(words, input)),
    decreases words.len(),
{
    if i == words.len() {
        assert(words.take(i) =~= words);
    } else {
        assert(words.drop_last().take(i) =~= words.take(i));
        lemma_prefix_matches_take(words.drop_last(), input, i);
    }
}

/// Adding one word to the list adds it to the matches if it starts with the
/// input.
proof fn lemma_prefix_matches_step(words: Seq<Seq<char>>, input: Seq<char>, i: int)
    requires
        0 <= i < words.len(),
    ensures
        prefix_matches(words.take(i + 1), input) == if input.is_prefix_of(words[i]) {
            prefix_matches(words.take(i), input).push(words[i])
        } else {
            prefix_matches(words.take(i), input)
        },
{
    assert(words.take(i + 1).drop_last() =~= words.take(i));
}

/// Every match starts with the input and is one of the words.
pub proof fn lemma_prefix_matches_members(words: Seq<Seq<char>>, input: Seq<char>)
    ensures
        forall|j: int|
            0 <= j < prefix_matches(words, input).len() ==> input.is_prefix_of(
                #[trigger] prefix_matches(words, input)[j],
            ) && words.contains(prefix_matches(words, input)[j]),
        prefix_matches(words, input).len() <= words.len(),
    decreases words.len(),
{
    if words.len() > 0 {
        lemma_prefix_matches_members(words.drop_last(), input);
        let rest = prefix_matches(words.drop_last(), input);
        assert forall|j: int| 0 <= j < rest.len() implies words.contains(#[trigger] rest[j]) by {
            let k = choose|k: int| 0 <= k < words.drop_last().len() && words.drop_last()[k] == rest[j];
            assert(words[k] == rest[j]);
        }
        assert(words[words.len() - 1] == words.last());
    }
}

/// A word starting with the input is among the matches.
pub proof fn lemma_prefix_matches_complete(words: Seq<Seq<char>>, input: Seq<char>, k: int)
    requires
        0 <= k < words.len(),
        input.is_prefix_of(words[k]),
    ensures
        prefix_matches(words, input).contains(words[k]),
    decreases words.len(),
{
    if k == words.len() - 1 {
        let ms = prefix_matches(words, input);
        assert(ms[ms.len() - 1] == words[k]);
    } else {
        lemma_prefix_matches_complete(words.drop_last(), input, k);
        let rest = prefix_matches(words.drop_last(), input);
        let j = choose|j: int| 0 <= j < rest.len() && rest[j] == words[k];
        let ms = prefix_matches(words, input);
        assert(ms[j] == words[k]);
    }
}

proof fn lemma_first_diff(a: Seq<char>, b: Seq<char>, i: nat)
    requires
        i <= a.len(),
        i <= b.len(),
    ensures
        i <= first_diff(a, b, i) <= a.len(),
        first_diff(a, b, i) <= b.len(),
        forall|j: int| i <= j < first_diff(a, b, i) ==> a[j] == b[j],
        first_diff(a, b, i) < a.len() && first_diff(a, b, i) < b.len() ==> a[first_diff(
            a,
            b,
            i,
        ) as int] != b[first_diff(a, b, i) as int],
    decreases a.len() - i,
{
    if !(i >= a.len() || i >= b.len() || a[i as int] != b[i as int]) {
        lemma_first_diff(a, b, i + 1);
    }
}

/// The common prefix of `a` and `b` is a prefix of both, and every common
/// prefix of `a` and `b` is a prefix of it.
pub proof fn lemma_common_prefix(a: Seq<char>, b: Seq<char>)
    ensures
        common_prefix(a, b).is_prefix_of(a),
        common_prefix(a, b).is_prefix_of(b),
        forall|p: Seq<char>|
            p.is_prefix_of(a) && p.is_prefix_of(b) ==> #[trigger] p.is_prefix_of(
                common_prefix(a, b),
            ),
{
    lemma_first_diff(a, b, 0);
    let k = first_diff(a, b, 0);
    let c = common_prefix(a, b);
    assert(c =~= b.take(k as int));
    assert forall|p: Seq<char>| p.is_prefix_of(a) && p.is_prefix_of(b) implies #[trigger] p.is_prefix_of(
        c,
    ) by {
        if p.len() > k {
            assert(p[k as int] == a[k as int]);
            assert(p[k as int] == b[k as int]);
        }
        assert(p =~= c.subrange(0, p.len() as int));
    }
}

/// The longest common prefix is a prefix of every sequence in the list, and
/// every common prefix of the list is a prefix of it.
pub proof fn lemma_lcp(ms: Seq<Seq<char>>)
    requires
        ms.len() > 0,
    ensures
        forall|j: int| 0 <= j < ms.len() ==> lcp(ms).is_prefix_of(#[trigger] ms[j]),
        forall|p: Seq<char>|
            (forall|j: int| 0 <= j < ms.len() ==> p.is_prefix_of(#[trigger] ms[j])) ==> #[trigger] p.is_prefix_of(
                lcp(ms),
            ),
    decreases ms.len(),
{
    if ms.len() == 1 {
        assert forall|p: Seq<char>|
            (forall|j: int| 0 <= j < ms.len() ==> p.is_prefix_of(#[trigger] ms[j])) implies #[trigger] p.is_prefix_of(
            lcp(ms),
        ) by {
            assert(p.is_prefix_of(ms[0]));
        }
    } else {
        let init = ms.drop_last();
        lemma_lcp(init);
        lemma_common_prefix(lcp(init), ms.last());
        let l = lcp(ms);
        assert forall|j: int| 0 <= j < ms.len() implies l.is_prefix_of(#[trigger] ms[j]) by {
            if j < ms.len() - 1 {
                assert(init[j] == ms[j]);
                assert(lcp(init).is_prefix_of(init[j]));
            }
        }
        assert forall|p: Seq<char>|
            (forall|j: int| 0 <= j < ms.len() ==> p.is_prefix_of(#[trigger] ms[j])) implies #[trigger] p.is_prefix_of(
            l,
        ) by {
            assert forall|j: int| 0 <= j < init.len() implies p.is_prefix_of(#[trigger] init[j]) by {
                assert(init[j] == ms[j]);
            }
            assert(p.is_prefix_of(lcp(init)));
            assert(p.is_prefix_of(ms[ms.len() - 1]));
        }
    }
}

/// Copies a character slice into a vector.
fn copy_chars(v: &[char]) -> (r: Vec<char>)
    ensures
        r@ == v@,
{
    let mut r: Vec<char> = Vec::new();
    let mut i: usize = 0;
    while i < v.len()
        invariant
            i <= v@.len(),
            r@ == v@.subrange(0, i as int),
        decreases v@.len() - i,
    {
        r.push(v[i]);
        i = i + 1;
    }
    assert(r@ =~= v@);
    r
}

/// The characters of each word.
pub fn words_chars(words: &[&str]) -> (v: Vec<Vec<char>>)
    ensures
        chars_view(v@) == words_view(words@),
{
    let mut v: Vec<Vec<char>> = Vec::new();
    let mut i: usize = 0;
    while i < words.len()
        invariant
            i <= words@.len(),
            v@.len() == i,
            forall|j: int| 0 <= j < i ==> (#[trigger] v@[j])@ == words@[j]@,
        decreases words@.len() - i,
    {
        v.push(to_chars(words[i]));
        i = i + 1;
    }
    assert(chars_view(v@) =~= words_view(words@));
    v
}

/// The characters of each owned string.
pub fn strings_chars(words: &[String]) -> (v: Vec<Vec<char>>)
    ensures
        chars_view(v@) == strings_view(words@),
{
    let mut v: Vec<Vec<char>> = Vec::new();
    let mut i: usize = 0;
    while i < words.len()
        invariant
            i <= words@.len(),
            v@.len() == i,
            forall|j: int| 0 <= j < i ==> (#[trigger] v@[j])@ == words@[j]@,
        decreases words@.len() - i,
    {
        v.push(to_chars(words[i].as_str()));
        i = i + 1;
    }
    assert(chars_view(v@) =~= strings_view(words@));
    v
}

/// The words that start with `input`, in order.
pub fn matching_words(words: &Vec<Vec<char>>, input: &Vec<char>) -> (ms: Vec<Vec<char>>)
    ensures
        chars_view(ms@) == prefix_matches(chars_view(words@), input@),
{
    let ghost wv = chars_view(words@);
    let mut ms: Vec<Vec<char>> = Vec::new();
    let mut i: usize = 0;
    while i < words.len()
        invariant
            wv == chars_view(words@),
            i <= words@.len(),
            chars_view(ms@) == prefix_matches(wv.take(i as int), input@),
        decreases words@.len() - i,
    {
        proof {
            lemma_prefix_matches_step(wv, input@, i as int);
        }
        if is_prefix(input.as_slice(), words[i].as_slice()) {
            let w = copy_chars(words[i].as_slice());
            ms.push(w);
            assert(chars_view(ms@) =~= prefix_matches(wv.take(i as int), input@).push(wv[i as int]));
        }
        i = i + 1;
    }
    assert(wv.take(words@.len() as int) =~= wv);
    ms
}

/// Looks `input` up in `words`.
pub fn lookup_chars(words: &Vec<Vec<char>>, input: &Vec<char>) -> (r: Result<(), LookupError>)
    ensures
        outcome_of(r) == list_outcome(chars_view(words@), input@),
{
    let ghost wv = chars_view(words@);
    let mut i: usize = 0;
    while i < words.len()
        invariant
            wv == chars_view(words@),
            i <= words@.len(),
            forall|j: int| 0 <= j < i ==> wv[j] != input@,
        decreases words@.len() - i,
    {
        if chars_eq(words[i].as_slice(), input.as_slice()) {
            assert(wv[i as int] == input@);
            return Ok(());
        }
        i = i + 1;
    }
    assert(!wv.contains(input@));
    let ms = matching_words(words, input);
    if ms.len() == 0 {
        Err(LookupError::NoMatch)
    } else if ms.len() == 1 {
        assert(chars_view(ms@)[0] == ms@[0]@);
        Err(LookupError::OneMatch(from_chars(ms[0].as_slice())))
    } else {
        Err(LookupError::ManyMatches)
    }
}

/// The longest prefix that every word starting with `input` shares.
pub fn longest_prefix_chars(words: &Vec<Vec<char>>, input: &Vec<char>) -> (r: Option<String>)
    ensures
        match r {
            Some(s) => list_longest_prefix(chars_view(words@), input@) == Some(s@),
            None => list_longest_prefix(chars_view(words@), input@) is None,
        },
{
    let ms = matching_words(words, input);
    if ms.len() == 0 {
        return None;
    }
    let ghost mv = chars_view(ms@);
    let mut acc = copy_chars(ms[0].as_slice());
    let mut j: usize = 1;
    assert(mv.take(1) =~= seq![mv[0]]);
    while j < ms.len()
        invariant
            mv == chars_view(ms@),
            1 <= j <= ms@.len(),
            acc@ == lcp(mv.take(j as int)),
        decreases ms@.len() - j,
    {
        assert(mv.take(j + 1).drop_last() =~= mv.take(j as int));
        let other = &ms[j];
        let mut k: usize = 0;
        while k < acc.len() && k < other.len() && acc[k] == other[k]
            invariant
                k <= acc@.len(),
                k <= other@.len(),
                first_diff(acc@, other@, 0) == first_diff(acc@, other@, k as nat),
            decreases acc@.len() - k,
        {
            k = k + 1;
        }
        let ghost before = acc@;
        acc.truncate(k);
        assert(acc@ =~= common_prefix(before, mv[j as int]));
        j = j + 1;
    }
    assert(mv.take(ms@.len() as int) =~= mv);
    Some(from_chars(acc.as_slice()))
}

/// All the words that start with `input`, in order.
pub fn all_lookups_chars(words: &Vec<Vec<char>>, input: &Vec<char>) -> (r: Vec<String>)
    ensures
        strings_view(r@) == prefix_matches(chars_view(words@), input@),
{
    let ms = matching_words(words, input);
    let mut r: Vec<String> = Vec::new();
    let mut j: usize = 0;
    while j < ms.len()
        invariant
            j <= ms@.len(),
            r@.len() == j,
            forall|i: int| 0 <= i < j ==> (#[trigger] r@[i])@ == ms@[i]@,
        decreases ms@.len() - j,
    {
        r.push(from_chars(ms[j].as_slice()));
        j = j + 1;
    }
    assert(strings_view(r@) =~= chars_view(ms@));
    r
}

/// The one word that starts with `input`, if exactly one does.
pub fn resolve_chars(words: &Vec<Vec<char>>, input: &Vec<char>) -> (r: Option<String>)
    ensures
        match r {
            Some(s) => list_resolve(chars_view(words@), input@) == Some(s@),
            None => list_resolve(chars_view(words@), input@) is None,
        },
{
    let ms = matching_words(words, input);
    if ms.len() == 1 {
        Some(from_chars(ms[0].as_slice()))
    } else {
        None
    }
}

/// Resolves `input`, reporting the lookup's error where it cannot.
pub fn resolve_res_chars(words: &Vec<Vec<char>>, input: &Vec<char>) -> (r: Result<String, LookupError>)
    ensures
        resolve_res_matches(
            r,
            list_resolve(chars_view(words@), input@),
            list_outcome(chars_view(words@), input@),
        ),
{
    match resolve_chars(words, input) {
        Some(s) => Ok(s),
        None => match lookup_chars(words, input) {
            Ok(()) => {
                let mut m = String::new();
                push_str(&mut m, "Inconsistent: Resolve failed but lookup succeeded.");
                proof {
                    reveal_strlit("Inconsistent: Resolve failed but lookup succeeded.");
                    assert(m@ =~= inconsistent_text());
                }
                Err(LookupError::Message(m))
            },
            Err(e) => Err(e),
        },
    }
}

/// Look up possible completions
///
/// This trait is object-safe.
pub trait Lookup {
    /// Whether every word starting with `input` can be handed out as a string.
    spec fn completes(&self, input: Seq<char>) -> bool;

    /// Whether the longest prefix reached from `input` can be handed out as a
    /// string.
    spec fn extends(&self, input: Seq<char>) -> bool;

    /// Whether `r` is what a look up of `input` may give.
    spec fn lookup_gives(&self, input: Seq<char>, r: Result<(), LookupError>) -> bool;

    /// Whether `r` is what the longest prefix of `input` may come to.
    spec fn prefix_gives(&self, input: Seq<char>, r: Option<String>) -> bool;

    /// Whether `r` lists what all the matches of `input` may come to.
    spec fn lookups_give(&self, input: Seq<char>, r: Seq<String>) -> bool;

    /// Look up the `input`. If it matches exactly, this returns `Ok(())`.
    /// Otherwise it returns [LookupError], which can include its partial matches.
    fn lookup(&self, input: &str) -> (r: Result<(), LookupError>)
        requires
            self.completes(input@),
        ensures
            self.lookup_gives(input@, r),
    ;

    /// Return the longest prefix for `input`.
    fn longest_prefix(&self, input: &str) -> (r: Option<String>)
        requires
            self.extends(input@),
        ensures
            self.prefix_gives(input@, r),
    ;

    /// Return all matches for `input`.
    fn all_lookups(&self, input: &str) -> (r: Vec<String>)
        requires
            self.completes(input@),
        ensures
            self.lookups_give(input@, r@),
    ;
}

/// Resolve the input to a value of type `Item`.
///
/// This trait is not object-safe.
pub trait Resolve: Lookup {
    /// The type this resolves to.
    type Item;

    /// Resolve the `input`.
    fn resolve(&self, input: &str) -> Option<Self::Item>;

    /// Resolve the `input` or provide an error.
    fn resolve_res(&self, input: &str) -> Result<Self::Item, LookupError>
        requires
            self.completes(input@),
    ;
}

impl<'a> Lookup for [&'a str] {
    open spec fn completes(&self, input: Seq<char>) -> bool {
        true
    }

    open spec fn extends(&self, input: Seq<char>) -> bool {
        true
    }

    open spec fn lookup_gives(&self, input: Seq<char>, r: Result<(), LookupError>) -> bool {
        outcome_of(r) == list_outcome(words_view(self@), input)
    }

    open spec fn prefix_gives(&self, input: Seq<char>, r: Option<String>) -> bool {
        match r {
            Some(s) => list_longest_prefix(words_view(self@), input) == Some(s@),
            None => list_longest_prefix(words_view(self@), input) is None,
        }
    }

    open spec fn lookups_give(&self, input: Seq<char>, r: Seq<String>) -> bool {
        strings_view(r) == prefix_matches(words_view(self@), input)
    }

    fn lookup(&self, input: &str) -> Result<(), LookupError> {
        lookup_chars(&words_chars(self), &to_chars(input))
    }

    fn longest_prefix(&self, input: &str) -> Option<String> {
        longest_prefix_chars(&words_chars(self), &to_chars(input))
    }

    fn all_lookups(&self, input: &str) -> Vec<String> {
        all_lookups_chars(&words_chars(self), &to_chars(input))
    }
}

impl<'a> Resolve for [&'a str] {
    type Item = String;

    fn resolve(&self, input: &str) -> (r: Option<String>)
        ensures
            match r {
                Some(s) => list_resolve(words_view(self@), input@) == Some(s@),
                None => list_resolve(words_view(self@), input@) is None,
            },
    {
        resolve_chars(&words_chars(self), &to_chars(input))
    }

    fn resolve_res(&self, input: &str) -> (r: Result<String, LookupError>)
        ensures
            resolve_res_matches(
                r,
                list_resolve(words_view(self@), input@),
                list_outcome(words_view(self@), input@),
            ),
    {
        resolve_res_chars(&words_chars(self), &to_chars(input))
    }
}

impl Lookup for Vec<String> {
    open spec fn completes(&self, input: Seq<char>) -> bool {
        true
    }

    open spec fn extends(&self, input: Seq<char>) -> bool {
        true
    }

    open spec fn lookup_gives(&self, input: Seq<char>, r: Result<(), LookupError>) -> bool {
        outcome_of(r) == list_outcome(strings_view(self@), input)
    }

    open spec fn prefix_gives(&self, input: Seq<char>, r: Option<String>) -> bool {
        match r {
            Some(s) => list_longest_prefix(strings_view(self@), input) == Some(s@),
            None => list_longest_prefix(strings_view(self@), input) is None,
        }
    }

    open spec fn lookups_give(&self, input: Seq<char>, r: Seq<String>) -> bool {
        strings_view(r) == prefix_matches(strings_view(self@), input)
    }

    fn lookup(&self, input: &str) -> Result<(), LookupError> {
        lookup_chars(&strings_chars(self.as_slice()), &to_chars(input))
    }

    fn longest_prefix(&self, input: &str) -> Option<String> {
        longest_prefix_chars(&strings_chars(self.as_slice()), &to_chars(input))
    }

    fn all_lookups(&self, input: &str) -> Vec<String> {
        all_lookups_chars(&strings_chars(self.as_slice()), &to_chars(input))
    }
}

impl Resolve for Vec<String> {
    type Item = String;

    fn resolve(&self, input: &str) -> (r: Option<String>)
        ensures
            match r {
                Some(s) => list_resolve(strings_view(self@), input@) == Some(s@),
                None => list_resolve(strings_view(self@), input@) is None,
            },
    {
        resolve_chars(&strings_chars(self.as_slice()), &to_chars(input))
    }

    fn resolve_res(&self, input: &str) -> (r: Result<String, LookupError>)
        ensures
            resolve_res_matches(
                r,
                list_resolve(strings_view(self@), input@),
                list_outcome(strings_view(self@), input@),
            ),
    {
        resolve_res_chars(&strings_chars(self.as_slice()), &to_chars(input))
    }
}

} // verus!
