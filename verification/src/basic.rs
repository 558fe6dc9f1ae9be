//! The basic acts: run an act by name, and describe what a key sequence is
//! bound to.
use crate::acts::{first_hotkey, hotkeys_view, Act};
use crate::cache::DescribeStep;
use crate::chars::push_str;
use crate::flags::{has_bits, ActFlags};
use crate::hotkey::{hotkey_display, Hotkey, HotkeyView};
use crate::lookup::{error_text, Resolve};
use crate::plugin::{error_message, Error};
use crate::trie::{map_builder_build, map_builder_entries, map_builder_new, map_builder_push, map_trie_entries, map_trie_value, trie_lookup_matches, lemma_encode_nonempty};
use vstd::prelude::*;
use vstd::utf8::*;

verus! {

/// The names of the acts with all of `flags`, in UTF-8, each mapped to the
/// index of the last act of that name among the first `n` acts.
pub open spec fn flagged_names(acts: Seq<Act>, flags: ActFlags, n: int) -> Map<Seq<u8>, usize>
    decreases n,
{
    if n <= 0 {
        Map::empty()
    } else if has_bits(acts[n - 1].flags.bits, flags.bits) {
        flagged_names(acts, flags, n - 1).insert(encode_utf8(acts[n - 1].name@), (n - 1) as usize)
    } else {
        flagged_names(acts, flags, n - 1)
    }
}

/// Every act with all of `flags` has a name.
pub open spec fn flagged_named(acts: Seq<Act>, flags: ActFlags) -> bool {
    forall|i: int|
        0 <= i < acts.len() && has_bits(#[trigger] acts[i].flags.bits, flags.bits) ==> acts[i].name@.len() > 0
}

/// Whether every act with all of `flags` has a name.
pub fn flagged_named_exec(acts: &[Act], flags: ActFlags) -> (b: bool)
    ensures
        b == flagged_named(acts@, flags),
{
    let mut i: usize = 0;
    while i < acts.len()
        invariant
            i <= acts@.len(),
            forall|j: int|
                0 <= j < i && has_bits(#[trigger] acts@[j].flags.bits, flags.bits) ==> acts@[j].name@.len() > 0,
        decreases acts@.len() - i,
    {
        if acts[i].flags.contains(flags) && crate::chars::to_chars(acts[i].name.as_str()).len() == 0 {
            assert(has_bits(acts@[i as int].flags.bits, flags.bits));
            return false;
        }
        i = i + 1;
    }
    true
}

/// Every word is valid UTF-8.
pub open spec fn all_valid(m: Map<Seq<u8>, usize>) -> bool {
    forall|k: Seq<u8>| #[trigger] m.contains_key(k) ==> valid_utf8(k)
}

proof fn lemma_flagged_names(acts: Seq<Act>, flags: ActFlags, n: int)
    requires
        0 <= n <= acts.len(),
    ensures
        all_valid(flagged_names(acts, flags, n)),
        forall|k: Seq<u8>| #[trigger] flagged_names(acts, flags, n).contains_key(k) ==> flagged_names(acts, flags, n)[k] < n,
    decreases n,
{
    if n > 0 {
        lemma_flagged_names(acts, flags, n - 1);
        let key = encode_utf8(acts[n - 1].name@);
        vstd::utf8::encode_utf8_valid_utf8(acts[n - 1].name@);
        let prev = flagged_names(acts, flags, n - 1);
        assert forall|k: Seq<u8>| #[trigger] flagged_names(acts, flags, n).contains_key(k) implies valid_utf8(k)
            && flagged_names(acts, flags, n)[k] < n by {
            if k != key || !has_bits(acts[n - 1].flags.bits, flags.bits) {
                assert(prev.contains_key(k));
            }
        }
    }
}

/// Builds the trie of the names of the acts with all of `flags`, each mapped
/// to the index of its act (of equal names, the last act's).
pub fn act_name_trie(acts: &[Act], flags: ActFlags) -> (t: trie_rs::map::Trie<u8, usize>)
    requires
        flagged_named(acts@, flags),
    ensures
        map_trie_entries(t) == flagged_names(acts@, flags, acts@.len() as int),
        all_valid(map_trie_entries(t)),
        forall|k: Seq<u8>| #[trigger] map_trie_entries(t).contains_key(k) ==> map_trie_entries(t)[k] < acts@.len(),
{
    let mut b = map_builder_new();
    let mut i: usize = 0;
    while i < acts.len()
        invariant
            i <= acts@.len(),
            flagged_named(acts@, flags),
            map_builder_entries(b) == flagged_names(acts@, flags, i as int),
        decreases acts@.len() - i,
    {
        if acts[i].flags.contains(flags) {
            proof {
                lemma_encode_nonempty(acts@[i as int].name@);
            }
            map_builder_push(&mut b, acts[i].name.as_str(), i);
        }
        i = i + 1;
    }
    proof {
        lemma_flagged_names(acts@, flags, acts@.len() as int);
    }
    map_builder_build(b)
}

/// The prompt of `run_act`, given the hotkey that ran it: `:` for the vim
/// alias, else the hotkey and a space; `run_act` when no hotkey ran it.
pub open spec fn run_act_prompt_text(hotkey: Option<HotkeyView>) -> Seq<char> {
    match hotkey {
        Some(h) => if h.alias == Some(":"@) {
            ":"@
        } else {
            hotkey_display(h) + " "@
        },
        None => "run_act"@,
    }
}

/// The prompt of `run_act`, given the hotkey that ran it.
pub fn run_act_prompt(hotkey: Option<&Hotkey>) -> (s: String)
    ensures
        s@ == run_act_prompt_text(match hotkey {
            Some(h) => Some(h@),
            None => None,
        }),
{
    let mut s = String::new();
    match hotkey {
        Some(h) => {
            let colon = match &h.alias {
                Some(a) => crate::chars::chars_eq(
                    crate::chars::to_chars(a.as_str()).as_slice(),
                    crate::chars::to_chars(":").as_slice(),
                ),
                None => false,
            };
            if colon {
                push_str(&mut s, ":");
            } else {
                let d = h.display();
                push_str(&mut s, d.as_str());
                push_str(&mut s, " ");
            }
        },
        None => push_str(&mut s, "run_act"),
    }
    s
}

/// How `{:?}` shows a string.
pub uninterp spec fn debug_quoted(s: Seq<char>) -> Seq<char>;

/// The text of a string as `{:?}` shows it (std's `Debug` for `str`).
#[verifier::external_body]
fn debug_text(s: &str) -> (t: String)
    ensures
        t@ == debug_quoted(s@),
{
    format!("{:?}", s)
}

/// What submitting an act name to `run_act` comes to.
#[derive(Debug)]
pub enum RunActSubmit {
    /// Run the act with this index.
    Run(usize),
    /// Show this message.
    Message(String),
}

/// Resolve the answer to the `run_act` prompt in the trie of act names: run
/// the act named, or say why not.
pub fn run_act_submit(trie: &trie_rs::map::Trie<u8, usize>, answer: Result<String, Error>) -> (r: RunActSubmit)
    requires
        all_valid(map_trie_entries(*trie)),
    ensures
        match answer {
            Err(e) => r matches RunActSubmit::Message(m) && m@ == "Error: "@ + error_message(e),
            Ok(name) => match map_trie_value(map_trie_entries(*trie), encode_utf8(name@)) {
                Some(i) => r == RunActSubmit::Run(i),
                None => exists|e: crate::lookup::LookupError|
                    trie_lookup_matches(Err(e), map_trie_entries(*trie).dom(), encode_utf8(name@))
                        && (r matches RunActSubmit::Message(m) && m@ == "Error: Could not resolve act named "@
                        + debug_quoted(name@) + ": "@ + error_text(e)),
            },
        },
{
    match answer {
        Err(e) => {
            let mut m = String::new();
            push_str(&mut m, "Error: ");
            let t = e.text();
            push_str(&mut m, t.as_str());
            RunActSubmit::Message(m)
        },
        Ok(name) => {
            proof {
                let w = encode_utf8(name@);
                assert forall|k: Seq<u8>| #[trigger] crate::trie::prefixed(map_trie_entries(*trie).dom(), w).contains(k)
                    implies valid_utf8(k) by {
                    assert(map_trie_entries(*trie).contains_key(k));
                }
            }
            match trie.resolve_res(name.as_str()) {
                Ok(i) => RunActSubmit::Run(i),
                Err(e) => {
                    let mut m = String::new();
                    push_str(&mut m, "Error: Could not resolve act named ");
                    let q = debug_text(name.as_str());
                    push_str(&mut m, q.as_str());
                    push_str(&mut m, ": ");
                    let t = e.message();
                    push_str(&mut m, t.as_str());
                    RunActSubmit::Message(m)
                },
            }
        },
    }
}

/// How the chords pressed are shown: as the hotkey of the act they are bound
/// to, with its alias, where the act has that hotkey, else as pressed.
pub open spec fn binding_text(a: Act, accum: HotkeyView) -> Seq<char> {
    match first_hotkey(hotkeys_view(a.hotkeys@), accum.chords) {
        Some(k) => hotkey_display(a.hotkeys@[k]@),
        None => hotkey_display(accum),
    }
}

/// What describing keys shows for a step, given the chords pressed and the
/// acts the step's index refers to.
pub open spec fn describe_text(step: DescribeStep, accum: HotkeyView, acts: Seq<Act>) -> Seq<char> {
    match step {
        DescribeStep::Bound(i) => binding_text(acts[i as int], accum) + " is bound to "@ + acts[i as int].name@,
        DescribeStep::BoundAndMore(i) => binding_text(acts[i as int], accum) + " is bound to "@
            + acts[i as int].name@ + " and more"@,
        DescribeStep::Prefix => "Press key: "@ + hotkey_display(accum),
        DescribeStep::Unbound => hotkey_display(accum) + " is unbound"@,
    }
}

/// Whether describing keys is done after a step: a key sequence bound to an
/// act with no longer hotkey, or bound to nothing.
pub open spec fn describe_done(step: DescribeStep) -> bool {
    step is Bound || step is Unbound
}

/// The message for a step of describing keys, and whether it is the last.
pub fn describe_message(step: &DescribeStep, accum: &Hotkey, acts: &[Act]) -> (r: (String, bool))
    requires
        step matches DescribeStep::Bound(i) ==> i < acts@.len(),
        step matches DescribeStep::BoundAndMore(i) ==> i < acts@.len(),
    ensures
        r.0@ == describe_text(*step, accum@, acts@),
        r.1 == describe_done(*step),
{
    let mut s = String::new();
    match step {
        DescribeStep::Bound(i) | DescribeStep::BoundAndMore(i) => {
            let a = &acts[*i];
            let b = match a.find_hotkey(accum.chords.as_slice()) {
                Some(h) => h.display(),
                None => accum.display(),
            };
            push_str(&mut s, b.as_str());
            push_str(&mut s, " is bound to ");
            push_str(&mut s, a.name.as_str());
            let more = match step {
                DescribeStep::BoundAndMore(_) => true,
                _ => false,
            };
            if more {
                push_str(&mut s, " and more");
            }
            (s, !more)
        },
        DescribeStep::Prefix => {
            push_str(&mut s, "Press key: ");
            let d = accum.display();
            push_str(&mut s, d.as_str());
            (s, false)
        },
        DescribeStep::Unbound => {
            let d = accum.display();
            push_str(&mut s, d.as_str());
            push_str(&mut s, " is unbound");
            (s, true)
        },
    }
}

} // verus!
