use bevy_minibuffer::lookup::{Lookup, LookupError, Resolve};
use bevy_minibuffer::trie::name_trie;
use trie_rs::Trie;

#[test]
fn lookup_slice() {
    let a = ["abc", "abcd", "abcde"];
    assert_eq!(a[..].longest_prefix(""), Some(String::from("abc")));
    assert_eq!(a[..].longest_prefix("a"), Some(String::from("abc")));
    assert_eq!(a[..].longest_prefix("ab"), Some(String::from("abc")));
    assert_eq!(a[..].longest_prefix("abcd"), Some(String::from("abcd")));
    assert_eq!(a[..].longest_prefix("abcde"), Some(String::from("abcde")));
    assert_eq!(a[..].longest_prefix("abcdef"), None);
    assert_eq!(a[..].longest_prefix("e"), None);
}

#[test]
fn lookup_array() {
    let a = ["abc", "abcd", "abcde"];
    assert_eq!(
        ["abc", "abcd", "abcde"].longest_prefix(""),
        Some(String::from("abc"))
    );
    assert_eq!(a.longest_prefix(""), Some(String::from("abc")));
    assert_eq!(a.longest_prefix("a"), Some(String::from("abc")));
    assert_eq!(a.longest_prefix("ab"), Some(String::from("abc")));
    assert_eq!(a.longest_prefix("abcd"), Some(String::from("abcd")));
    assert_eq!(a.longest_prefix("abcde"), Some(String::from("abcde")));
    assert_eq!(a.longest_prefix("abcdef"), None);
    assert_eq!(a.longest_prefix("e"), None);
}

#[test]
fn lookup_vec() {
    let a = vec!["abc", "abcd", "abcde"];
    assert_eq!(a.longest_prefix(""), Some(String::from("abc")));
    assert_eq!(a.longest_prefix("a"), Some(String::from("abc")));
    assert_eq!(a.longest_prefix("ab"), Some(String::from("abc")));
    assert_eq!(a.longest_prefix("abcd"), Some(String::from("abcd")));
    assert_eq!(a.longest_prefix("abcde"), Some(String::from("abcde")));
    assert_eq!(a.longest_prefix("abcdef"), None);
    assert_eq!(a.longest_prefix("e"), None);
}

#[test]
fn test_lookup() {
    let trie: Trie<u8> = ["ask_name", "ask_name2", "asky_age"].into_iter().collect();
    assert_eq!(trie.longest_prefix::<String, _>("a").unwrap(), "ask");
    let lookup: &dyn Lookup = &trie;
    assert_eq!(lookup.longest_prefix("a").unwrap(), "ask");
    assert_eq!(lookup.longest_prefix("b"), None);
}

#[test]
fn slice_lookup_outcomes() {
    let a = ["John", "Sean", "Shane"];
    assert!(matches!(a[..].lookup("Sean"), Ok(())));
    assert!(matches!(a[..].lookup("S"), Err(LookupError::ManyMatches)));
    match a[..].lookup("Sh") {
        Err(LookupError::OneMatch(s)) => assert_eq!(s, "Shane"),
        other => panic!("unexpected {:?}", other),
    }
    assert!(matches!(a[..].lookup("X"), Err(LookupError::NoMatch)));
    assert_eq!(a[..].all_lookups("S"), vec![String::from("Sean"), String::from("Shane")]);
    assert_eq!(a[..].all_lookups("X"), Vec::<String>::new());
}

#[test]
fn unsorted_longest_prefix_uses_all_matches() {
    // The longest prefix is the common prefix of every word that matches.
    let a = ["abcde", "abc", "abd"];
    assert_eq!(a[..].longest_prefix("a"), Some(String::from("ab")));
    let b = ["x"];
    assert_eq!(b[..].longest_prefix(""), Some(String::from("x")));
}

#[test]
fn vec_of_strings_resolve() {
    let v = vec![String::from("alpha"), String::from("beta")];
    assert_eq!(v.resolve("beta"), Some(String::from("beta")));
    assert_eq!(v.resolve("gamma"), None);
    assert!(matches!(v.resolve_res("gamma"), Err(LookupError::NoMatch)));
    // A prefix that only one word has resolves to that word.
    assert_eq!(v.resolve("al"), Some(String::from("alpha")));
    assert_eq!(v.resolve_res("al").unwrap(), "alpha");
    let w = vec![String::from("alpha"), String::from("alps")];
    assert!(matches!(w.resolve_res("al"), Err(LookupError::ManyMatches)));
}

#[test]
fn lookup_error_messages() {
    assert_eq!(LookupError::NoMatch.message(), "No matches");
    assert_eq!(LookupError::OneMatch(String::from("x")).message(), "One match: x");
    assert_eq!(LookupError::ManyMatches.message(), "Many matches");
    assert_eq!(LookupError::Message(String::from("hi")).message(), "hi");
}

#[test]
fn map_trie_lookup_and_resolve() {
    let trie = name_trie(&["John", "Sean", "Shane"]);
    assert_eq!(trie.resolve("Sean"), Some(1));
    assert_eq!(trie.resolve("Se"), None);
    assert!(matches!(trie.lookup("John"), Ok(())));
    assert!(matches!(trie.lookup("S"), Err(LookupError::ManyMatches)));
    assert_eq!(trie.longest_prefix("S"), Some(String::from("S")));
    assert_eq!(trie.longest_prefix("Sh"), Some(String::from("Shane")));
    let mut all = trie.all_lookups("S");
    all.sort();
    assert_eq!(all, vec![String::from("Sean"), String::from("Shane")]);
    match trie.resolve_res("J") {
        Err(LookupError::OneMatch(s)) => assert_eq!(s, "John"),
        other => panic!("unexpected {:?}", other),
    }
}

#[test]
fn exact_match_found_wherever_it_stands() {
    let a = ["abcd", "abcde", "abc"];
    assert!(a[..].lookup("abc").is_ok());
    assert!(matches!(a[..].lookup("ab"), Err(LookupError::ManyMatches)));
    let v: Vec<String> = vec![String::from("xyz"), String::from("abcd"), String::from("abc")];
    assert!(v.lookup("abc").is_ok());
    assert!(matches!(v.lookup("abcd"), Ok(())));
}
