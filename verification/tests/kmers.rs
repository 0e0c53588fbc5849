use kmer_challenge::challenge::{generate_challenge_string, generate_token};
use kmer_challenge::kmers::{find_kmers, KmerCounts};

fn counts(pairs: &[(&str, u64)]) -> KmerCounts {
    let owned: Vec<(String, u64)> = pairs.iter().map(|(key, count)| (key.to_string(), *count)).collect();
    KmerCounts::from_pairs(&owned)
}

#[test]
fn model_test_rand_str() {
    println!("{}", generate_challenge_string());
}

#[test]
fn model_test_empty_challenge_string() {
    let empty_challenge_string = &String::from("");
    let empty_soln = find_kmers(empty_challenge_string, 3);
    assert!(empty_soln.is_empty());
}

#[test]
fn model_test_challenge_string_too_small() {
    let small_challenge_string = &String::from("ab");
    let empty_soln = find_kmers(small_challenge_string, 3);
    assert!(empty_soln.is_empty());
}

#[test]
fn model_test_long_challenge_string() {
    let long_challenge_string = &String::from("aabbceedeaab");

    let soln = find_kmers(long_challenge_string, 3);

    let correct_soln = counts(&[
        ("aab", 2),
        ("abb", 1),
        ("bbc", 1),
        ("bce", 1),
        ("cee", 1),
        ("eed", 1),
        ("ede", 1),
        ("dea", 1),
        ("eaa", 1),
    ]);

    assert_eq!(soln, correct_soln);
}

#[test]
fn test_rand_str() {
    println!("{}", generate_challenge_string());
}

#[test]
fn test_empty_challenge_string() {
    let empty_challenge_string = &String::from("");
    let empty_soln = find_kmers(empty_challenge_string, 3);
    assert!(empty_soln.is_empty());
}

#[test]
fn test_challenge_string_too_small() {
    let small_challenge_string = &String::from("ab");
    let empty_soln = find_kmers(small_challenge_string, 3);
    assert!(empty_soln.is_empty());
}

#[test]
fn test_long_challenge_string() {
    let long_challenge_string = &String::from("aabbceedeaab");

    let soln = find_kmers(long_challenge_string, 3);
    let mut correct_soln = KmerCounts::new();
    for (key, value) in [
        ("aab", 2),
        ("abb", 1),
        ("bbc", 1),
        ("bce", 1),
        ("cee", 1),
        ("eed", 1),
        ("ede", 1),
        ("dea", 1),
        ("eaa", 1),
    ] {
        correct_soln.insert(String::from(key), value);
    }

    assert_eq!(soln, correct_soln);
}

#[test]
fn engine_test_rand_str() {
    assert!(generate_challenge_string().len() == 100);
}

#[test]
fn engine_test_empty_challenge_string() {
    let empty_challenge_string = &String::from("");
    let empty_soln = find_kmers(empty_challenge_string, 3);
    assert!(empty_soln.is_empty());
}

#[test]
fn engine_test_challenge_string_too_small() {
    let small_challenge_string = &String::from("ab");
    let empty_soln = find_kmers(small_challenge_string, 3);
    assert!(empty_soln.is_empty());
}

#[test]
fn engine_test_long_challenge_string() {
    let long_challenge_string = &String::from("aabbceedeaab");

    let soln = find_kmers(long_challenge_string, 3);
    let mut correct_soln = KmerCounts::new();
    correct_soln.insert(String::from("aab"), 2);
    correct_soln.insert(String::from("abb"), 1);
    correct_soln.insert(String::from("bbc"), 1);
    correct_soln.insert(String::from("bce"), 1);
    correct_soln.insert(String::from("cee"), 1);
    correct_soln.insert(String::from("eed"), 1);
    correct_soln.insert(String::from("ede"), 1);
    correct_soln.insert(String::from("dea"), 1);
    correct_soln.insert(String::from("eaa"), 1);

    assert_eq!(soln, correct_soln);
}

#[test]
fn challenge_has_length_and_alphabet() {
    for _ in 0..50 {
        let challenge = generate_challenge_string();
        assert_eq!(challenge.chars().count(), 100);
        assert!(challenge.chars().all(|c| matches!(c, 'A' | 'C' | 'T' | 'G')));
    }
}

#[test]
fn challenges_differ() {
    let first = generate_challenge_string();
    let mut differs = false;
    for _ in 0..20 {
        if generate_challenge_string() != first {
            differs = true;
        }
    }
    assert!(differs);
}

#[test]
fn token_is_version_four() {
    for _ in 0..50 {
        let token = generate_token();
        assert_eq!((token >> 76) & 0xf, 4);
        assert_eq!((token >> 62) & 0x3, 2);
    }
}

#[test]
fn tokens_differ() {
    assert_ne!(generate_token(), generate_token());
}

#[test]
fn window_as_long_as_the_string() {
    let soln = find_kmers(&String::from("abc"), 3);
    assert_eq!(soln, counts(&[("abc", 1)]));
    assert_eq!(soln.len(), 1);
}

#[test]
fn repeated_window_is_counted_at_each_offset() {
    let soln = find_kmers(&String::from("aaaaa"), 3);
    assert_eq!(soln, counts(&[("aaa", 3)]));
    assert_eq!(soln.get(&String::from("aaa")), Some(3));
    assert_eq!(soln.get(&String::from("aa")), None);
}

#[test]
fn window_length_is_a_parameter() {
    assert_eq!(find_kmers(&String::from("abab"), 2), counts(&[("ab", 2), ("ba", 1)]));
    assert_eq!(find_kmers(&String::from("abab"), 1), counts(&[("a", 2), ("b", 2)]));
    assert_eq!(find_kmers(&String::from("abab"), 4), counts(&[("abab", 1)]));
    assert!(find_kmers(&String::from("abab"), 5).is_empty());
}

#[test]
fn window_of_no_character_is_counted_at_each_offset() {
    assert_eq!(find_kmers(&String::from("ab"), 0), counts(&[("", 3)]));
    assert_eq!(find_kmers(&String::from(""), 0), counts(&[("", 1)]));
}

#[test]
fn keys_are_case_sensitive() {
    let soln = find_kmers(&String::from("aAaA"), 2);
    assert_eq!(soln, counts(&[("aA", 2), ("Aa", 1)]));
}

#[test]
fn windows_move_by_characters() {
    let soln = find_kmers(&String::from("héllo"), 3);
    assert_eq!(soln, counts(&[("hél", 1), ("éll", 1), ("llo", 1)]));
}

#[test]
fn huge_window_gives_nothing() {
    assert!(find_kmers(&String::from("abc"), usize::MAX).is_empty());
}

#[test]
fn same_input_same_mapping() {
    let challenge = generate_challenge_string();
    let first = find_kmers(&challenge, 3);
    let second = find_kmers(&challenge, 3);
    assert_eq!(first, second);
    let total: u64 = first.pairs().iter().map(|(_, count)| *count).sum();
    assert_eq!(total, 98);
    assert!(first.pairs().iter().all(|(key, _)| key.chars().count() == 3));
}

#[test]
fn counts_start_empty() {
    let empty = KmerCounts::new();
    assert!(empty.is_empty());
    assert_eq!(empty.len(), 0);
    assert_eq!(empty.get(&String::from("aab")), None);
    assert!(empty.pairs().is_empty());
}

#[test]
fn insert_replaces_the_count_of_a_key() {
    let mut table = KmerCounts::new();
    table.insert(String::from("aab"), 1);
    table.insert(String::from("abb"), 5);
    table.insert(String::from("aab"), 7);
    assert_eq!(table.len(), 2);
    assert!(!table.is_empty());
    assert_eq!(table.get(&String::from("aab")), Some(7));
    assert_eq!(table.get(&String::from("abb")), Some(5));
    assert_eq!(table.get(&String::from("bbb")), None);
}

#[test]
fn of_two_pairs_with_one_key_the_later_stays() {
    let table = counts(&[("aab", 1), ("abb", 2), ("aab", 3)]);
    assert_eq!(table.len(), 2);
    assert_eq!(table.get(&String::from("aab")), Some(3));
}

#[test]
fn equality_ignores_the_order_of_insertion() {
    assert_eq!(counts(&[("aab", 1), ("abb", 2)]), counts(&[("abb", 2), ("aab", 1)]));
}

#[test]
fn equality_sees_extra_missing_and_changed_keys() {
    let stored = counts(&[("aab", 1), ("abb", 2)]);
    assert_ne!(stored, counts(&[("aab", 1)]));
    assert_ne!(stored, counts(&[("aab", 1), ("abb", 2), ("bbc", 1)]));
    assert_ne!(stored, counts(&[("aab", 1), ("abb", 3)]));
    assert_ne!(stored, counts(&[("aab", 1), ("abc", 2)]));
    assert_ne!(stored, KmerCounts::new());
    assert_ne!(KmerCounts::new(), stored);
    assert_eq!(KmerCounts::new(), KmerCounts::new());
}

#[test]
fn pairs_hold_each_key_once() {
    let table = counts(&[("aab", 1), ("abb", 2), ("aab", 3)]);
    let mut pairs = table.pairs();
    pairs.sort();
    assert_eq!(pairs, vec![(String::from("aab"), 3), (String::from("abb"), 2)]);
    assert_eq!(KmerCounts::from_pairs(&pairs), table);
}
