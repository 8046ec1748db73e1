use adder::mapping::StrMap;
use adder::vectors::add_to_each;
use adder::words::count_words;
use adder::words::tokenize;
use adder::words::word_count;

#[test]
fn absent_key_yields_default() {
    let scores: StrMap<usize> = StrMap::new();
    assert_eq!(scores.get_or("Blue", 0), 0);
    assert_eq!(scores.get_or("Blue", 42), 42);
    assert!(!scores.contains_key("Blue"));
}

#[test]
fn insert_then_lookup() {
    let mut scores: StrMap<usize> = StrMap::new();
    scores.insert("Blue", 10);
    scores.insert("Yellow", 50);
    assert_eq!(scores.get_or("Blue", 0), 10);
    assert_eq!(scores.get_or("Yellow", 0), 50);
    assert_eq!(scores.get_or("Green", 0), 0);
    assert!(scores.contains_key("Blue"));
    assert!(!scores.contains_key("Green"));
}

#[test]
fn insert_overwrites() {
    let mut scores: StrMap<usize> = StrMap::new();
    scores.insert("Blue", 10);
    scores.insert("Blue", 25);
    assert_eq!(scores.get_or("Blue", 0), 25);
}

#[test]
fn or_insert_only_if_absent() {
    let mut scores: StrMap<usize> = StrMap::new();
    scores.insert("Blue", 10);
    scores.or_insert("Green", 50);
    scores.or_insert("Blue", 50);
    assert_eq!(scores.get_or("Green", 0), 50);
    assert_eq!(scores.get_or("Blue", 0), 10);
}

#[test]
fn pairs_lists_every_binding() {
    let mut scores: StrMap<usize> = StrMap::new();
    scores.insert("Blue", 10);
    scores.insert("Yellow", 50);
    let pairs = scores.pairs();
    assert_eq!(pairs.len(), 2);
    assert!(pairs.contains(&(String::from("Blue"), 10)));
    assert!(pairs.contains(&(String::from("Yellow"), 50)));
}

#[test]
fn tokenize_splits_on_whitespace() {
    let words = tokenize("hello world wonderful world");
    let expected: Vec<String> = vec![
        String::from("hello"),
        String::from("world"),
        String::from("wonderful"),
        String::from("world"),
    ];
    assert_eq!(words, expected);
}

#[test]
fn tokenize_handles_extra_whitespace() {
    let words = tokenize("  hello\t\nworld  ");
    let expected: Vec<String> = vec![String::from("hello"), String::from("world")];
    assert_eq!(words, expected);
    let none: Vec<String> = tokenize("   ");
    assert!(none.is_empty());
    let empty: Vec<String> = tokenize("");
    assert!(empty.is_empty());
}

#[test]
fn word_count_hello_world() {
    let counts = word_count("hello world wonderful world");
    assert_eq!(counts.get_or("hello", 0), 1);
    assert_eq!(counts.get_or("world", 0), 2);
    assert_eq!(counts.get_or("wonderful", 0), 1);
    assert_eq!(counts.get_or("missing", 0), 0);
    assert_eq!(counts.pairs().len(), 3);
}

#[test]
fn word_count_empty_text() {
    let counts = word_count("");
    assert_eq!(counts.get_or("anything", 0), 0);
    assert!(counts.pairs().is_empty());
}

#[test]
fn count_words_over_given_list() {
    let words = vec![String::from("a"), String::from("b"), String::from("a")];
    let counts = count_words(&words);
    assert_eq!(counts.get_or("a", 0), 2);
    assert_eq!(counts.get_or("b", 0), 1);
}

#[test]
fn add_to_each_element() {
    let mut v = vec![100, 32, 57];
    add_to_each(&mut v, 50);
    assert_eq!(v, vec![150, 82, 107]);
    let mut empty: Vec<i32> = vec![];
    add_to_each(&mut empty, 5);
    assert!(empty.is_empty());
}
