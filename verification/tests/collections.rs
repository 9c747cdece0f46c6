use rust_programming_book::collections::{add_to_each, element_at, hash_maps, strings, vectors};
use rust_programming_book::scores::{same_text, Scores};

fn entries(table: &Scores) -> Vec<(String, i32)> {
    let mut listed = Vec::new();
    for i in 0..table.len() {
        let (team, score) = table.entry_at(i);
        listed.push((team.to_string(), score));
    }
    listed
}

fn pairs(listed: &[(&str, i32)]) -> Vec<(String, i32)> {
    listed.iter().map(|(team, score)| (team.to_string(), *score)).collect()
}

#[test]
fn vectors_walks_through_every_step() {
    let tour = vectors();
    assert_eq!(tour.literal, vec![1, 2, 3]);
    assert_eq!(tour.pushed, vec![5, 6, 7]);
    assert_eq!(tour.third, 3);
    assert_eq!(tour.second, Some(2));
    assert_eq!(tour.grown, vec![1, 2, 3, 4]);
    assert_eq!(tour.raised, vec![11, 12, 13, 14]);
}

#[test]
fn element_at_checks_the_index() {
    let v = vec![1, 2, 3];
    assert_eq!(element_at(&v, 0), Some(1));
    assert_eq!(element_at(&v, 2), Some(3));
    assert_eq!(element_at(&v, 3), None);
    assert_eq!(element_at(&Vec::new(), 0), None);
}

#[test]
fn add_to_each_changes_every_element_in_place() {
    let mut v = vec![1, 2, 3, 4];
    add_to_each(&mut v, 10);
    assert_eq!(v, vec![11, 12, 13, 14]);
    let mut edge = vec![i32::MAX - 1, i32::MIN + 1, 0];
    add_to_each(&mut edge, 1);
    assert_eq!(edge, vec![i32::MAX, i32::MIN + 2, 1]);
    add_to_each(&mut edge, -1);
    assert_eq!(edge, vec![i32::MAX - 1, i32::MIN + 1, 0]);
    let mut empty: Vec<i32> = Vec::new();
    add_to_each(&mut empty, 5);
    assert!(empty.is_empty());
}

#[test]
fn strings_concatenates_the_pieces() {
    let tour = strings();
    assert_eq!(tour.joined, "Initial contents, and more!!!");
    let head = String::from("Initial contents, and more!");
    assert_eq!(head + "!!", tour.joined);
}

#[test]
fn strings_slices_the_greeting_by_bytes() {
    let tour = strings();
    assert_eq!(tour.greeting, "Здравствуйте");
    assert_eq!(tour.prefix, "Зд");
    assert_eq!(tour.prefix, &tour.greeting[0..4]);
    assert_eq!(tour.letters, "Здравствуйте".chars().collect::<Vec<char>>());
    assert_eq!(tour.letters.len(), 12);
    assert_eq!(tour.bytes, "Здравствуйте".bytes().collect::<Vec<u8>>());
    assert_eq!(tour.bytes.len(), 24);
    assert_eq!(&tour.bytes[..4], &[208, 151, 208, 180]);
}

#[test]
fn hash_maps_walks_through_every_step() {
    let tour = hash_maps();
    assert_eq!(entries(&tour.gathered), pairs(&[("blue", 10), ("yellow", 5)]));
    assert_eq!(entries(&tour.listed), pairs(&[("blue", 10), ("yellow", 5), ("green", 7)]));
    assert_eq!(tour.blue, Some(10));
    assert_eq!(
        entries(&tour.settled),
        pairs(&[("blue", 25), ("yellow", 5), ("green", 7), ("red", 9)])
    );
    assert_eq!(
        entries(&tour.raised),
        pairs(&[("blue", 25), ("yellow", 5), ("green", 7), ("red", 10)])
    );
    assert_eq!(tour.red, Some(10));
    assert_eq!(tour.raised.get("red"), Some(10));
    assert_eq!(tour.raised.get("blue"), Some(25));
    assert_eq!(tour.raised.get("purple"), None);
}

#[test]
fn inserting_a_duplicate_key_overwrites_its_value() {
    let mut scores = Scores::new();
    assert_eq!(scores.insert(String::from("blue"), 10), None);
    assert_eq!(scores.get("blue"), Some(10));
    assert_eq!(scores.insert(String::from("blue"), 25), Some(10));
    assert_eq!(scores.get("blue"), Some(25));
    assert_eq!(scores.len(), 1);
    assert_eq!(entries(&scores), pairs(&[("blue", 25)]));
}

#[test]
fn a_new_table_is_empty() {
    let scores = Scores::new();
    assert_eq!(scores.len(), 0);
    assert_eq!(scores.get("blue"), None);
    assert_eq!(scores.get(""), None);
}

#[test]
fn or_insert_keeps_a_score_that_is_there() {
    let mut scores = Scores::new();
    scores.insert(String::from("blue"), 25);
    assert_eq!(scores.or_insert(String::from("blue"), 9), 25);
    assert_eq!(scores.or_insert(String::from("red"), 9), 9);
    assert_eq!(scores.or_insert(String::from("red"), 1), 9);
    assert_eq!(entries(&scores), pairs(&[("blue", 25), ("red", 9)]));
}

#[test]
fn keys_differ_by_any_character() {
    let mut scores = Scores::new();
    scores.insert(String::from("blue"), 1);
    scores.insert(String::from("Blue"), 2);
    scores.insert(String::from("blue "), 3);
    scores.insert(String::from(""), 4);
    scores.insert(String::from("bl\u{fc}e"), 5);
    assert_eq!(scores.len(), 5);
    assert_eq!(scores.get("blue"), Some(1));
    assert_eq!(scores.get("Blue"), Some(2));
    assert_eq!(scores.get("blue "), Some(3));
    assert_eq!(scores.get(""), Some(4));
    assert_eq!(scores.get("bl\u{fc}e"), Some(5));
    assert_eq!(scores.get("blu"), None);
}

#[test]
fn from_pairs_reaches_as_far_as_the_shorter_list() {
    let teams = vec![String::from("blue"), String::from("yellow"), String::from("green")];
    let scores = Scores::from_pairs(&teams, &vec![10, 5]);
    assert_eq!(entries(&scores), pairs(&[("blue", 10), ("yellow", 5)]));
    let scores = Scores::from_pairs(&teams, &vec![10, 5, 7, 9]);
    assert_eq!(entries(&scores), pairs(&[("blue", 10), ("yellow", 5), ("green", 7)]));
    let scores = Scores::from_pairs(&Vec::new(), &vec![1]);
    assert_eq!(scores.len(), 0);
}

#[test]
fn from_pairs_lets_a_later_pair_replace_an_earlier_one() {
    let teams = vec![String::from("blue"), String::from("yellow"), String::from("blue")];
    let scores = Scores::from_pairs(&teams, &vec![10, 5, 25]);
    assert_eq!(entries(&scores), pairs(&[("blue", 25), ("yellow", 5)]));
}

#[test]
fn a_snapshot_does_not_follow_the_table() {
    let mut scores = Scores::new();
    scores.insert(String::from("blue"), 10);
    let before = scores.snapshot();
    scores.insert(String::from("blue"), 25);
    scores.insert(String::from("red"), 9);
    assert_eq!(entries(&before), pairs(&[("blue", 10)]));
    assert_eq!(entries(&scores), pairs(&[("blue", 25), ("red", 9)]));
}

#[test]
fn same_text_compares_character_by_character() {
    assert!(same_text("", ""));
    assert!(same_text("blue", "blue"));
    assert!(!same_text("blue", "blu"));
    assert!(!same_text("blue", "blua"));
    assert!(!same_text("", " "));
    assert!(same_text("Зд", "\u{417}\u{434}"));
    assert!(!same_text("Зд", "Здр"));
}
