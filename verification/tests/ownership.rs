use rust_programming_book::ownership::{
    array_slice_type, calculate_length, change, gives_ownership, references_and_borrowing,
    string_slice, string_type, takes_and_gives_back, variable_scope,
};
use rust_programming_book::text::{byte_slice, chars_of, first_word};

#[test]
fn a_literal_is_valid_in_its_scope() {
    assert_eq!(variable_scope(), "hello");
}

#[test]
fn a_clone_holds_the_same_text() {
    let copies = string_type();
    assert_eq!(copies.moved, "hello world!");
    assert_eq!(copies.cloned, "hello world!");
    assert_eq!(copies.x, 5);
    assert_eq!(copies.y, 5);
}

#[test]
fn ownership_is_given_and_given_back() {
    assert_eq!(gives_ownership(), "hello");
    assert_eq!(takes_and_gives_back(String::from("test")), "test");
    assert_eq!(takes_and_gives_back(String::new()), "");
    assert_eq!(takes_and_gives_back(gives_ownership()), "hello");
}

#[test]
fn the_length_counts_bytes() {
    assert_eq!(calculate_length(&String::from("hello")), 5);
    assert_eq!(calculate_length(&String::new()), 0);
    assert_eq!(calculate_length(&String::from("Здравствуйте")), 24);
    assert_eq!(calculate_length(&String::from("😻")), 4);
}

#[test]
fn change_appends_to_the_borrowed_text() {
    let mut v = String::from("hello");
    change(&mut v);
    assert_eq!(v, "hello world!");
    change(&mut v);
    assert_eq!(v, "hello world! world!");
    let mut empty = String::new();
    change(&mut empty);
    assert_eq!(empty, " world!");
}

#[test]
fn references_leave_the_owner_in_place() {
    let borrows = references_and_borrowing();
    assert_eq!(borrows.returned, "hello");
    assert_eq!(borrows.length, 5);
    assert_eq!(borrows.changed, "hello world!");
}

#[test]
fn slices_are_parts_of_the_text() {
    let slices = string_slice();
    assert_eq!(slices.hello, "hello");
    assert_eq!(slices.world, "world");
    assert_eq!(slices.end, "!");
    assert_eq!(slices.whole, "hello world!");
    assert_eq!(slices.first_of_literal, "hello");
    assert_eq!(slices.first_of_string, "hello");
}

#[test]
fn the_first_word_ends_at_the_first_space() {
    assert_eq!(first_word("hello World"), "hello");
    assert_eq!(first_word("hello world!"), "hello");
    assert_eq!(first_word("hello"), "hello");
    assert_eq!(first_word(""), "");
    assert_eq!(first_word(" hello"), "");
    assert_eq!(first_word("  "), "");
    assert_eq!(first_word("a b c"), "a");
    assert_eq!(first_word("hello\tworld again"), "hello\tworld");
    assert_eq!(first_word("hello\nworld"), "hello\nworld");
}

#[test]
fn the_first_word_may_hold_any_other_character() {
    assert_eq!(first_word("Здравствуйте мир"), "Здравствуйте");
    assert_eq!(first_word("😻😻 cat"), "😻😻");
    assert_eq!(first_word("no\u{a0}break space"), "no\u{a0}break");
    assert_eq!(first_word("\u{3000}wide space"), "\u{3000}wide");
    assert_eq!(first_word("Ġ"), "Ġ");
    assert_eq!(first_word("\u{820} x"), "\u{820}");
}

#[test]
fn the_first_word_is_what_splitting_at_a_space_gives() {
    let samples = ["", " ", "a", "a ", " a", "ab cd", "Зд равс", "x\u{2003}y z", "末 尾"];
    for sample in samples {
        assert_eq!(first_word(sample), sample.split(' ').next().unwrap(), "{:?}", sample);
    }
}

#[test]
fn a_byte_slice_is_what_indexing_gives() {
    let s = "hello world!";
    assert_eq!(byte_slice(s, 0, 5), &s[..5]);
    assert_eq!(byte_slice(s, 6, 11), &s[6..11]);
    assert_eq!(byte_slice(s, 11, 12), &s[11..]);
    assert_eq!(byte_slice(s, 0, 12), s);
    assert_eq!(byte_slice(s, 3, 3), "");
    assert_eq!(byte_slice("", 0, 0), "");
    let greeting = "Здравствуйте";
    assert_eq!(byte_slice(greeting, 0, 4), "Зд");
    assert_eq!(byte_slice(greeting, 4, 24), "равствуйте");
    assert_eq!(byte_slice("a😻b", 1, 5), "😻");
}

#[test]
fn the_characters_come_in_order() {
    assert_eq!(chars_of("Зд!"), vec!['З', 'д', '!']);
    assert_eq!(chars_of(""), Vec::<char>::new());
    assert_eq!(chars_of("a😻"), vec!['a', '😻']);
}

#[test]
fn an_array_slice_holds_the_elements_in_its_range() {
    assert_eq!(array_slice_type(), vec![2, 3]);
}
