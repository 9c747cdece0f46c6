//! Ownership, borrowing and slices.

use crate::text::{byte_slice, first_word, lemma_char_range, lemma_first_word};
use vstd::prelude::*;
use vstd::slice::slice_to_vec;
use vstd::utf8::*;

verus! {

/// A text that is valid for as long as its block lasts.
pub fn variable_scope() -> (s: &'static str)
    ensures
        s@ == "hello"@,
{
    let s = "hello";
    s
}

/// What moving, cloning and copying leave behind.
pub struct Copies {
    /// The text after it was grown and moved to a new owner.
    pub moved: String,
    /// A clone of the moved text.
    pub cloned: String,
    /// An integer.
    pub x: i32,
    /// A copy of the integer.
    pub y: i32,
}

/// Grows a text, moves it, clones it, and copies an integer.
pub fn string_type() -> (copies: Copies)
    ensures
        copies.moved@ == "hello world!"@,
        copies.cloned@ == copies.moved@,
        copies.x == 5,
        copies.y == copies.x,
{
    let mut s = String::from_str("hello");
    s.append(" world!");
    proof {
        reveal_strlit("hello");
        reveal_strlit(" world!");
        reveal_strlit("hello world!");
    }
    let s2 = s;
    let s1 = s2.clone();
    let x: i32 = 5;
    let y: i32 = x;
    Copies { moved: s2, cloned: s1, x, y }
}

/// Hands a new text to the caller.
pub fn gives_ownership() -> (some_string: String)
    ensures
        some_string@ == "hello"@,
{
    let some_string = String::from_str("hello");
    some_string
}

/// Takes a text and hands the same text back.
pub fn takes_and_gives_back(a_string: String) -> (same: String)
    ensures
        same == a_string,
{
    a_string
}

/// The length of `s` in bytes.
pub fn calculate_length(s: &String) -> (length: usize)
    ensures
        length == encode_utf8(s@).len(),
{
    s.as_str().as_bytes().len()
}

/// Appends `" world!"` to `s`.
pub fn change(s: &mut String)
    ensures
        final(s)@ == old(s)@ + " world!"@,
{
    s.append(" world!");
}

/// What the calls that pass a text around leave behind.
pub struct Borrows {
    /// The text that was given out, taken and given back.
    pub returned: String,
    /// The length of `"hello"`, measured through a reference.
    pub length: usize,
    /// `"hello"` after it was changed through a mutable reference.
    pub changed: String,
}

/// Passes a text out and back, measures a text through a reference and
/// changes it through a mutable one.
pub fn references_and_borrowing() -> (borrows: Borrows)
    ensures
        borrows.returned@ == "hello"@,
        borrows.length == 5,
        borrows.changed@ == "hello world!"@,
{
    let v = gives_ownership();
    let returned = takes_and_gives_back(v);
    let mut v = String::from_str("hello");
    proof {
        reveal_strlit("hello");
        reveal_strlit(" world!");
        reveal_strlit("hello world!");
        is_ascii_chars_encode_utf8("hello"@);
    }
    let length = calculate_length(&v);
    change(&mut v);
    Borrows { returned, length, changed: v }
}

/// The slices taken of `"hello world!"` and the first words found.
pub struct Slices {
    /// The bytes before position 5.
    pub hello: String,
    /// The bytes from position 6 up to position 11.
    pub world: String,
    /// The bytes from position 11 on.
    pub end: String,
    /// All the bytes.
    pub whole: String,
    /// The first word of the literal `"hello World"`.
    pub first_of_literal: String,
    /// The first word of `"hello world!"`.
    pub first_of_string: String,
}

/// Slices `"hello world!"` four ways and finds the first word of a literal
/// and of that text.
pub fn string_slice() -> (slices: Slices)
    ensures
        slices.hello@ == "hello"@,
        slices.world@ == "world"@,
        slices.end@ == "!"@,
        slices.whole@ == "hello world!"@,
        slices.first_of_literal@ == "hello"@,
        slices.first_of_string@ == "hello"@,
{
    let s = String::from_str("hello world!");
    let text = s.as_str();
    let ghost chars = text@;
    proof {
        reveal_strlit("hello world!");
        reveal_strlit("hello World");
        reveal_strlit("hello");
        reveal_strlit("world");
        reveal_strlit("!");
        is_ascii_chars_encode_utf8(chars);
        is_ascii_chars_encode_utf8(chars.take(5));
        is_ascii_chars_encode_utf8(chars.take(6));
        is_ascii_chars_encode_utf8(chars.subrange(6, 11));
        is_ascii_chars_encode_utf8(chars.skip(11));
        assert(Seq::<char>::empty() + chars.take(5) + chars.skip(5) =~= chars);
        lemma_char_range(Seq::<char>::empty(), chars.take(5), chars.skip(5));
        assert(chars.take(6) + chars.subrange(6, 11) + chars.skip(11) =~= chars);
        lemma_char_range(chars.take(6), chars.subrange(6, 11), chars.skip(11));
        lemma_char_range(chars.take(11), chars.skip(11), Seq::<char>::empty());
        lemma_char_range(Seq::<char>::empty(), chars, Seq::<char>::empty());
        assert(chars.take(5) =~= "hello"@);
    }
    let hello = byte_slice(text, 0, 5);
    let world = byte_slice(text, 6, 11);
    let end = byte_slice(text, 11, text.len());
    let whole = byte_slice(text, 0, text.len());

    let literal = "hello World";
    let first_of_literal = first_word(literal);
    let first_of_string = first_word(text);
    proof {
        assert("hello"@ + literal@.skip(5) =~= literal@);
        lemma_first_word("hello"@, literal@.skip(5));
        lemma_first_word("hello"@, chars.skip(5));
    }
    Slices {
        hello: String::from_str(hello),
        world: String::from_str(world),
        end: String::from_str(end),
        whole: String::from_str(whole),
        first_of_literal: String::from_str(first_of_literal),
        first_of_string: String::from_str(first_of_string),
    }
}

/// The elements at positions 1 and 2 of the array `[1, 2, 3, 4, 5]`.
pub fn array_slice_type() -> (slice: Vec<i32>)
    ensures
        slice@ == seq![2i32, 3],
{
    let a: [i32; 5] = [1, 2, 3, 4, 5];
    let slice = &a[1..3];
    assert(slice@ =~= seq![2i32, 3]);
    slice_to_vec(slice)
}

} // verus!
