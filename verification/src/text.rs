//! Slices of text by byte position, and the first word of a text.
//!
//! A `&str` is indexed by bytes of its UTF-8 encoding while its view is a
//! sequence of characters. The lemmas here carry facts from one to the other.

use vstd::prelude::*;
use vstd::string::StringSliceAdditionalSpecFns;
use vstd::utf8::*;

verus! {

/// The byte that encodes a space.
pub const SPACE: u8 = 32;

/// The number of characters before the first space of `text`: the length of
/// `text` where it holds no space.
pub open spec fn word_len(text: Seq<char>) -> nat
    decreases text.len(),
{
    if text.len() == 0 || text[0] == ' ' {
        0
    } else {
        1 + word_len(text.drop_first())
    }
}

/// The characters of `text` before its first space.
pub open spec fn first_word_of(text: Seq<char>) -> Seq<char> {
    text.take(word_len(text) as int)
}

/// Whether `from..to` is a byte range of `bytes` that cuts no character.
pub open spec fn is_char_range(bytes: Seq<u8>, from: int, to: int) -> bool {
    &&& 0 <= from <= to <= bytes.len()
    &&& is_char_boundary(bytes, from)
    &&& is_char_boundary(bytes, to)
}

/// A text encodes as its parts do, one after the other.
pub proof fn lemma_encode_concat(front: Seq<char>, back: Seq<char>)
    ensures
        encode_utf8(front + back) == encode_utf8(front) + encode_utf8(back),
    decreases front.len(),
{
    if front.len() > 0 {
        lemma_encode_concat(front.drop_first(), back);
        assert((front + back).drop_first() =~= front.drop_first() + back);
    }
}

/// The place where the encoding of `front` ends cuts no character of the
/// encoding of `front + back`.
pub proof fn lemma_boundary_after_prefix(front: Seq<char>, back: Seq<char>)
    ensures
        is_char_boundary(encode_utf8(front + back), encode_utf8(front).len() as int),
    decreases front.len(),
{
    let whole = front + back;
    let bytes = encode_utf8(whole);
    encode_utf8_valid_utf8(whole);
    if front.len() > 0 {
        encode_utf8_first_scalar(whole);
        assert(whole.drop_first() =~= front.drop_first() + back);
        assert(pop_first_scalar(bytes) =~= encode_utf8(whole.drop_first()));
        lemma_boundary_after_prefix(front.drop_first(), back);
        assert(encode_utf8(front).len() == encode_scalar(front[0] as u32).len() + encode_utf8(
            front.drop_first(),
        ).len());
    }
}

/// What a valid byte sequence decodes to encodes back to it, so the text of
/// a slice is known from its bytes.
pub proof fn lemma_text_of_bytes(text: Seq<char>, bytes: Seq<u8>)
    requires
        encode_utf8(text) == bytes,
    ensures
        text == decode_utf8(bytes),
{
    encode_utf8_decode_utf8(text);
}

/// The bytes `from..to` of `s`, as `&s[from..to]` gives them.
pub fn byte_slice(s: &str, from: usize, to: usize) -> (part: &str)
    requires
        is_char_range(s.spec_bytes(), from as int, to as int),
    ensures
        part.spec_bytes() == s.spec_bytes().subrange(from as int, to as int),
        part@ == decode_utf8(s.spec_bytes().subrange(from as int, to as int)),
{
    let ghost bytes = s.spec_bytes();
    proof {
        encode_utf8_valid_utf8(s@);
    }
    let (head, _) = s.split_at(to);
    proof {
        valid_utf8_split(bytes, to as int);
        if from < to {
            is_char_boundary_iff_not_is_continuation_byte(bytes, from as int);
            is_char_boundary_iff_not_is_continuation_byte(head.spec_bytes(), from as int);
        } else {
            is_char_boundary_start_end_of_seq(head.spec_bytes());
        }
    }
    let (_, part) = head.split_at(from);
    proof {
        lemma_text_of_bytes(part@, part.spec_bytes());
    }
    part
}

/// A space is encoded by the single byte `SPACE`, and no other character has
/// an encoding that begins with that byte.
proof fn lemma_space_scalar(scalar: u32)
    requires
        is_scalar(scalar),
    ensures
        scalar == 32 ==> encode_scalar(scalar) == seq![SPACE],
        encode_scalar(scalar)[0] == SPACE ==> scalar == 32,
{
    if has_width_1_encoding(scalar) {
        assert(leading_byte_width_1(scalar) == scalar) by (bit_vector)
            requires
                0 <= scalar <= 0x7F,
        ;
    } else if has_width_2_encoding(scalar) {
        assert(leading_byte_width_2(scalar) >= 0xC0) by (bit_vector);
    } else if has_width_3_encoding(scalar) {
        assert(leading_byte_width_3(scalar) >= 0xE0) by (bit_vector);
    } else {
        assert(leading_byte_width_4(scalar) >= 0xF0) by (bit_vector);
    }
}

/// Where a text holds a space, its encoding holds the byte `SPACE`: at the
/// place where the encoding of the characters before it ends.
pub proof fn lemma_space_is_encoded(text: Seq<char>, at: int)
    requires
        0 <= at < text.len(),
        text[at] == ' ',
    ensures
        encode_utf8(text.take(at)).len() < encode_utf8(text).len(),
        encode_utf8(text)[encode_utf8(text.take(at)).len() as int] == SPACE,
{
    let front = text.take(at);
    let back = text.skip(at);
    assert(text =~= front + back);
    lemma_encode_concat(front, back);
    lemma_space_scalar(back[0] as u32);
}

/// A text whose encoding begins with the byte `SPACE` begins with a space.
pub proof fn lemma_leading_space(text: Seq<char>)
    requires
        encode_utf8(text).len() > 0,
        encode_utf8(text)[0] == SPACE,
    ensures
        text.len() > 0,
        text[0] == ' ',
{
    char_is_scalar(text[0]);
    lemma_space_scalar(text[0] as u32);
    char_u32_cast(text[0], 32u32);
}

/// A text without a space, followed by nothing or by a text that begins
/// with a space, is the first word of the whole.
pub proof fn lemma_first_word(front: Seq<char>, back: Seq<char>)
    requires
        forall|i: int| 0 <= i < front.len() ==> front[i] != ' ',
        back.len() == 0 || back[0] == ' ',
    ensures
        word_len(front + back) == front.len(),
        first_word_of(front + back) == front,
    decreases front.len(),
{
    let whole = front + back;
    if front.len() > 0 {
        assert(whole.drop_first() =~= front.drop_first() + back);
        lemma_first_word(front.drop_first(), back);
    }
}

/// The first word of a text begins the text, holds no space, and ends at a
/// space or where the text ends.
pub proof fn lemma_first_word_of(text: Seq<char>)
    ensures
        word_len(text) <= text.len(),
        forall|i: int| 0 <= i < word_len(text) ==> text[i] != ' ',
        word_len(text) < text.len() ==> text[word_len(text) as int] == ' ',
        first_word_of(first_word_of(text)) == first_word_of(text),
    decreases text.len(),
{
    if text.len() > 0 && text[0] != ' ' {
        let rest = text.drop_first();
        lemma_first_word_of(rest);
        assert forall|i: int| 0 <= i < word_len(text) implies text[i] != ' ' by {
            if i > 0 {
                assert(text[i] == rest[i - 1]);
            }
        }
    }
    let word = first_word_of(text);
    lemma_first_word(word, Seq::<char>::empty());
}

/// The part of `s` before its first space: all of `s` where it holds none.
pub fn first_word(s: &str) -> (word: &str)
    ensures
        word@ == first_word_of(s@),
{
    let bytes = s.as_bytes();
    let mut i: usize = 0;
    while i < bytes.len()
        invariant
            bytes@ == s.spec_bytes(),
            i <= bytes@.len(),
            forall|j: int| 0 <= j < i ==> bytes@[j] != SPACE,
        decreases bytes@.len() - i,
    {
        if bytes[i] == SPACE {
            proof {
                encode_utf8_valid_utf8(s@);
                is_char_boundary_iff_not_is_continuation_byte(bytes@, i as int);
            }
            let (word, rest) = s.split_at(i);
            proof {
                lemma_encode_concat(word@, rest@);
                assert(encode_utf8(word@ + rest@) =~= encode_utf8(s@));
                encode_utf8_decode_utf8(word@ + rest@);
                encode_utf8_decode_utf8(s@);
                lemma_leading_space(rest@);
                assert forall|k: int| 0 <= k < word@.len() implies word@[k] != ' ' by {
                    if word@[k] == ' ' {
                        lemma_space_is_encoded(word@, k);
                    }
                }
                lemma_first_word(word@, rest@);
            }
            return word;
        }
        i += 1;
    }
    proof {
        assert forall|k: int| 0 <= k < s@.len() implies s@[k] != ' ' by {
            if s@[k] == ' ' {
                lemma_space_is_encoded(s@, k);
            }
        }
        lemma_first_word(s@, Seq::<char>::empty());
    }
    s
}

/// In the encoding of `front + mid + back`, the bytes of `mid` run from
/// where the encoding of `front` ends, cut no character, and decode to `mid`.
pub proof fn lemma_char_range(front: Seq<char>, mid: Seq<char>, back: Seq<char>)
    ensures
        is_char_range(
            encode_utf8(front + mid + back),
            encode_utf8(front).len() as int,
            (encode_utf8(front).len() + encode_utf8(mid).len()) as int,
        ),
        encode_utf8(front + mid + back).subrange(
            encode_utf8(front).len() as int,
            (encode_utf8(front).len() + encode_utf8(mid).len()) as int,
        ) == encode_utf8(mid),
        decode_utf8(encode_utf8(mid)) == mid,
{
    assert(front + mid + back =~= front + (mid + back));
    lemma_encode_concat(front, mid);
    lemma_encode_concat(front + mid, back);
    lemma_boundary_after_prefix(front, mid + back);
    lemma_boundary_after_prefix(front + mid, back);
    encode_utf8_decode_utf8(mid);
}

/// The characters of `s`, one by one.
pub fn chars_of(s: &str) -> (letters: Vec<char>)
    ensures
        letters@ == s@,
{
    let mut letters: Vec<char> = Vec::new();
    for letter in it: s.chars()
        invariant
            it.seq() == s@,
            letters@ == it.seq().take(it.index() as int),
    {
        letters.push(letter);
    }
    letters
}

} // verus!
