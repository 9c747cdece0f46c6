//! Vectors, strings and a score table keyed by team name.

use crate::scores::{collected, collected_names, Scores};
use crate::text::{byte_slice, chars_of, lemma_char_range};
use vstd::prelude::*;
use vstd::utf8::*;

verus! {

/// What a walk through the vector operations yields, step by step.
pub struct VectorTour {
    /// A vector written as a literal.
    pub literal: Vec<i32>,
    /// A vector filled by three pushes.
    pub pushed: Vec<i32>,
    /// The element at index 2, read by indexing.
    pub third: i32,
    /// The element at index 1, read by a checked lookup.
    pub second: Option<i32>,
    /// The literal vector after one more push.
    pub grown: Vec<i32>,
    /// The grown vector with ten added to every element.
    pub raised: Vec<i32>,
}

/// Whether `amount` can be added to every element of `s` within `i32`.
pub open spec fn can_add_to_each(s: Seq<i32>, amount: int) -> bool {
    forall|i: int| 0 <= i < s.len() ==> i32::MIN <= #[trigger] s[i] + amount <= i32::MAX
}

/// The element at `index`, or `None` past the end.
pub fn element_at(v: &Vec<i32>, index: usize) -> (found: Option<i32>)
    ensures
        found == if index < v@.len() { Some(v@[index as int]) } else { None },
{
    match v.get(index) {
        Some(value) => Some(*value),
        None => None,
    }
}

/// Adds `amount` to every element of `v`, in place.
pub fn add_to_each(v: &mut Vec<i32>, amount: i32)
    requires
        can_add_to_each(old(v)@, amount as int),
    ensures
        final(v)@.len() == old(v)@.len(),
        forall|i: int| 0 <= i < old(v)@.len() ==> #[trigger] final(v)@[i] == old(v)@[i] + amount,
{
    let mut i: usize = 0;
    while i < v.len()
        invariant
            i <= v@.len(),
            v@.len() == old(v)@.len(),
            can_add_to_each(old(v)@, amount as int),
            forall|j: int| 0 <= j < i ==> #[trigger] v@[j] == old(v)@[j] + amount,
            forall|j: int| i <= j < v@.len() ==> #[trigger] v@[j] == old(v)@[j],
        decreases v@.len() - i,
    {
        let raised: i32 = v[i] + amount;
        v.set(i, raised);
        i += 1;
    }
}

/// Builds a vector from a literal and another by pushes, reads two elements,
/// pushes a fourth and adds ten to each.
pub fn vectors() -> (tour: VectorTour)
    ensures
        tour.literal@ == seq![1i32, 2, 3],
        tour.pushed@ == seq![5i32, 6, 7],
        tour.third == 3,
        tour.second == Some(2i32),
        tour.grown@ == seq![1i32, 2, 3, 4],
        tour.raised@ == seq![11i32, 12, 13, 14],
{
    let literal: Vec<i32> = vec![1, 2, 3];
    let mut pushed: Vec<i32> = Vec::new();
    pushed.push(5);
    pushed.push(6);
    pushed.push(7);

    let mut v: Vec<i32> = vec![1, 2, 3];
    let third: i32 = v[2];
    let second = element_at(&v, 1);
    v.push(4);
    let grown = v.clone();
    add_to_each(&mut v, 10);
    VectorTour { literal, pushed, third, second, grown, raised: v }
}

/// What a walk through the string operations yields.
pub struct StringTour {
    /// A text grown by two appends and one concatenation.
    pub joined: String,
    /// A greeting in Cyrillic letters, two bytes each.
    pub greeting: String,
    /// The first four bytes of the greeting.
    pub prefix: String,
    /// The characters of the greeting.
    pub letters: Vec<char>,
    /// The bytes of the greeting.
    pub bytes: Vec<u8>,
}

/// The greeting that `strings` takes apart.
pub open spec fn greeting_text() -> Seq<char> {
    seq![
        '\u{417}',
        '\u{434}',
        '\u{440}',
        '\u{430}',
        '\u{432}',
        '\u{441}',
        '\u{442}',
        '\u{432}',
        '\u{443}',
        '\u{439}',
        '\u{442}',
        '\u{435}',
    ]
}

/// Grows a text piece by piece, then slices a Cyrillic greeting by bytes and
/// lists its characters and its bytes.
pub fn strings() -> (tour: StringTour)
    ensures
        tour.joined@ == "Initial contents, and more!!!"@,
        tour.greeting@ == greeting_text(),
        tour.prefix@ == greeting_text().take(2),
        tour.letters@ == greeting_text(),
        tour.bytes@ == encode_utf8(greeting_text()),
{
    let mut s = String::from_str("Initial contents");
    s.append(", and more");
    s.append("!");
    let s2 = String::from_str("!!");
    let joined = s.concat(s2.as_str());
    proof {
        reveal_strlit("Initial contents");
        reveal_strlit(", and more");
        reveal_strlit("!");
        reveal_strlit("!!");
        reveal_strlit("Initial contents, and more!!!");
    }

    let greeting = String::from_str("\u{417}\u{434}\u{440}\u{430}\u{432}\u{441}\u{442}\u{432}\u{443}\u{439}\u{442}\u{435}");
    proof {
        reveal_strlit("\u{417}\u{434}\u{440}\u{430}\u{432}\u{441}\u{442}\u{432}\u{443}\u{439}\u{442}\u{435}");
        assert(greeting@ =~= greeting_text());
        let front = Seq::<char>::empty();
        let mid = greeting_text().take(2);
        let back = greeting_text().skip(2);
        assert(front + mid + back =~= greeting_text());
        lemma_char_range(front, mid, back);
        reveal_with_fuel(encode_utf8, 3);
    }
    let prefix = String::from_str(byte_slice(greeting.as_str(), 0, 4));
    let letters = chars_of(greeting.as_str());
    let bytes = greeting.as_str().as_bytes_vec();
    StringTour { joined, greeting, prefix, letters, bytes }
}

/// What a walk through the score table yields, step by step.
pub struct ScoreTour {
    /// The table collected from two teams and their scores.
    pub gathered: Scores,
    /// The table with a third team inserted.
    pub listed: Scores,
    /// The score of the blue team in `listed`.
    pub blue: Option<i32>,
    /// The table after blue's score was replaced, blue was offered another
    /// score and red was offered one.
    pub settled: Scores,
    /// The table after red's score was raised by one.
    pub raised: Scores,
    /// The score of the red team in `raised`.
    pub red: Option<i32>,
}

/// Fills a score table by insertion and from two lists, replaces a score,
/// offers scores to a listed and to a new team, and raises a score by one.
pub fn hash_maps() -> (tour: ScoreTour)
    ensures
        tour.gathered.wf(),
        tour.gathered@ == map!["blue"@ => 10i32, "yellow"@ => 5i32],
        tour.gathered.names() == seq!["blue"@, "yellow"@],
        tour.listed.wf(),
        tour.listed@ == map!["blue"@ => 10i32, "yellow"@ => 5i32, "green"@ => 7i32],
        tour.listed.names() == seq!["blue"@, "yellow"@, "green"@],
        tour.blue == Some(10i32),
        tour.settled.wf(),
        tour.settled@ == map![
            "blue"@ => 25i32,
            "yellow"@ => 5i32,
            "green"@ => 7i32,
            "red"@ => 9i32,
        ],
        tour.settled.names() == seq!["blue"@, "yellow"@, "green"@, "red"@],
        tour.raised.wf(),
        tour.raised@ == map![
            "blue"@ => 25i32,
            "yellow"@ => 5i32,
            "green"@ => 7i32,
            "red"@ => 10i32,
        ],
        tour.raised.names() == seq!["blue"@, "yellow"@, "green"@, "red"@],
        tour.red == Some(10i32),
{
    proof {
        reveal_strlit("blue");
        reveal_strlit("yellow");
        reveal_strlit("green");
        reveal_strlit("red");
        assert("blue"@.len() == 4);
        assert("yellow"@.len() == 6);
        assert("green"@.len() == 5);
        assert("red"@.len() == 3);
    }
    let mut inserted = Scores::new();
    inserted.insert(String::from_str("blue"), 10);
    inserted.insert(String::from_str("yellow"), 5);

    let mut teams: Vec<String> = Vec::new();
    teams.push(String::from_str("blue"));
    teams.push(String::from_str("yellow"));
    let initial_scores: Vec<i32> = vec![10, 5];
    let mut scores = Scores::from_pairs(&teams, &initial_scores);
    proof {
        reveal_with_fuel(collected, 3);
        reveal_with_fuel(collected_names, 3);
        assert(scores@ == inserted@);
    }
    let gathered = scores.snapshot();

    scores.insert(String::from_str("green"), 7);
    let blue = scores.get("blue");
    let listed = scores.snapshot();

    scores.insert(String::from_str("blue"), 25);
    scores.or_insert(String::from_str("blue"), 9);
    scores.or_insert(String::from_str("red"), 9);
    let settled = scores.snapshot();

    let held = scores.or_insert(String::from_str("red"), 9);
    scores.insert(String::from_str("red"), held + 1);
    let red = scores.get("red");
    ScoreTour { gathered, listed, blue, settled, raised: scores, red }
}

} // verus!
