//! Variables, numeric types, functions and control flow.

use crate::input::{parse_usize, parsed_usize, trim, trimmed};
use vstd::prelude::*;

verus! {

/// The most points that can be had.
pub const MAX_POINTS: u32 = 100_000;

/// The values that a variable and a shadowed name take in turn.
pub struct Variables {
    /// A mutable variable as first bound.
    pub initial: i32,
    /// The same variable after assignment.
    pub reassigned: i32,
    /// The constant `MAX_POINTS`.
    pub max_points: u32,
    /// A name as first bound.
    pub shadow: i32,
    /// The name bound again, to one more.
    pub shadow_again: i32,
    /// The name bound a third time, to a text.
    pub shadow_as_text: &'static str,
}

/// Binds a variable and assigns to it, then shadows a name twice.
pub fn variables_and_mutability() -> (values: Variables)
    ensures
        values.initial == 5,
        values.reassigned == 6,
        values.max_points == MAX_POINTS,
        values.shadow == 5,
        values.shadow_again == values.shadow + 1,
        values.shadow_as_text@ == "a string"@,
{
    let mut x: i32 = 5;
    let initial: i32 = x;
    x = 6;
    let shadow: i32 = 5;
    let first: i32 = shadow;
    let shadow: i32 = shadow + 1;
    let second: i32 = shadow;
    let shadow = "a string";
    Variables {
        initial,
        reassigned: x,
        max_points: MAX_POINTS,
        shadow: first,
        shadow_again: second,
        shadow_as_text: shadow,
    }
}

/// The results of the integer operations.
pub struct IntegerResults {
    /// Five plus ten.
    pub sum: i32,
    /// Four times thirty.
    pub product: i32,
    /// What is left of forty-three after division by five.
    pub remainder: i32,
}

/// Adds, multiplies and takes a remainder.
pub fn numeric_operations() -> (results: IntegerResults)
    ensures
        results.sum == 15,
        results.product == 120,
        results.remainder == 3,
{
    let sum: i32 = 5 + 10;
    let product: i32 = 4 * 30;
    let remainder: i32 = 43 % 5;
    IntegerResults { sum, product, remainder }
}

/// The two truth values, the second bound with its type written out.
pub fn boolean_type() -> (values: (bool, bool))
    ensures
        values == (true, false),
{
    let b = true;
    let first = b;
    let b: bool = false;
    (first, b)
}

/// A letter and a character from beyond the basic plane.
pub fn character_type() -> (values: (char, char))
    ensures
        values == ('z', '\u{1F63B}'),
{
    let c = 'z';
    let first = c;
    let c = '\u{1F63B}';
    (first, c)
}

/// The members of a pair, read in two ways.
pub struct PairParts {
    /// The members as a pattern binds them.
    pub destructured: (i32, char),
    /// The members as their positions give them.
    pub by_position: (i32, char),
}

/// Takes the pair `(500, 'z')` apart by a pattern and by position.
pub fn tuple_type() -> (parts: PairParts)
    ensures
        parts.destructured == (500i32, 'z'),
        parts.by_position == parts.destructured,
{
    let tup: (i32, char) = (500, 'z');
    let (x, z) = tup;
    PairParts { destructured: (x, z), by_position: (tup.0, tup.1) }
}

/// The names of the twelve months, in order.
pub open spec fn month_names() -> Seq<Seq<char>> {
    seq![
        "January"@,
        "February"@,
        "March"@,
        "April"@,
        "May"@,
        "June"@,
        "July"@,
        "August"@,
        "September"@,
        "October"@,
        "November"@,
        "December"@,
    ]
}

/// The name of the month at `index`, counted from zero.
pub fn month_name(index: usize) -> (name: &'static str)
    requires
        index < 12,
    ensures
        name@ == month_names()[index as int],
{
    let a: [&'static str; 12] = [
        "January",
        "February",
        "March",
        "April",
        "May",
        "June",
        "July",
        "August",
        "September",
        "October",
        "November",
        "December",
    ];
    a[index]
}

/// Why a line of input names no month.
#[derive(Debug, Clone, Copy, PartialEq, Eq)]
pub enum IndexError {
    /// The line, trimmed, is not an unsigned decimal number.
    NotANumber,
    /// The number, which is twelve or more.
    OutOfRange(usize),
}

/// A month picked by its index.
#[derive(Debug, Clone, Copy, PartialEq, Eq)]
pub struct MonthPick {
    /// The index that was entered.
    pub index: usize,
    /// The name of the month at that index.
    pub name: &'static str,
}

/// What `array_type` makes of a line whose trimmed text parses to `parsed`.
pub open spec fn month_pick_ok(parsed: Option<usize>, picked: Result<MonthPick, IndexError>) -> bool {
    match parsed {
        None => picked == Err::<MonthPick, IndexError>(IndexError::NotANumber),
        Some(index) => if index < 12 {
            &&& picked is Ok
            &&& picked->Ok_0.index == index
            &&& picked->Ok_0.name@ == month_names()[index as int]
        } else {
            picked == Err::<MonthPick, IndexError>(IndexError::OutOfRange(index))
        },
    }
}

/// Reads an index from `line`, white space around it set aside, and picks
/// the month at that index.
pub fn array_type(line: &str) -> (picked: Result<MonthPick, IndexError>)
    ensures
        month_pick_ok(parsed_usize(trimmed(line@)), picked),
{
    match parse_usize(trim(line)) {
        None => Err(IndexError::NotANumber),
        Some(index) => {
            if index < 12 {
                Ok(MonthPick { index, name: month_name(index) })
            } else {
                Err(IndexError::OutOfRange(index))
            }
        },
    }
}

/// The successor of `x`.
pub fn plus_one(x: i32) -> (r: i32)
    requires
        x < i32::MAX,
    ensures
        r == x + 1,
{
    x + 1
}

/// What a call of `another_function` works out.
pub struct FunctionResults {
    /// The argument, as it was passed.
    pub param: i32,
    /// The value of a block that ends in an expression.
    pub block_value: i32,
    /// The successor of five.
    pub successor: i32,
}

/// Takes an argument, evaluates a block to four and calls `plus_one` on five.
pub fn another_function(param: i32) -> (results: FunctionResults)
    ensures
        results.param == param,
        results.block_value == 4,
        results.successor == 6,
{
    let y: i32 = {
        let x: i32 = 3;
        x + 1
    };
    FunctionResults { param, block_value: y, successor: plus_one(5) }
}

/// The branch that a number takes.
#[derive(Debug, Clone, Copy, PartialEq, Eq)]
pub enum NumberKind {
    /// The number is below five.
    LessThanFive,
    /// The number is five or more and even.
    DivisibleByTwo,
    /// The number is five or more and odd.
    GreaterThanFive,
}

/// The branch that `number` takes: the first of the three tests that holds.
pub open spec fn kind_of(number: int) -> NumberKind {
    if number < 5 {
        NumberKind::LessThanFive
    } else if number % 2 == 0 {
        NumberKind::DivisibleByTwo
    } else {
        NumberKind::GreaterThanFive
    }
}

/// Sorts `number` by the first test that it passes.
pub fn number_kind(number: i32) -> (kind: NumberKind)
    ensures
        kind == kind_of(number as int),
{
    if number < 5 {
        NumberKind::LessThanFive
    } else if number % 2 == 0 {
        NumberKind::DivisibleByTwo
    } else {
        NumberKind::GreaterThanFive
    }
}

/// Five where `condition` holds, six where it does not.
pub fn pick_number(condition: bool) -> (number: i32)
    ensures
        number == if condition { 5int } else { 6int },
{
    if condition {
        5
    } else {
        6
    }
}

/// Sorts six into its branch and picks a number by a condition that holds.
pub fn if_statement() -> (results: (NumberKind, i32))
    ensures
        results == (NumberKind::DivisibleByTwo, 5i32),
{
    let number: i32 = 6;
    let kind = number_kind(number);
    let condition = true;
    let number: i32 = pick_number(condition);
    (kind, number)
}

/// Counts up to five, leaves the loop and doubles the count.
pub fn loops() -> (results: (u32, i32))
    ensures
        results == (5u32, 10i32),
{
    let mut rounds: u32 = 0;
    let mut counter: i32 = 0;
    loop
        invariant_except_break
            0 <= counter < 5,
            rounds == counter,
        ensures
            counter == 5,
            rounds == 5,
        decreases 5 - counter,
    {
        rounds = rounds + 1;
        counter = counter + 1;
        if counter >= 5 {
            break;
        }
    }
    let result: i32 = counter * 2;
    (rounds, result)
}

/// The numbers from `from` down to one.
pub open spec fn counted_down(from: nat) -> Seq<u32> {
    Seq::new(from, |i: int| (from - i) as u32)
}

/// Counts down from `from` to one and lists the numbers passed.
pub fn countdown(from: u32) -> (passed: Vec<u32>)
    ensures
        passed@ == counted_down(from as nat),
{
    let mut passed: Vec<u32> = Vec::new();
    let mut number: u32 = from;
    while number != 0
        invariant
            number <= from,
            passed@.len() == from - number,
            forall|i: int| 0 <= i < passed@.len() ==> passed@[i] == from - i,
        decreases number,
    {
        passed.push(number);
        number -= 1;
    }
    passed
}

/// Counts down from three.
pub fn while_loops() -> (passed: Vec<u32>)
    ensures
        passed@ == seq![3u32, 2, 1],
{
    let passed = countdown(3);
    passed
}

/// Walks over the array `[10, 20, 30, 40, 50]` and lists what it meets.
pub fn for_loops() -> (met: Vec<i32>)
    ensures
        met@ == seq![10i32, 20, 30, 40, 50],
{
    let a: [i32; 5] = [10, 20, 30, 40, 50];
    let mut met: Vec<i32> = Vec::new();
    for elem in it: a.iter()
        invariant
            it.seq().len() == 5,
            forall|i: int| 0 <= i < 5 ==> *it.seq()[i] == a@[i],
            met@.len() == it.index(),
            forall|i: int| 0 <= i < met@.len() ==> met@[i] == a@[i],
    {
        met.push(*elem);
    }
    met
}

} // verus!
