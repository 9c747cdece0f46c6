//! Structs, enums and pattern matching.

use vstd::prelude::*;

verus! {

/// A rectangle with sides in pixels.
#[derive(Debug, Clone, Copy, PartialEq, Eq)]
pub struct Rectangle {
    pub width: u32,
    pub height: u32,
}

/// A vector of three coordinates.
#[derive(Debug, Clone, Copy, PartialEq, Eq)]
pub struct Vector(pub u32, pub u32, pub u32);

/// A user, who owns both texts.
#[derive(Debug)]
pub struct User {
    pub username: String,
    pub email: String,
}

/// An address of either version, each variant with its own data.
#[derive(Debug)]
pub enum IpAddr {
    V4(u8, u8, u8, u8),
    V6(String),
}

/// The dot product of two vectors.
pub open spec fn dot_product(vec1: Vector, vec2: Vector) -> int {
    vec1.0 * vec2.0 + vec1.1 * vec2.1 + vec1.2 * vec2.2
}

/// The area of `rectangle` in square pixels.
pub fn area(rectangle: &Rectangle) -> (pixels: u32)
    requires
        rectangle.width * rectangle.height <= u32::MAX,
    ensures
        pixels == rectangle.width * rectangle.height,
{
    rectangle.width * rectangle.height
}

/// The dot product of `vec1` and `vec2`.
pub fn dot(vec1: Vector, vec2: Vector) -> (product: u32)
    requires
        dot_product(vec1, vec2) <= u32::MAX,
    ensures
        product == dot_product(vec1, vec2),
{
    assert(vec1.0 * vec2.0 >= 0 && vec1.1 * vec2.1 >= 0 && vec1.2 * vec2.2 >= 0)
        by (nonlinear_arith);
    vec1.0 * vec2.0 + vec1.1 * vec2.1 + vec1.2 * vec2.2
}

impl Rectangle {
    /// The area in square pixels.
    pub open spec fn spec_area(&self) -> int {
        self.width * self.height
    }

    /// The area in square pixels.
    pub fn area(&self) -> (pixels: u32)
        requires
            self.spec_area() <= u32::MAX,
        ensures
            pixels == self.spec_area(),
    {
        self.width * self.height
    }

    /// The square with sides of `size`.
    pub fn square(size: u32) -> (rectangle: Rectangle)
        ensures
            rectangle.width == size,
            rectangle.height == size,
    {
        Rectangle { width: size, height: size }
    }
}

/// The sum of `x` and what `y` holds, nothing counting as zero.
pub open spec fn sum_with(x: i8, y: Option<i8>) -> int {
    match y {
        Some(num) => x + num,
        None => x as int,
    }
}

/// Adds to `x` what `y` holds, or zero where it holds nothing.
pub fn add_option(x: i8, y: Option<i8>) -> (sum: i8)
    requires
        i8::MIN <= sum_with(x, y) <= i8::MAX,
    ensures
        sum == sum_with(x, y),
{
    x + match y {
        Some(num) => num,
        None => 0,
    }
}

/// The name of `value` where it is one of the odd numbers below eight.
pub fn odd_name(value: u8) -> (name: Option<&'static str>)
    ensures
        value == 1 ==> name is Some && name->Some_0@ == "one"@,
        value == 3 ==> name is Some && name->Some_0@ == "three"@,
        value == 5 ==> name is Some && name->Some_0@ == "five"@,
        value == 7 ==> name is Some && name->Some_0@ == "seven"@,
        value != 1 && value != 3 && value != 5 && value != 7 ==> name is None,
{
    match value {
        1 => Some("one"),
        3 => Some("three"),
        5 => Some("five"),
        7 => Some("seven"),
        _ => None,
    }
}

/// Whether `y` holds five, found by a `match` with a catch-all arm.
pub fn is_five(y: Option<i8>) -> (five: bool)
    ensures
        five == (y == Some(5i8)),
{
    match y {
        Some(5) => true,
        _ => false,
    }
}

/// Whether `y` holds five, found by `if let`.
pub fn is_five_if_let(y: Option<i8>) -> (five: bool)
    ensures
        five == (y == Some(5i8)),
{
    if let Some(5) = y {
        true
    } else {
        false
    }
}

/// What a walk through structs, enums and matches yields.
#[derive(Debug)]
pub struct StructTour {
    /// A rectangle of 30 by 50.
    pub rect1: Rectangle,
    /// A user.
    pub user: User,
    /// The area of `rect1`, by the free function.
    pub area: u32,
    /// The dot product of `(1, 3, 4)` and `(5, 1, 2)`.
    pub dot: u32,
    /// The area of `rect1`, by the method.
    pub method_area: u32,
    /// The square of side 5.
    pub square: Rectangle,
    /// The address of this host in version four.
    pub home: IpAddr,
    /// The address of this host in version six.
    pub loopback: IpAddr,
    /// Five, plus what an `Option` of five holds.
    pub sum: i8,
    /// The byte that is matched against the odd numbers.
    pub some_u8_value: u8,
    /// The name of that byte, which has none.
    pub name: Option<&'static str>,
    /// Whether the `Option` holds five, by `match`.
    pub five_by_match: bool,
    /// Whether the `Option` holds five, by `if let`.
    pub five_by_if_let: bool,
}

/// Builds a rectangle, a user, two vectors and two addresses, measures them
/// and matches on an `Option` and on a byte.
pub fn structs_and_matches() -> (tour: StructTour)
    ensures
        tour.rect1 == (Rectangle { width: 30, height: 50 }),
        tour.user.username@ == "name"@,
        tour.user.email@ == "email@gmail.com"@,
        tour.area == 1500,
        tour.dot == 16,
        tour.method_area == 1500,
        tour.square == (Rectangle { width: 5, height: 5 }),
        tour.home matches IpAddr::V4(a, b, c, d) && a == 127 && b == 0 && c == 0 && d == 1,
        tour.loopback matches IpAddr::V6(text) && text@ == "::1"@,
        tour.sum == 10,
        tour.some_u8_value == 0,
        tour.name is None,
        tour.five_by_match,
        tour.five_by_if_let,
{
    let rect1 = Rectangle { width: 30, height: 50 };
    let user = User {
        username: String::from_str("name"),
        email: String::from_str("email@gmail.com"),
    };
    let rect_area = area(&rect1);
    let vec1 = Vector(1, 3, 4);
    let vec2 = Vector(5, 1, 2);
    let product = dot(vec1, vec2);
    let method_area = rect1.area();
    let square = Rectangle::square(5);
    let home = IpAddr::V4(127, 0, 0, 1);
    let loopback = IpAddr::V6(String::from_str("::1"));

    let x: i8 = 5;
    let y: Option<i8> = Some(5);
    let sum = add_option(x, y);
    let some_u8_value: u8 = 0u8;
    let name = odd_name(some_u8_value);
    StructTour {
        rect1,
        user,
        area: rect_area,
        dot: product,
        method_area,
        square,
        home,
        loopback,
        sum,
        some_u8_value,
        name,
        five_by_match: is_five(y),
        five_by_if_let: is_five_if_let(y),
    }
}

} // verus!
