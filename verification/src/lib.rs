//! Small verified programs on the basic building blocks of Rust: values and
//! control flow, structs and enums, ownership and slices, and the common
//! collections. Every function states in its contract what it computes.

pub mod collections;
pub mod concepts;
pub mod input;
pub mod ownership;
pub mod rectangles;
pub mod scores;
pub mod text;
