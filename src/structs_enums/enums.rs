//! Enums with methods, and lookups returning Option or Result.
use crate::text::{decimal_int, parse_i32, parses_i32};
use std::num::ParseIntError;
use vstd::utf8::encode_utf8;
use vstd::prelude::*;

verus! {

/// A compass direction.
#[derive(Debug, Clone, Copy, PartialEq, Eq, Structural)]
pub enum Direction {
    North,
    South,
    East,
    West,
}

/// A message with different kinds of payload.
#[derive(Debug)]
pub enum Message {
    Quit,
    Move { x: i32, y: i32 },
    Write(String),
    ChangeColor(i32, i32, i32),
}

/// An IP address in either form.
#[derive(Debug)]
pub enum IpAddr {
    V4(u8, u8, u8, u8),
    V6(String),
}

/// The life cycle of a record.
#[derive(Debug, Clone, Copy, PartialEq, Eq, Structural)]
pub enum Status {
    Active,
    Inactive,
    Pending,
    Cancelled,
}

/// Ways of failing to read a file.
#[derive(Debug, Clone, Copy, PartialEq, Eq, Structural)]
pub enum FileError {
    NotFound,
    PermissionDenied,
    InvalidFormat,
}

/// The position of the first occurrence of `target`, if any.
pub fn find_number(numbers: &[i32], target: i32) -> (r: Option<usize>)
    ensures
        r matches Some(i) ==> i < numbers@.len() && numbers@[i as int] == target && forall|j: int|
            0 <= j < i ==> numbers@[j] != target,
        r is None ==> !numbers@.contains(target),
{
    let mut i: usize = 0;
    while i < numbers.len()
        invariant
            i <= numbers@.len(),
            forall|j: int| 0 <= j < i ==> numbers@[j] != target,
        decreases numbers@.len() - i,
    {
        if numbers[i] == target {
            return Some(i);
        }
        i += 1;
    }
    None
}

/// The decimal integer in `s`, doubled.
pub fn parse_and_double(s: &str) -> (r: Result<i32, ParseIntError>)
    requires
        parses_i32(s@) ==> i32::MIN <= 2 * decimal_int(s@)->0 <= i32::MAX,
    ensures
        r is Ok <==> parses_i32(s@),
        r matches Ok(v) ==> decimal_int(s@) == Some(v / 2) && v % 2 == 0,
{
    let number = parse_i32(s)?;
    Ok(number * 2)
}

/// Reading a file's size always fails here: there is no file store.
pub fn read_file_size(_filename: &str) -> (r: Result<u64, FileError>)
    ensures
        r == Err::<u64, FileError>(FileError::NotFound),
{
    Err(FileError::NotFound)
}

impl Message {
    /// How much data the message carries: nothing for `Quit`, two coordinates,
    /// the text's length in bytes, or three colour components.
    pub fn length(&self) -> (r: usize)
        ensures
            self is Quit ==> r == 0,
            self is Move ==> r == 2,
            self matches Message::Write(t) ==> r == encode_utf8(t@).len() as usize,
            self is ChangeColor ==> r == 3,
    {
        match self {
            Message::Quit => 0,
            Message::Move { .. } => 2,
            Message::Write(text) => text.as_str().len(),
            Message::ChangeColor(_, _, _) => 3,
        }
    }
}

impl Direction {
    /// The direction pointing the other way.
    pub fn opposite(&self) -> (r: Direction)
        ensures
            *self == Direction::North ==> r == Direction::South,
            *self == Direction::South ==> r == Direction::North,
            *self == Direction::East ==> r == Direction::West,
            *self == Direction::West ==> r == Direction::East,
    {
        match self {
            Direction::North => Direction::South,
            Direction::South => Direction::North,
            Direction::East => Direction::West,
            Direction::West => Direction::East,
        }
    }

    /// East or west.
    pub fn is_horizontal(&self) -> (r: bool)
        ensures
            r == (*self == Direction::East || *self == Direction::West),
    {
        matches!(self, Direction::East | Direction::West)
    }

    /// North or south.
    pub fn is_vertical(&self) -> (r: bool)
        ensures
            r == (*self == Direction::North || *self == Direction::South),
    {
        matches!(self, Direction::North | Direction::South)
    }
}

impl Status {
    /// The following status in the cycle pending, active, inactive,
    /// cancelled, pending.
    pub fn next(&self) -> (r: Status)
        ensures
            *self == Status::Pending ==> r == Status::Active,
            *self == Status::Active ==> r == Status::Inactive,
            *self == Status::Inactive ==> r == Status::Cancelled,
            *self == Status::Cancelled ==> r == Status::Pending,
    {
        match self {
            Status::Pending => Status::Active,
            Status::Active => Status::Inactive,
            Status::Inactive => Status::Cancelled,
            Status::Cancelled => Status::Pending,
        }
    }

    /// Whether the status is `Active`.
    pub fn is_active(&self) -> (r: bool)
        ensures
            r == (*self == Status::Active),
    {
        *self == Status::Active
    }
}

} // verus!
