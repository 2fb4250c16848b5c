//! Matching on enums and structs, and a small job state machine.
use vstd::prelude::*;
use vstd::string::StringExecFns;

verus! {

/// A US coin.
#[derive(Debug)]
pub enum Coin {
    Penny,
    Nickel,
    Dime,
    Quarter(UsState),
}

/// The state printed on a quarter.
#[derive(Debug, Clone, Copy, PartialEq, Eq, Structural)]
pub enum UsState {
    Alabama,
    Alaska,
    California,
    Texas,
}

/// A point on the integer grid.
#[derive(Debug)]
pub struct Point {
    pub x: i32,
    pub y: i32,
}

/// The states of a job that advances in steps of ten percent.
#[derive(Debug, PartialEq)]
pub enum State {
    Idle,
    Processing { progress: u8 },
    Complete,
    Error(String),
}

/// Where a point lies.
#[derive(Debug, Clone, Copy, PartialEq, Eq, Structural)]
pub enum PointKind {
    Origin,
    OnYAxis,
    OnXAxis,
    OnDiagonal,
    Elsewhere,
}

/// Where `point` lies; the first matching case wins: the origin, the y axis,
/// the x axis, the diagonal `x == y`, anywhere else.
pub fn analyze_point(point: &Point) -> (r: PointKind)
    ensures
        point.x == 0 && point.y == 0 ==> r == PointKind::Origin,
        point.x == 0 && point.y != 0 ==> r == PointKind::OnYAxis,
        point.x != 0 && point.y == 0 ==> r == PointKind::OnXAxis,
        point.x != 0 && point.y != 0 && point.x == point.y ==> r == PointKind::OnDiagonal,
        point.x != 0 && point.y != 0 && point.x != point.y ==> r == PointKind::Elsewhere,
{
    if point.x == 0 && point.y == 0 {
        PointKind::Origin
    } else if point.x == 0 {
        PointKind::OnYAxis
    } else if point.y == 0 {
        PointKind::OnXAxis
    } else if point.x == point.y {
        PointKind::OnDiagonal
    } else {
        PointKind::Elsewhere
    }
}

/// The value of a coin in cents.
pub fn value_in_cents(coin: Coin) -> (r: u8)
    ensures
        coin is Penny ==> r == 1,
        coin is Nickel ==> r == 5,
        coin is Dime ==> r == 10,
        coin is Quarter ==> r == 25,
{
    match coin {
        Coin::Penny => 1,
        Coin::Nickel => 5,
        Coin::Dime => 10,
        Coin::Quarter(_) => 25,
    }
}

/// One more than the value inside, if there is one.
pub fn plus_one(x: Option<i32>) -> (r: Option<i32>)
    requires
        x matches Some(i) ==> i < i32::MAX,
    ensures
        x is None ==> r is None,
        x matches Some(i) ==> r == Some((i + 1) as i32),
{
    match x {
        None => None,
        Some(i) => Some(i + 1),
    }
}

/// One step of the job: an idle job starts at zero; a running one advances
/// by ten until it reaches one hundred, where it completes; progress past
/// one hundred is an error; a complete job stays complete; an error resets
/// the job to idle.
pub fn process_state(state: State) -> (r: State)
    ensures
        state is Idle ==> r == (State::Processing { progress: 0 }),
        state matches State::Processing { progress } ==> (if progress < 100 {
            r == (State::Processing { progress: (progress + 10) as u8 })
        } else if progress == 100 {
            r is Complete
        } else {
            (r matches State::Error(m) && m@ == "进度超出范围"@)
        }),
        state is Complete ==> r is Complete,
        state is Error ==> r is Idle,
{
    match state {
        State::Idle => State::Processing { progress: 0 },
        State::Processing { progress } => {
            if progress < 100 {
                State::Processing { progress: progress + 10 }
            } else if progress == 100 {
                State::Complete
            } else {
                State::Error(String::from_str("进度超出范围"))
            }
        },
        State::Complete => State::Complete,
        State::Error(_) => State::Idle,
    }
}

} // verus!
