use rust_learning::structs_enums::enums::{
    find_number, parse_and_double, read_file_size, Direction, FileError, Message, Status,
};
use rust_learning::structs_enums::pattern_matching::{
    analyze_point, plus_one, process_state, value_in_cents, Coin, Point, PointKind, State, UsState,
};
use rust_learning::structs_enums::structs::{build_user, Rectangle, User};
use std::cmp::Ordering;

fn classify_point(p: &Point) -> &'static str {
    match p {
        Point { x: 0, y: 0 } => "origin",
        Point { x: 0, .. } => "y-axis",
        Point { y: 0, .. } => "x-axis",
        _ => "other",
    }
}

fn extract_inner(opt: Option<Option<i32>>) -> i32 {
    match opt {
        Some(Some(x)) => x,
        Some(None) => 0,
        None => -1,
    }
}

#[test]
fn test_direction_opposite() {
    assert_eq!(Direction::North.opposite() as u8, Direction::South as u8);
    assert_eq!(Direction::East.opposite() as u8, Direction::West as u8);
}

#[test]
fn test_direction_horizontal() {
    assert!(Direction::East.is_horizontal());
    assert!(Direction::West.is_horizontal());
    assert!(!Direction::North.is_horizontal());
    assert!(!Direction::South.is_horizontal());
}

#[test]
fn test_status_next() {
    assert_eq!(Status::Pending.next(), Status::Active);
    assert_eq!(Status::Active.next(), Status::Inactive);
    assert_eq!(Status::Inactive.next(), Status::Cancelled);
    assert_eq!(Status::Cancelled.next(), Status::Pending);
}

#[test]
fn test_status_is_active() {
    assert!(Status::Active.is_active());
    assert!(!Status::Pending.is_active());
    assert!(!Status::Inactive.is_active());
    assert!(!Status::Cancelled.is_active());
}

#[test]
fn test_find_number() {
    let numbers = vec![1, 2, 3, 4, 5];
    assert_eq!(find_number(&numbers, 3), Some(2));
    assert_eq!(find_number(&numbers, 10), None);
}

#[test]
fn enums_test_parse_and_double() {
    assert_eq!(parse_and_double("5"), Ok(10));
    assert!(parse_and_double("abc").is_err());
}

#[test]
fn test_message_length() {
    let quit = Message::Quit;
    let move_msg = Message::Move { x: 1, y: 2 };
    let write_msg = Message::Write(String::from("hello"));
    let color_msg = Message::ChangeColor(255, 0, 0);

    assert_eq!(quit.length(), 0);
    assert_eq!(move_msg.length(), 2);
    assert_eq!(write_msg.length(), 5);
    assert_eq!(color_msg.length(), 3);
}

#[test]
fn test_value_in_cents() {
    assert_eq!(value_in_cents(Coin::Penny), 1);
    assert_eq!(value_in_cents(Coin::Nickel), 5);
    assert_eq!(value_in_cents(Coin::Dime), 10);
    assert_eq!(value_in_cents(Coin::Quarter(UsState::California)), 25);
}

#[test]
fn test_plus_one() {
    assert_eq!(plus_one(Some(5)), Some(6));
    assert_eq!(plus_one(None), None);
}

#[test]
fn test_pattern_matching_ranges() {
    let test_range = |x| match x {
        1..=5 => "low",
        6..=10 => "medium",
        _ => "high",
    };

    assert_eq!(test_range(3), "low");
    assert_eq!(test_range(7), "medium");
    assert_eq!(test_range(15), "high");
}

#[test]
fn test_point_matching() {
    let origin = Point { x: 0, y: 0 };
    let on_x_axis = Point { x: 5, y: 0 };
    let on_y_axis = Point { x: 0, y: 3 };
    let other = Point { x: 2, y: 3 };

    assert_eq!(classify_point(&origin), "origin");
    assert_eq!(classify_point(&on_x_axis), "x-axis");
    assert_eq!(classify_point(&on_y_axis), "y-axis");
    assert_eq!(classify_point(&other), "other");
}

#[test]
fn state_machine_runs_to_completion() {
    let mut state = process_state(State::Idle);
    assert_eq!(state, State::Processing { progress: 0 });
    let mut steps = 0;
    while let State::Processing { .. } = state {
        state = process_state(state);
        steps += 1;
    }
    assert_eq!(steps, 11);
    assert_eq!(state, State::Complete);
}

#[test]
fn test_nested_matching() {
    let nested = Some(Some(5));
    let flat = Some(None);
    let nothing: Option<Option<i32>> = None;

    assert_eq!(extract_inner(nested), 5);
    assert_eq!(extract_inner(flat), 0);
    assert_eq!(extract_inner(nothing), -1);
}

#[test]
fn test_user_creation() {
    let user = User::new(String::from("testuser"), String::from("test@example.com"));

    assert_eq!(user.username, "testuser");
    assert_eq!(user.email, "test@example.com");
    assert!(user.active);
    assert_eq!(user.sign_in_count, 1);
}

#[test]
fn test_rectangle_area() {
    let rect = Rectangle::new(10, 20);
    assert_eq!(rect.area(), 200);
}

#[test]
fn test_rectangle_perimeter() {
    let rect = Rectangle::new(10, 20);
    assert_eq!(rect.perimeter(), 60);
}

#[test]
fn test_square() {
    let square = Rectangle::square(5);
    assert_eq!(square.width, 5);
    assert_eq!(square.height, 5);
    assert!(square.is_square());
}

#[test]
fn test_can_hold() {
    let larger = Rectangle::new(10, 20);
    let smaller = Rectangle::new(5, 10);

    assert!(larger.can_hold(&smaller));
    assert!(!smaller.can_hold(&larger));
}

#[test]
fn test_user_sign_in() {
    let mut user = User::new_admin("admin", "admin@test.com");
    assert_eq!(user.sign_in_count, 0);

    user.sign_in();
    assert_eq!(user.sign_in_count, 1);

    user.sign_in();
    assert_eq!(user.sign_in_count, 2);
}

#[test]
fn test_user_deactivate() {
    let mut user = User::new(String::from("active"), String::from("active@test.com"));
    assert!(user.active);

    user.deactivate();
    assert!(!user.active);
}

#[test]
fn test_rectangle_scale() {
    let rect = Rectangle::new(3, 4);
    let scaled = rect.scale(2);

    assert_eq!(scaled.width, 6);
    assert_eq!(scaled.height, 8);
}

#[test]
fn rectangle_helpers() {
    let mut rect = Rectangle::default();
    assert_eq!((rect.width, rect.height), (1, 1));
    rect.resize(4, 6);
    assert_eq!((rect.width, rect.height), (4, 6));
    assert!(!rect.is_square());
    assert_eq!(rect.compare_area(&Rectangle::new(5, 5)), Ordering::Less);
    assert_eq!(rect.compare_area(&Rectangle::new(3, 8)), Ordering::Equal);
    assert_eq!(rect.compare_area(&Rectangle::new(1, 1)), Ordering::Greater);
}

#[test]
fn user_helpers() {
    let user = build_user(String::from("b@x.org"), String::from("bee"));
    assert!(user.active);
    assert_eq!(user.username, "bee");
    assert_eq!(user.email, "b@x.org");
    assert!(user.is_new_user());
    let mut admin = User::new_admin("root", "r@x.org");
    admin.sign_in();
    admin.sign_in();
    assert!(!admin.is_new_user());
}

#[test]
fn direction_vertical_and_opposites() {
    assert!(Direction::North.is_vertical());
    assert!(!Direction::West.is_vertical());
    assert_eq!(Direction::South.opposite(), Direction::North);
    assert_eq!(Direction::West.opposite(), Direction::East);
}

#[test]
fn parse_and_double_accepts_signs() {
    assert_eq!(parse_and_double("-21"), Ok(-42));
    assert_eq!(parse_and_double("+4"), Ok(8));
    assert!(parse_and_double(" 4").is_err());
    assert!(parse_and_double("").is_err());
}

#[test]
fn message_length_counts_bytes() {
    assert_eq!(Message::Write(String::from("é")).length(), 2);
}

#[test]
fn reading_a_file_size_fails() {
    assert!(matches!(read_file_size("a.txt"), Err(FileError::NotFound)));
}

#[test]
fn state_machine_edges() {
    assert_eq!(process_state(State::Complete), State::Complete);
    assert_eq!(process_state(State::Error(String::from("x"))), State::Idle);
    assert_eq!(
        process_state(State::Processing { progress: 100 }),
        State::Complete
    );
    assert_eq!(
        process_state(State::Processing { progress: 105 }),
        State::Error(String::from("进度超出范围"))
    );
}

#[test]
fn points_are_placed() {
    assert_eq!(analyze_point(&Point { x: 0, y: 0 }), PointKind::Origin);
    assert_eq!(analyze_point(&Point { x: 0, y: 4 }), PointKind::OnYAxis);
    assert_eq!(analyze_point(&Point { x: 4, y: 0 }), PointKind::OnXAxis);
    assert_eq!(analyze_point(&Point { x: -3, y: -3 }), PointKind::OnDiagonal);
    assert_eq!(analyze_point(&Point { x: 1, y: 2 }), PointKind::Elsewhere);
}
