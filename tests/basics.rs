use rust_learning::basics::control_flow::{classify_number, factorial, fizz_buzz_word, FizzBuzz};
use rust_learning::basics::functions;
use rust_learning::basics::functions::{add, fibonacci, Rectangle};

#[test]
fn test_classify_number() {
    assert_eq!(classify_number(-5), "负数");
    assert_eq!(classify_number(0), "零");
    assert_eq!(classify_number(5), "小正数");
    assert_eq!(classify_number(50), "中等正数");
    assert_eq!(classify_number(150), "大正数");
}

#[test]
fn control_flow_test_factorial() {
    assert_eq!(factorial(0), 1);
    assert_eq!(factorial(1), 1);
    assert_eq!(factorial(5), 120);
}

#[test]
fn test_control_flow() {
    let result = if true { 1 } else { 0 };
    assert_eq!(result, 1);

    let x = 5;
    let result = match x {
        1..=5 => "小数",
        _ => "大数",
    };
    assert_eq!(result, "小数");
}

#[test]
fn test_loop_break_value() {
    let mut counter = 0;
    let result = loop {
        counter += 1;
        if counter == 3 {
            break counter * 10;
        }
    };
    assert_eq!(result, 30);
}

#[test]
fn test_add() {
    assert_eq!(add(2, 3), 5);
    assert_eq!(add(-1, 1), 0);
}

#[test]
fn functions_test_factorial() {
    assert_eq!(functions::factorial(0), 1);
    assert_eq!(functions::factorial(1), 1);
    assert_eq!(functions::factorial(5), 120);
}

#[test]
fn functions_test_fibonacci() {
    assert_eq!(fibonacci(0), 0);
    assert_eq!(fibonacci(1), 1);
    assert_eq!(fibonacci(10), 55);
}

#[test]
fn test_rectangle() {
    let rect = Rectangle { width: 3, height: 4 };
    assert_eq!(rect.area(), 12);
    assert_eq!(rect.perimeter(), 14);
}

#[test]
fn test_variables() {
    let x = 5;
    assert_eq!(x, 5);

    #[allow(unused_assignments)]
    let mut y = 10;
    y = 15;
    assert_eq!(y, 15);
}

#[test]
fn test_shadowing() {
    let x = 5;
    let x = x + 1;
    let x = x * 2;
    assert_eq!(x, 12);
}

#[test]
fn classify_number_band_edges() {
    assert_eq!(classify_number(-1), "负数");
    assert_eq!(classify_number(1), "小正数");
    assert_eq!(classify_number(10), "小正数");
    assert_eq!(classify_number(11), "中等正数");
    assert_eq!(classify_number(100), "中等正数");
    assert_eq!(classify_number(101), "大正数");
}

#[test]
fn factorial_largest_that_fits() {
    assert_eq!(factorial(12), 479001600);
    assert_eq!(functions::factorial(12), 479001600);
}

#[test]
fn fibonacci_larger_value() {
    assert_eq!(fibonacci(20), 6765);
}

#[test]
fn plain_arithmetic_helpers() {
    assert_eq!(functions::multiply(-4, 6), -24);
    assert_eq!(functions::add_and_subtract(7, 10), (17, -3));
    assert_eq!(functions::absolute_value(-9), 9);
    assert_eq!(functions::absolute_value(9), 9);
    assert_eq!(functions::double(21), 42);
    assert_eq!(functions::apply_to_all(vec![1, -2, 3], functions::double), vec![2, -4, 6]);
}

#[test]
fn fizz_buzz_words() {
    assert_eq!(fizz_buzz_word(15), FizzBuzz::FizzBuzz);
    assert_eq!(fizz_buzz_word(9), FizzBuzz::Fizz);
    assert_eq!(fizz_buzz_word(10), FizzBuzz::Buzz);
    assert_eq!(fizz_buzz_word(7), FizzBuzz::Number(7));
    assert_eq!(fizz_buzz_word(0), FizzBuzz::FizzBuzz);
}
