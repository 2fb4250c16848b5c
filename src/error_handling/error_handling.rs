//! Errors with context, custom error types and checked division.
use crate::text::{contains_char, decimal_int, decimal_nat, parse_i32, parse_u32, parses_i32, parses_u32};
use std::num::ParseIntError;
use vstd::prelude::*;
use vstd::string::StringExecFns;

verus! {

/// Why a division could not be carried out.
#[derive(Debug, Clone, Copy, PartialEq, Eq, Structural)]
pub enum DivisionError {
    DivisionByZero,
    InvalidInput,
}

impl DivisionError {
    /// The message shown to a user.
    pub fn message(&self) -> (r: String)
        ensures
            *self == DivisionError::DivisionByZero ==> r@ == "除数不能为零"@,
            *self == DivisionError::InvalidInput ==> r@ == "输入无效"@,
    {
        match self {
            DivisionError::DivisionByZero => String::from_str("除数不能为零"),
            DivisionError::InvalidInput => String::from_str("输入无效"),
        }
    }
}

/// A user record checked on entry.
#[derive(Debug)]
pub struct User {
    pub age: u32,
    pub email: String,
}

/// Why user data was refused.
#[derive(Debug)]
pub enum UserError {
    InvalidAge(ParseIntError),
    InvalidEmail(String),
}

impl UserError {
    /// The message shown to a user; for a bad address it names the address.
    pub fn message(&self) -> (r: String)
        ensures
            self matches UserError::InvalidEmail(e) ==> r@ == "邮箱格式错误: "@ + e@,
            self is InvalidAge ==> r@.len() >= "年龄解析错误: "@.len() && r@.subrange(
                0,
                "年龄解析错误: "@.len() as int,
            ) == "年龄解析错误: "@,
    {
        match self {
            UserError::InvalidAge(e) => {
                let detail = e.to_string();
                let r = String::from_str("年龄解析错误: ").concat(detail.as_str());
                assert(r@.subrange(0, "年龄解析错误: "@.len() as int) =~= "年龄解析错误: "@);
                r
            },
            UserError::InvalidEmail(email) => String::from_str("邮箱格式错误: ").concat(
                email.as_str(),
            ),
        }
    }
}

/// The decimal integer in `s`, doubled.
pub fn parse_and_double(s: &str) -> (r: Result<i32, ParseIntError>)
    requires
        parses_i32(s@) ==> i32::MIN <= 2 * decimal_int(s@)->0 <= i32::MAX,
    ensures
        r is Ok <==> parses_i32(s@),
        r matches Ok(v) ==> decimal_int(s@) == Some(v / 2) && v % 2 == 0,
{
    let number = parse_i32(s)?;
    Ok(number * 2)
}

/// The first and the last number, for slices with at least two numbers.
pub fn get_first_and_last(slice: &[i32]) -> (r: Option<(i32, i32)>)
    ensures
        r is Some <==> slice@.len() > 1,
        r matches Some(p) ==> p.0 == slice@[0] && p.1 == slice@.last(),
{
    if slice.len() > 1 {
        Some((slice[0], slice[slice.len() - 1]))
    } else {
        None
    }
}

/// Checks an age and an address: the age must be a decimal `u32`, and the
/// address must contain `@`. The age is checked first.
pub fn process_user_data(age_str: &str, email: &str) -> (r: Result<User, UserError>)
    ensures
        r is Ok <==> parses_u32(age_str@) && email@.contains('@'),
        !parses_u32(age_str@) ==> r matches Err(UserError::InvalidAge(_)),
        parses_u32(age_str@) && !email@.contains('@') ==> (r matches Err(UserError::InvalidEmail(
            e,
        )) && e@ == email@),
        r matches Ok(u) ==> decimal_nat(age_str@) == Some(u.age as nat) && u.email@ == email@,
{
    let age = match parse_u32(age_str) {
        Ok(a) => a,
        Err(e) => return Err(UserError::InvalidAge(e)),
    };
    if !contains_char(email, '@') {
        return Err(UserError::InvalidEmail(String::from_str(email)));
    }
    Ok(User { age, email: String::from_str(email) })
}

/// Accepts an address that contains both `@` and `.`.
pub fn validate_email(email: &str) -> (r: Result<&str, String>)
    ensures
        r is Ok <==> email@.contains('@') && email@.contains('.'),
        r matches Ok(e) ==> e@ == email@,
        r matches Err(m) ==> m@ == "无效的邮箱格式: "@ + email@,
{
    if contains_char(email, '@') && contains_char(email, '.') {
        Ok(email)
    } else {
        Err(String::from_str("无效的邮箱格式: ").concat(email))
    }
}

/// A low-level step that always fails.
pub fn low_level_operation() -> (r: Result<i32, &'static str>)
    ensures
        r matches Err(e) && e@ == "低级操作失败"@,
{
    Err("低级操作失败")
}

/// Doubles the low-level result, or wraps its error with context.
pub fn mid_level_operation() -> (r: Result<i32, String>)
    ensures
        r matches Err(e) && e@ == "中级操作失败，原因: "@ + "低级操作失败"@,
{
    match low_level_operation() {
        Ok(value) => Ok(value * 2),
        Err(e) => Err(String::from_str("中级操作失败，原因: ").concat(e)),
    }
}

/// Reports the mid-level result, or wraps its error with more context.
pub fn high_level_operation() -> (r: Result<String, String>)
    ensures
        r matches Err(e) && e@ == "高级操作失败，原因: "@ + "中级操作失败，原因: "@ + "低级操作失败"@,
{
    match mid_level_operation() {
        Ok(value) => {
            let shown = value.to_string();
            Ok(String::from_str("高级操作成功，结果: ").concat(shown.as_str()))
        },
        Err(e) => {
            let r = String::from_str("高级操作失败，原因: ").concat(e.as_str());
            assert(r@ =~= "高级操作失败，原因: "@ + "中级操作失败，原因: "@ + "低级操作失败"@);
            Err(r)
        },
    }
}

/// `dividend / divisor` rounded toward zero, or `None` when `divisor` is 0.
pub fn safe_division(dividend: i32, divisor: i32) -> (r: Option<i32>)
    requires
        !(dividend == i32::MIN && divisor == -1),
    ensures
        r is None <==> divisor == 0,
        r matches Some(q) ==> q == trunc_div(dividend as int, divisor as int),
{
    if divisor == 0 {
        None
    } else {
        Some(divide_toward_zero(dividend, divisor))
    }
}

/// `a / b` rounded toward zero.
pub fn divide_toward_zero(a: i32, b: i32) -> (r: i32)
    requires
        b != 0,
        !(a == i32::MIN && b == -1),
    ensures
        r == trunc_div(a as int, b as int),
{
    let ua: u32 = if a < 0 {
        (-(a as i64)) as u32
    } else {
        a as u32
    };
    let ub: u32 = if b < 0 {
        (-(b as i64)) as u32
    } else {
        b as u32
    };
    let q: u32 = ua / ub;
    assert(q <= ua) by (nonlinear_arith)
        requires
            ub >= 1,
            q == ua / ub,
    ;
    if (a < 0) != (b < 0) {
        -(q as i64) as i32
    } else {
        if a == i32::MIN {
            assert(ub >= 2);
            assert(q <= ua / 2) by (nonlinear_arith)
                requires
                    ub >= 2,
                    q == ua / ub,
            ;
        }
        q as i32
    }
}

/// Integer division rounded toward zero, as Rust's `/` does.
pub open spec fn trunc_div(a: int, b: int) -> int {
    let q = abs(a) / abs(b);
    if (a < 0) != (b < 0) {
        -q
    } else {
        q
    }
}

/// `|a|`.
pub open spec fn abs(a: int) -> int {
    if a < 0 {
        -a
    } else {
        a
    }
}

} // verus!
