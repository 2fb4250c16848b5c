//! Combining fallible steps: sums, divisions, configuration lines and lookups.
use crate::error_handling::error_handling::{divide_toward_zero, trunc_div};
use crate::text::{decimal_int, decimal_nat, parse_i32, parse_u16, parses_i32, parses_u16, same_text};
use std::num::ParseIntError;
use vstd::prelude::*;
use vstd::string::{StrSliceExecFns, StringExecFns};

verus! {

/// The sum of the numbers that the first `k` strings write, or `None` if one
/// of them is not a decimal `i32`.
pub open spec fn parsed_sum(ss: Seq<&str>, k: int) -> Option<int>
    decreases k,
{
    if k <= 0 {
        Some(0)
    } else {
        match parsed_sum(ss, k - 1) {
            Some(t) => if parses_i32(ss[k - 1]@) {
                Some(t + decimal_int(ss[k - 1]@)->0)
            } else {
                None
            },
            None => None,
        }
    }
}

/// Whether `p` is a prefix of `s`.
pub open spec fn starts_with(s: Seq<char>, p: Seq<char>) -> bool {
    p.len() <= s.len() && s.subrange(0, p.len() as int) == p
}

/// Whether `p` occurs somewhere in `s` as a contiguous run.
pub open spec fn occurs_in(s: Seq<char>, p: Seq<char>) -> bool {
    exists|i: int| 0 <= i && i + p.len() <= s.len() && #[trigger] s.subrange(i, i + p.len()) == p
}

/// A server configuration.
#[derive(Debug)]
pub struct Config {
    pub port: u16,
    pub host: String,
    pub debug: bool,
}

/// The position of the one `=` in `line`, or `None` if it has none or
/// several.
pub open spec fn sole_eq(line: Seq<char>) -> Option<int> {
    if exists|p: int| is_sole_eq(line, p) {
        Some(choose|p: int| is_sole_eq(line, p))
    } else {
        None
    }
}

/// `line[p]` is `=` and no other character of `line` is.
pub open spec fn is_sole_eq(line: Seq<char>, p: int) -> bool {
    0 <= p < line.len() && line[p] == '=' && forall|q: int|
        0 <= q < line.len() && q != p ==> line[q] != '='
}

/// The text left of the `=` of a `key=value` line.
pub open spec fn line_key(line: Seq<char>) -> Seq<char> {
    line.subrange(0, sole_eq(line)->0)
}

/// The text right of the `=` of a `key=value` line.
pub open spec fn line_value(line: Seq<char>) -> Seq<char> {
    line.subrange(sole_eq(line)->0 + 1, line.len() as int)
}

/// What is wrong with one configuration line, if anything: it must be
/// `key=value` with exactly one `=`, the key one of `port`, `host` and
/// `debug`, a port a decimal `u16`, and a debug flag `true` or `false`.
pub open spec fn line_error(line: Seq<char>) -> Option<Seq<char>> {
    if sole_eq(line) is None {
        Some("无效的配置行: "@ + line)
    } else if line_key(line) == "port"@ {
        if parses_u16(line_value(line)) {
            None
        } else {
            Some("无效的端口号: "@ + line_value(line))
        }
    } else if line_key(line) == "host"@ {
        None
    } else if line_key(line) == "debug"@ {
        if line_value(line) == "true"@ || line_value(line) == "false"@ {
            None
        } else {
            Some("无效的布尔值: "@ + line_value(line))
        }
    } else {
        Some("未知的配置项: "@ + line_key(line))
    }
}

/// The error of the first bad line among the first `k`, if any.
pub open spec fn first_error(lines: Seq<&str>, k: int) -> Option<Seq<char>>
    decreases k,
{
    if k <= 0 {
        None
    } else if first_error(lines, k - 1) is Some {
        first_error(lines, k - 1)
    } else {
        line_error(lines[k - 1]@)
    }
}

/// The value of the last line among the first `k` whose key is `key`.
pub open spec fn last_value(lines: Seq<&str>, k: int, key: Seq<char>) -> Option<Seq<char>>
    decreases k,
{
    if k <= 0 {
        None
    } else if sole_eq(lines[k - 1]@) is Some && line_key(lines[k - 1]@) == key {
        Some(line_value(lines[k - 1]@))
    } else {
        last_value(lines, k - 1, key)
    }
}

/// Errors of several kinds behind one type.
#[derive(Debug)]
pub enum MyError {
    ParseError(ParseIntError),
    DivisionByZero,
    NegativeNumber,
}

/// A user found by id.
#[derive(Debug)]
pub struct User {
    pub id: u32,
    pub name: String,
}

/// Parses every string as a decimal `i32` and adds the numbers up; the
/// first string that does not parse ends it with that error.
pub fn parse_numbers_and_sum(strings: &[&str]) -> (r: Result<i32, ParseIntError>)
    requires
        forall|k: int|
            0 <= k <= strings@.len() ==> (#[trigger] parsed_sum(strings@, k) matches Some(t)
                ==> i32::MIN <= t <= i32::MAX),
    ensures
        r is Ok <==> parsed_sum(strings@, strings@.len() as int) is Some,
        r matches Ok(v) ==> parsed_sum(strings@, strings@.len() as int) == Some(v as int),
{
    let mut sum: i32 = 0;
    let mut i: usize = 0;
    while i < strings.len()
        invariant
            i <= strings@.len(),
            parsed_sum(strings@, i as int) == Some(sum as int),
            forall|k: int|
                0 <= k <= strings@.len() ==> (#[trigger] parsed_sum(strings@, k) matches Some(t)
                    ==> i32::MIN <= t <= i32::MAX),
        decreases strings@.len() - i,
    {
        let v = match parse_i32(strings[i]) {
            Ok(v) => v,
            Err(e) => {
                proof {
                    lemma_parsed_sum_stays_none(strings@, i as int + 1, strings@.len() as int);
                }
                return Err(e);
            },
        };
        assert(parsed_sum(strings@, i + 1) == Some(sum + v));
        sum = sum + v;
        i += 1;
    }
    Ok(sum)
}

proof fn lemma_parsed_sum_stays_none(ss: Seq<&str>, j: int, k: int)
    requires
        1 <= j <= k,
        parsed_sum(ss, j) is None,
    ensures
        parsed_sum(ss, k) is None,
    decreases k - j,
{
    if j < k {
        lemma_parsed_sum_stays_none(ss, j + 1, k);
    }
}

/// Parses two decimal `i32`s and divides the first by the second, rounding
/// toward zero. Each failure is reported with a message saying which step
/// failed.
pub fn complex_operation(s1: &str, s2: &str) -> (r: Result<i32, String>)
    requires
        !(decimal_int(s1@) == Some(i32::MIN as int) && decimal_int(s2@) == Some(-1int)),
    ensures
        r is Ok <==> parses_i32(s1@) && parses_i32(s2@) && decimal_int(s2@) != Some(0int),
        r matches Ok(q) ==> q == trunc_div(decimal_int(s1@)->0, decimal_int(s2@)->0),
        !parses_i32(s1@) ==> (r matches Err(m) && starts_with(m@, "解析第一个数字失败: "@)),
        parses_i32(s1@) && !parses_i32(s2@) ==> (r matches Err(m) && starts_with(
            m@,
            "解析第二个数字失败: "@,
        )),
        parses_i32(s1@) && parses_i32(s2@) && decimal_int(s2@) == Some(0int) ==> (r matches Err(m)
            && m@ == "第二个数字不能为零"@),
{
    let num1 = match parse_i32(s1) {
        Ok(v) => v,
        Err(e) => {
            let r = String::from_str("解析第一个数字失败: ").concat(e.to_string().as_str());
            assert(r@.subrange(0, "解析第一个数字失败: "@.len() as int) =~= "解析第一个数字失败: "@);
            return Err(r);
        },
    };
    let num2 = match parse_i32(s2) {
        Ok(v) => v,
        Err(e) => {
            let r = String::from_str("解析第二个数字失败: ").concat(e.to_string().as_str());
            assert(r@.subrange(0, "解析第二个数字失败: "@.len() as int) =~= "解析第二个数字失败: "@);
            return Err(r);
        },
    };
    if num2 == 0 {
        return Err(String::from_str("第二个数字不能为零"));
    }
    Ok(divide_toward_zero(num1, num2))
}

/// Fails with `DivisionByZero` when asked to; otherwise parses `"42"` and
/// returns it, as it is not negative.
pub fn multi_error_function(success: bool) -> (r: Result<i32, MyError>)
    ensures
        !success ==> r matches Err(MyError::DivisionByZero),
        success ==> r == Ok::<i32, MyError>(42),
{
    if !success {
        return Err(MyError::DivisionByZero);
    }
    proof {
        reveal_strlit("42");
        let s = "42"@;
        assert(s =~= seq!['4', '2']);
        assert(s.drop_last() =~= seq!['4']);
        assert(s.drop_last().drop_last() =~= Seq::<char>::empty());
        let t = s.drop_last();
        assert(t.drop_last() =~= Seq::<char>::empty());
        assert(crate::text::digits_value(t.drop_last()) == 0);
        assert(t.last() == '4');
        assert(('4' as nat) - ('0' as nat) == 4);
        assert(crate::text::digits_value(t) == 4);
        assert(crate::text::digits_value(s) == 42);
        assert(crate::text::all_digits(s)) by {
            assert(crate::text::is_digit(s[0]) && crate::text::is_digit(s[1]));
        }
        assert(parses_i32(s));
    }
    let number = match parse_i32("42") {
        Ok(v) => v,
        Err(e) => return Err(MyError::ParseError(e)),
    };
    if number < 0 {
        Err(MyError::NegativeNumber)
    } else {
        Ok(number)
    }
}

/// The position of the one `=` in `line`, if it has exactly one.
fn find_sole_eq(line: &str) -> (r: Option<usize>)
    ensures
        r matches Some(p) ==> sole_eq(line@) == Some(p as int),
        r is None ==> sole_eq(line@) is None,
{
    let n = line.unicode_len();
    let mut p: usize = 0;
    while p < n
        invariant
            n == line@.len(),
            p <= n,
            forall|q: int| 0 <= q < p ==> line@[q] != '=',
        ensures
            p <= n,
            forall|q: int| 0 <= q < p ==> line@[q] != '=',
            p < n ==> line@[p as int] == '=',
        decreases n - p,
    {
        if line.get_char(p) == '=' {
            break;
        }
        p += 1;
    }
    if p == n {
        assert(!exists|x: int| is_sole_eq(line@, x));
        return None;
    }
    assert(line@[p as int] == '=');
    let mut q: usize = p + 1;
    while q < n
        invariant
            n == line@.len(),
            p < q <= n,
            line@[p as int] == '=',
            forall|x: int| 0 <= x < p ==> line@[x] != '=',
            forall|x: int| p < x < q ==> line@[x] != '=',
        decreases n - q,
    {
        if line.get_char(q) == '=' {
            assert(!exists|x: int| is_sole_eq(line@, x)) by {
                if exists|x: int| is_sole_eq(line@, x) {
                    let x = choose|x: int| is_sole_eq(line@, x);
                    if x != p {
                        assert(line@[p as int] != '=');
                    } else {
                        assert(line@[q as int] != '=');
                    }
                }
            }
            return None;
        }
        q += 1;
    }
    assert(is_sole_eq(line@, p as int));
    proof {
        let x = choose|x: int| is_sole_eq(line@, x);
        if x != p {
            assert(line@[p as int] != '=');
        }
    }
    Some(p)
}

/// Reads `key=value` lines into a configuration. The first bad line is
/// reported (see `line_error`); a later line for a key overrides an earlier
/// one; and each of `port`, `host` and `debug` must be given.
pub fn parse_config(lines: &[&str]) -> (r: Result<Config, String>)
    ensures
        first_error(lines@, lines@.len() as int) matches Some(e) ==> (r matches Err(m) && m@ == e),
        first_error(lines@, lines@.len() as int) is None ==> {
            let n = lines@.len() as int;
            let port = last_value(lines@, n, "port"@);
            let host = last_value(lines@, n, "host"@);
            let debug = last_value(lines@, n, "debug"@);
            if port is None {
                r matches Err(m) && m@ == "缺少端口配置"@
            } else if host is None {
                r matches Err(m) && m@ == "缺少主机配置"@
            } else if debug is None {
                r matches Err(m) && m@ == "缺少调试配置"@
            } else {
                r matches Ok(c) && decimal_nat(port->0) == Some(c.port as nat) && c.host@
                    == host->0 && c.debug == (debug->0 == "true"@)
            }
        },
{
    let mut port: Option<u16> = None;
    let mut host: Option<String> = None;
    let mut debug: Option<bool> = None;
    let mut i: usize = 0;
    while i < lines.len()
        invariant
            i <= lines@.len(),
            first_error(lines@, i as int) is None,
            port is None <==> last_value(lines@, i as int, "port"@) is None,
            port matches Some(v) ==> decimal_nat(last_value(lines@, i as int, "port"@)->0) == Some(
                v as nat,
            ),
            host is None <==> last_value(lines@, i as int, "host"@) is None,
            host matches Some(h) ==> h@ == last_value(lines@, i as int, "host"@)->0,
            debug is None <==> last_value(lines@, i as int, "debug"@) is None,
            debug matches Some(d) ==> d == (last_value(lines@, i as int, "debug"@)->0 == "true"@),
            first_error(lines@, i as int) is None ==> forall|k: int|
                0 <= k <= i ==> #[trigger] first_error(lines@, k) is None,
        decreases lines@.len() - i,
    {
        let line = lines[i];
        let ghost li = line@;
        let p = match find_sole_eq(line) {
            Some(p) => p,
            None => {
                proof {
                    lemma_first_error_stays(lines@, i as int + 1, lines@.len() as int);
                }
                return Err(String::from_str("无效的配置行: ").concat(line));
            },
        };
        let n = line.unicode_len();
        let key = line.substring_char(0, p);
        let value = line.substring_char(p + 1, n);
        assert(key@ == line_key(li));
        assert(value@ == line_value(li));
        if same_text(key, "port") {
            match parse_u16(value) {
                Ok(v) => {
                    port = Some(v);
                },
                Err(_) => {
                    proof {
                        lemma_first_error_stays(lines@, i as int + 1, lines@.len() as int);
                    }
                    return Err(String::from_str("无效的端口号: ").concat(value));
                },
            }
        } else if same_text(key, "host") {
            host = Some(String::from_str(value));

        } else if same_text(key, "debug") {
            if same_text(value, "true") {
                debug = Some(true);
            } else if same_text(value, "false") {
                debug = Some(false);
            } else {
                proof {
                    lemma_first_error_stays(lines@, i as int + 1, lines@.len() as int);
                }
                return Err(String::from_str("无效的布尔值: ").concat(value));
            }
        } else {
            proof {
                lemma_first_error_stays(lines@, i as int + 1, lines@.len() as int);
            }
            return Err(String::from_str("未知的配置项: ").concat(key));
        }
        proof {
            reveal_strlit("port");
            reveal_strlit("host");
            reveal_strlit("debug");
            assert("port"@ != "host"@) by {
                assert("port"@[0] != "host"@[0]);
            }
            assert("port"@ != "debug"@) by {
                assert("port"@[0] != "debug"@[0]);
            }
            assert("host"@ != "debug"@) by {
                assert("host"@[0] != "debug"@[0]);
            }
        }
        i += 1;
    }
    let port = match port {
        Some(v) => v,
        None => return Err(String::from_str("缺少端口配置")),
    };
    let host = match host {
        Some(h) => h,
        None => return Err(String::from_str("缺少主机配置")),
    };
    let debug = match debug {
        Some(d) => d,
        None => return Err(String::from_str("缺少调试配置")),
    };
    Ok(Config { port, host, debug })
}

proof fn lemma_first_error_stays(lines: Seq<&str>, j: int, k: int)
    requires
        1 <= j <= k,
        first_error(lines, j) is Some,
    ensures
        first_error(lines, k) == first_error(lines, j),
    decreases k - j,
{
    if j < k {
        lemma_first_error_stays(lines, j + 1, k);
    }
}

/// Looks a user up; only id 123 exists.
pub fn find_user(id: u32) -> (r: Option<User>)
    ensures
        r is Some <==> id == 123,
        r matches Some(u) ==> u.id == id && u.name@ == "张三"@,
{
    if id == 123 {
        Some(User { id, name: String::from_str("张三") })
    } else {
        None
    }
}

/// Whether `s` begins with `p`.
pub fn has_prefix(s: &str, p: &str) -> (r: bool)
    ensures
        r == starts_with(s@, p@),
{
    let n = s.unicode_len();
    let m = p.unicode_len();
    if m > n {
        return false;
    }
    let head = s.substring_char(0, m);
    same_text(head, p)
}

/// Whether `p` occurs in `s`.
pub fn has_infix(s: &str, p: &str) -> (r: bool)
    ensures
        r == occurs_in(s@, p@),
{
    let n = s.unicode_len();
    let m = p.unicode_len();
    if m > n {
        return false;
    }
    if m == 0 {
        assert(s@.subrange(0int, 0int + p@.len()) =~= p@);
        return true;
    }
    let mut i: usize = 0;
    while i <= n - m
        invariant
            n == s@.len(),
            m == p@.len(),
            0 < m <= n,
            i <= n - m + 1,
            forall|j: int| 0 <= j < i ==> #[trigger] s@.subrange(j, j + m) != p@,
        decreases n - m + 1 - i,
    {
        let piece = s.substring_char(i, i + m);
        if same_text(piece, p) {
            return true;
        }
        i += 1;
    }
    false
}

/// Pretends to read a file: names starting with `nonexistent` are missing;
/// any other file yields a line naming it.
pub fn process_file(filename: &str) -> (r: Result<String, String>)
    ensures
        r is Err <==> starts_with(filename@, "nonexistent"@),
        r matches Err(m) ==> m@ == "文件不存在"@,
        r matches Ok(c) ==> c@ == "文件 "@ + filename@ + " 的内容"@,
{
    if has_prefix(filename, "nonexistent") {
        Err(String::from_str("文件不存在"))
    } else {
        Ok(String::from_str("文件 ").concat(filename).concat(" 的内容"))
    }
}

/// Pretends to fetch a URL: one containing `invalid` is refused; any other
/// yields a line naming it.
pub fn fetch_data(url: &str) -> (r: Result<String, String>)
    ensures
        r is Err <==> occurs_in(url@, "invalid"@),
        r matches Err(m) ==> m@ == "无效的 URL"@,
        r matches Ok(c) ==> c@ == "来自 "@ + url@ + " 的数据"@,
{
    if has_infix(url, "invalid") {
        Err(String::from_str("无效的 URL"))
    } else {
        Ok(String::from_str("来自 ").concat(url).concat(" 的数据"))
    }
}

} // verus!
