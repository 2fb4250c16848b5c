use rust_learning::ownership::ownership::{
    calculate_length_with_ownership, gives_ownership, takes_and_gives_back,
};
use rust_learning::ownership::references;
use rust_learning::ownership::references::{
    calculate_length, change, compare_strings, longest_string, make_uppercase, StringHolder,
};
use rust_learning::ownership::slices;
use rust_learning::ownership::slices::{
    contains_word, count_words, find_max, find_subslice, reverse_slice, safe_substring,
    sort_slice, sum_slice, swap_elements,
};
use std::cmp::Ordering;

#[test]
fn test_move_semantics() {
    let s1 = String::from("test");
    let s2 = s1;
    assert_eq!(s2, "test");
}

#[test]
fn test_copy_semantics() {
    let x = 5;
    let y = x;
    assert_eq!(x, 5);
    assert_eq!(y, 5);
}

#[test]
fn test_clone() {
    let s1 = String::from("test");
    let s2 = s1.clone();
    assert_eq!(s1, "test");
    assert_eq!(s2, "test");
}

#[test]
fn test_basic_references() {
    let s = String::from("hello");
    let len = calculate_length(&s);

    assert_eq!(len, 5);
    assert_eq!(s, "hello");
}

#[test]
fn test_mutable_references() {
    let mut s = String::from("hello");
    change(&mut s);

    assert_eq!(s, "hello, world");
}

#[test]
fn references_test_first_word() {
    let s = String::from("hello world");
    let word = references::first_word(&s);

    assert_eq!(word, "hello");

    let s2 = String::from("hello");
    let word2 = references::first_word(&s2);
    assert_eq!(word2, "hello");
}

#[test]
fn test_longest_string() {
    assert_eq!(longest_string("hello", "world"), "world");
    assert_eq!(longest_string("rust", "go"), "rust");
}

#[test]
fn test_string_holder() {
    let s = "hello, world";
    let holder = StringHolder::new(s);

    assert_eq!(holder.get_content(), "hello, world");
    assert_eq!(holder.get_length(), 12);
}

#[test]
fn test_multiple_immutable_references() {
    let s = String::from("hello");
    let r1 = &s;
    let r2 = &s;

    assert_eq!(r1, "hello");
    assert_eq!(r2, "hello");
    assert_eq!(r1, r2);
}

#[test]
fn test_reference_scope() {
    let mut s = String::from("hello");

    let r1 = &s;
    let r2 = &s;
    assert_eq!(r1, r2);

    let r3 = &mut s;
    r3.push_str(" world");
    assert_eq!(r3, "hello world");
}

#[test]
fn slices_test_first_word() {
    assert_eq!(slices::first_word("hello world"), "hello");
    assert_eq!(slices::first_word("hello"), "hello");
    assert_eq!(slices::first_word(""), "");
}

#[test]
fn test_count_words() {
    assert_eq!(count_words("hello world"), 2);
    assert_eq!(count_words("one"), 1);
    assert_eq!(count_words(""), 0);
    assert_eq!(count_words("  multiple   spaces  "), 2);
}

#[test]
fn test_contains_word() {
    assert!(contains_word("hello world", "hello"));
    assert!(contains_word("hello world", "world"));
    assert!(!contains_word("hello world", "rust"));
}

#[test]
fn test_sum_slice() {
    assert_eq!(sum_slice(&[1, 2, 3, 4, 5]), 15);
    assert_eq!(sum_slice(&[]), 0);
    assert_eq!(sum_slice(&[10]), 10);
}

#[test]
fn test_find_max() {
    assert_eq!(find_max(&[1, 5, 3, 9, 2]), Some(9));
    assert_eq!(find_max(&[]), None);
    assert_eq!(find_max(&[42]), Some(42));
}

#[test]
fn test_sort_slice() {
    let mut arr = [3, 1, 4, 1, 5];
    sort_slice(&mut arr);
    assert_eq!(arr, [1, 1, 3, 4, 5]);
}

#[test]
fn test_swap_elements() {
    let mut arr = [1, 2, 3, 4, 5];
    swap_elements(&mut arr, 0, 4);
    assert_eq!(arr, [5, 2, 3, 4, 1]);
}

#[test]
fn test_safe_substring() {
    let s = "hello";
    assert_eq!(safe_substring(s, 0, 2), Some("he"));
    assert_eq!(safe_substring(s, 1, 3), Some("ell"));
    assert_eq!(safe_substring(s, 0, 10), None);
    assert_eq!(safe_substring(s, 10, 1), None);
}

#[test]
fn test_reverse_slice() {
    let mut arr = [1, 2, 3, 4, 5];
    reverse_slice(&mut arr);
    assert_eq!(arr, [5, 4, 3, 2, 1]);
}

#[test]
fn test_find_subslice() {
    let haystack = [1, 2, 3, 4, 5, 6];
    assert_eq!(find_subslice(&haystack, &[3, 4]), Some(2));
    assert_eq!(find_subslice(&haystack, &[5, 6]), Some(4));
    assert_eq!(find_subslice(&haystack, &[7, 8]), None);
}

#[test]
fn test_string_slices() {
    let s = String::from("hello world");
    assert_eq!(&s[0..5], "hello");
    assert_eq!(&s[6..], "world");
    assert_eq!(&s[..], "hello world");
}

#[test]
fn test_array_slices() {
    let arr = [1, 2, 3, 4, 5];
    assert_eq!(&arr[1..4], &[2, 3, 4]);
    assert_eq!(&arr[..3], &[1, 2, 3]);
    assert_eq!(&arr[3..], &[4, 5]);
}

#[test]
fn ownership_round_trips() {
    assert_eq!(gives_ownership(), "hello");
    assert_eq!(takes_and_gives_back(String::from("kept")), "kept");
    let (s, n) = calculate_length_with_ownership(String::from("héllo"));
    assert_eq!(s, "héllo");
    assert_eq!(n, 6);
}

#[test]
fn uppercase_replaces_the_text() {
    let mut s = String::from("hello, Rust");
    make_uppercase(&mut s);
    assert_eq!(s, "HELLO, RUST");
}

#[test]
fn strings_compare_by_characters() {
    let a = String::from("apple");
    let b = String::from("banana");
    let c = String::from("app");
    assert_eq!(compare_strings(&a, &b), Ordering::Less);
    assert_eq!(compare_strings(&b, &a), Ordering::Greater);
    assert_eq!(compare_strings(&a, &a.clone()), Ordering::Equal);
    assert_eq!(compare_strings(&c, &a), Ordering::Less);
}

#[test]
fn words_around_other_whitespace() {
    assert_eq!(count_words("tab\tseparated\nlines"), 3);
    assert!(contains_word("  one two  ", "two"));
    assert!(!contains_word("one two", "on"));
    assert!(!contains_word("one two", ""));
}

#[test]
fn longest_string_prefers_the_second_on_a_tie() {
    assert_eq!(longest_string("abc", "xyz"), "xyz");
}

#[test]
fn swap_out_of_range_changes_nothing() {
    let mut arr = [1, 2, 3];
    swap_elements(&mut arr, 0, 3);
    assert_eq!(arr, [1, 2, 3]);
}

#[test]
fn subslice_longer_than_haystack() {
    assert_eq!(find_subslice(&[1, 2], &[1, 2, 3]), None);
    assert_eq!(find_subslice(&[1, 2, 1, 2], &[1, 2]), Some(0));
}

#[test]
fn substring_counts_characters() {
    assert_eq!(safe_substring("héllo", 1, 3), Some("éll"));
    assert_eq!(safe_substring("hello", 5, 0), Some(""));
}
