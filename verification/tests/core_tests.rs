use sdkwork_games::paging::{page_number, pagination_within_bounds, query_limit, query_offset, take_page};
use sdkwork_games::sorting::{compare_keys, compare_text, stable_sort_order, SortPart, SortValue};
use sdkwork_games::text::{contains_text, is_blank, is_blank_opt, push_decimal, trim_text};

fn text(s: &str, descending: bool) -> SortPart {
    SortPart { value: SortValue::Text(s.into()), descending }
}

fn number(n: i64, descending: bool) -> SortPart {
    SortPart { value: SortValue::Number(n), descending }
}

#[test]
fn stable_sort_keeps_equal_keys_in_order() {
    let keys = vec![vec![number(2, false)], vec![number(1, false)], vec![number(2, false)], vec![number(0, false)]];
    assert_eq!(stable_sort_order(&keys), vec![3, 1, 0, 2]);
}

#[test]
fn descending_parts_reverse_the_order() {
    let keys = vec![
        vec![number(10, true), text("b", false)],
        vec![number(30, true), text("a", false)],
        vec![number(10, true), text("a", false)],
    ];
    assert_eq!(stable_sort_order(&keys), vec![1, 2, 0]);
}

#[test]
fn texts_compare_by_code_point_with_prefixes_first() {
    assert_eq!(compare_text("abc", "abd"), -1);
    assert_eq!(compare_text("abc", "ab"), 1);
    assert_eq!(compare_text("", ""), 0);
    assert_eq!(compare_text("Z", "a"), -1);
    assert_eq!(compare_keys(&vec![number(1, false)], &vec![number(1, false), number(0, false)]), -1);
}

#[test]
fn pages_are_clamped_and_windowed() {
    assert_eq!(query_limit(None), 20);
    assert_eq!(query_limit(Some(0)), 1);
    assert_eq!(query_limit(Some(500)), 200);
    assert_eq!(query_offset(Some(3), Some(10)), 20);
    assert_eq!(query_offset(Some(0), Some(10)), 0);
    assert!(pagination_within_bounds(None, None));
    assert!(!pagination_within_bounds(Some(0), None));
    assert!(!pagination_within_bounds(None, Some(201)));
    assert_eq!(page_number(40, 20), 3);
    assert_eq!(take_page(vec![1, 2, 3, 4, 5], 1, 2), vec![2, 3]);
    assert_eq!(take_page(vec![1, 2, 3], 5, 2), Vec::<i32>::new());
    assert_eq!(take_page(vec![1, 2, 3], 2, 9), vec![3]);
}

#[test]
fn blank_and_trim_follow_unicode_white_space() {
    assert!(is_blank(""));
    assert!(is_blank(" \t\u{3000}"));
    assert!(!is_blank(" x "));
    assert!(is_blank_opt(&None));
    assert!(is_blank_opt(&Some("  ".into())));
    assert_eq!(trim_text("\u{2003} chess \n"), "chess");
    assert!(contains_text("chinese chess", "se ch"));
    assert!(!contains_text("chess", "chesss"));
    assert!(contains_text("chess", ""));
}

#[test]
fn decimals_are_written_without_leading_zeros() {
    let mut out = String::from("$");
    push_decimal(&mut out, 0);
    push_decimal(&mut out, 1207);
    assert_eq!(out, "$01207");
}

#[test]
fn whitespace_agrees_with_std_on_every_character() {
    for code in 0u32..=0x10FFFF {
        if let Some(c) = char::from_u32(code) {
            assert_eq!(sdkwork_games::text::char_is_whitespace(c), c.is_whitespace(), "U+{code:04X}");
        }
    }
    assert!(!sdkwork_games::text::is_blank("100001"));
    assert!(sdkwork_games::text::is_blank("\u{3000}\t\u{2028} "));
}
