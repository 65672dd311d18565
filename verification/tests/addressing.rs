use rynx_browser::line::{Line, Style, StyledSpan};
use rynx_browser::links::{autoscroll, hit_test, next_link_index, previous_link_index};
use rynx_browser::models::{LinkRegion, Selection};
use rynx_browser::search::search_lines;
use rynx_browser::text::u64_to_string;

fn plain_line(text: &str) -> Line {
    Line { spans: vec![StyledSpan { text: text.to_string(), style: Style::plain() }] }
}

/// A selection over a multi-byte character extracts exactly that
/// character, never a byte fragment.
#[test]
fn test_utf8_selection_extraction() {
    let content = vec![plain_line("Hello 🦀 World")];
    let selection = Selection { start_line: 0, start_char: 6, end_line: 0, end_char: 7 };
    let extracted = selection.extract_text(&content);
    assert_eq!(extracted, "🦀");
}

/// A selection spanning lines joins the fragments with single line
/// feeds and no trailing one.
#[test]
fn test_selection_multiline() {
    let content = vec![plain_line("first"), plain_line("second"), plain_line("third")];
    let selection = Selection { start_line: 0, start_char: 2, end_line: 2, end_char: 3 };
    assert_eq!(selection.extract_text(&content), "rst\nsecond\nthi");
}

/// Endpoints are normalized: the anchor may come after the cursor.
#[test]
fn test_selection_reversed_endpoints() {
    let content = vec![plain_line("abcdef")];
    let selection = Selection { start_line: 0, start_char: 5, end_line: 0, end_char: 1 };
    assert_eq!(selection.extract_text(&content), "bcde");
}

/// A stale selection past the buffer yields an empty string, and char
/// indexes past a line's end clamp to it.
#[test]
fn test_selection_out_of_range() {
    let content = vec![plain_line("ab")];
    let past = Selection { start_line: 5, start_char: 0, end_line: 6, end_char: 1 };
    assert_eq!(past.extract_text(&content), "");
    let clamped = Selection { start_line: 0, start_char: 1, end_line: 0, end_char: 99 };
    assert_eq!(clamped.extract_text(&content), "b");
}

/// The documented scan policy: matches of "aa" in "aaaa" are [0,2) and
/// [2,4), never the overlapping [1,3).
#[test]
fn test_search_non_overlap() {
    let content = vec![plain_line("aaaa")];
    let matches = search_lines(&content, "aa");
    assert_eq!(matches.len(), 2);
    assert_eq!((matches[0].start_char, matches[0].end_char), (0, 2));
    assert_eq!((matches[1].start_char, matches[1].end_char), (2, 4));
}

/// Search walks every line, is case-sensitive, and an empty query has
/// no matches.
#[test]
fn test_search_lines_and_case() {
    let content = vec![plain_line("Rust and rust"), plain_line("more rust")];
    let matches = search_lines(&content, "rust");
    assert_eq!(matches.len(), 2);
    assert_eq!(matches[0].line_index, 0);
    assert_eq!(matches[0].start_char, 9);
    assert_eq!(matches[1].line_index, 1);
    assert_eq!(matches[1].start_char, 5);
    assert_eq!(search_lines(&content, "").len(), 0);
}

/// Cyclic link navigation: with three links, next from the last wraps
/// to the first and previous from the first wraps to the last.
#[test]
fn test_cyclic_navigation() {
    assert_eq!(next_link_index(2, 3), 0);
    assert_eq!(previous_link_index(0, 3), 2);
    assert_eq!(next_link_index(0, 3), 1);
    assert_eq!(previous_link_index(2, 3), 1);
    assert_eq!(next_link_index(7, 0), 7);
    assert_eq!(previous_link_index(7, 0), 7);
}

/// Hit testing finds the first region whose column range contains the
/// point, and misses outside it.
#[test]
fn test_hit_test() {
    let regions = vec![
        LinkRegion { url: "/a".to_string(), line_index: 1, x_start: 2, x_end: 5 },
        LinkRegion { url: "/b".to_string(), line_index: 1, x_start: 7, x_end: 9 },
    ];
    assert_eq!(hit_test(&regions, 1, 2), Some(0));
    assert_eq!(hit_test(&regions, 1, 4), Some(0));
    assert_eq!(hit_test(&regions, 1, 5), None);
    assert_eq!(hit_test(&regions, 1, 8), Some(1));
    assert_eq!(hit_test(&regions, 0, 3), None);
}

/// Autoscroll: jump up to a line above the window, land a line below it
/// on the last visible row, leave a visible line alone.
#[test]
fn test_autoscroll() {
    assert_eq!(autoscroll(3, 10, 5), 3);
    assert_eq!(autoscroll(20, 10, 5), 16);
    assert_eq!(autoscroll(12, 10, 5), 10);
}

/// Decimal formatting of byte counters.
#[test]
fn test_u64_to_string() {
    assert_eq!(u64_to_string(0), "0");
    assert_eq!(u64_to_string(7), "7");
    assert_eq!(u64_to_string(12345), "12345");
    assert_eq!(u64_to_string(u64::MAX), "18446744073709551615");
}

/// The viewport slice: scroll offset and height clamp to the buffer.
#[test]
fn test_visible_lines() {
    let content = vec![plain_line("a"), plain_line("b"), plain_line("c")];
    let seen = rynx_browser::line::visible_lines(&content, 1, 5);
    assert_eq!(seen.len(), 2);
    assert_eq!(seen[0].text_string(), "b");
    assert_eq!(seen[1].text_string(), "c");
    let none = rynx_browser::line::visible_lines(&content, 9, 5);
    assert_eq!(none.len(), 0);
}
