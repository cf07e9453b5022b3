use vexus_lite::capacity::{grown_capacity, tight};
use vexus_lite::text_search::{
    context_window, flag_of, gather, pattern_text, DEFAULT_MAX_RESULTS, MAX_FILE_SIZE,
};
use vexus_lite::default_context;

#[test]
fn growth_is_half_as_much_again_rounded_up() {
    assert_eq!(grown_capacity(0, 0), 0);
    assert_eq!(grown_capacity(1, 0), 2);
    assert_eq!(grown_capacity(2, 0), 3);
    assert_eq!(grown_capacity(3, 0), 5);
    assert_eq!(grown_capacity(4, 0), 6);
    assert_eq!(grown_capacity(1000, 0), 1500);
    assert_eq!(grown_capacity(1001, 0), 1502);
    assert_eq!(grown_capacity(3, 4), 11);
    assert_eq!(grown_capacity(0, 5), 8);
}

#[test]
fn growth_stops_at_the_largest_number() {
    assert_eq!(grown_capacity(usize::MAX, 0), usize::MAX);
    assert_eq!(grown_capacity(usize::MAX, usize::MAX), usize::MAX);
    assert_eq!(grown_capacity(usize::MAX / 3 * 2 + 2, 0), usize::MAX);
    assert_eq!(grown_capacity(usize::MAX / 3 * 2, 0), usize::MAX);
    assert_eq!(grown_capacity(usize::MAX / 3 * 2 - 1, 0), usize::MAX - 1);
}

#[test]
fn a_store_is_tight_one_slot_early() {
    assert!(tight(0, 1, 0));
    assert!(tight(0, 1, 1));
    assert!(!tight(0, 1, 2));
    assert!(!tight(2, 1, 4));
    assert!(tight(3, 1, 4));
    assert!(tight(4, 1, 4));
    assert!(tight(0, 0, 0));
    assert!(!tight(0, 0, 1));
    assert!(tight(2, 3, 5));
    assert!(!tight(2, 3, 6));
    assert!(tight(usize::MAX, usize::MAX, usize::MAX));
}

#[test]
fn two_lines_of_context_where_none_is_asked_for() {
    assert_eq!(default_context(), 2);
}

#[test]
fn context_ends_where_the_text_does() {
    assert_eq!(context_window(5, 2, 10), (3, 8));
    assert_eq!(context_window(0, 2, 10), (0, 3));
    assert_eq!(context_window(1, 2, 10), (0, 4));
    assert_eq!(context_window(9, 2, 10), (7, 10));
    assert_eq!(context_window(8, 2, 10), (6, 10));
    assert_eq!(context_window(0, 0, 1), (0, 1));
    assert_eq!(context_window(4, 0, 10), (4, 5));
    assert_eq!(context_window(4, usize::MAX, 10), (0, 10));
}

#[test]
fn matches_are_gathered_up_to_the_limit() {
    let mut held = vec![1, 2];
    assert!(!gather(&mut held, vec![3, 4], 10));
    assert_eq!(held, vec![1, 2, 3, 4]);
    assert!(gather(&mut held, vec![5, 6, 7], 6));
    assert_eq!(held, vec![1, 2, 3, 4, 5, 6]);
    let mut exact = vec![1];
    assert!(gather(&mut exact, vec![2, 3], 3));
    assert_eq!(exact, vec![1, 2, 3]);
}

#[test]
fn nothing_found_never_ends_the_search() {
    let mut held = vec![1, 2, 3];
    assert!(!gather(&mut held, Vec::new(), 3));
    assert!(!gather(&mut held, Vec::new(), 0));
    assert_eq!(held, vec![1, 2, 3]);
}

#[test]
fn one_match_is_taken_even_past_the_limit() {
    let mut held: Vec<u8> = Vec::new();
    assert!(gather(&mut held, vec![7, 8, 9], 0));
    assert_eq!(held, vec![7]);
    let mut over = vec![1, 2, 3];
    assert!(gather(&mut over, vec![4, 5], 2));
    assert_eq!(over, vec![1, 2, 3, 4]);
}

#[test]
fn the_pattern_for_a_query() {
    assert_eq!(pattern_text("a.b", "a\\.b", false, true), "a.b");
    assert_eq!(pattern_text("a.b", "a\\.b", false, false), "(?i)a.b");
    assert_eq!(pattern_text("a.b", "a\\.b", true, true), "\\ba\\.b\\b");
    assert_eq!(pattern_text("a.b", "a\\.b", true, false), "(?i)\\ba\\.b\\b");
    assert_eq!(pattern_text("", "", true, false), "(?i)\\b\\b");
}

#[test]
fn a_switch_is_read_from_four_words() {
    assert_eq!(flag_of("true"), Some(true));
    assert_eq!(flag_of("1"), Some(true));
    assert_eq!(flag_of("false"), Some(false));
    assert_eq!(flag_of("0"), Some(false));
    for other in ["", "True", "yes", "no", "10", "true ", "2"] {
        assert_eq!(flag_of(other), None);
    }
}

#[test]
fn the_bounds_of_a_search() {
    assert_eq!(MAX_FILE_SIZE, 1_048_576);
    assert_eq!(DEFAULT_MAX_RESULTS, 100);
}
