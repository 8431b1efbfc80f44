use l10n_sync::text::{chars_contain, chars_of, last_position, matches_at};

fn has_substring(hay: &str, pat: &str) -> bool {
    chars_contain(&chars_of(hay), &chars_of(pat))
}

#[test]
fn chars_are_listed_in_order() {
    assert_eq!(chars_of("añb"), vec!['a', 'ñ', 'b']);
    assert_eq!(chars_of(""), Vec::<char>::new());
}

#[test]
fn substring_is_found_anywhere() {
    assert!(has_substring("/t/cat/pkg", "cat"));
    assert!(has_substring("/t/cat/pkg", "/t"));
    assert!(has_substring("/t/cat/pkg", "pkg"));
    assert!(has_substring("/t/cat/pkg", "/t/cat/pkg"));
    assert!(!has_substring("/t/cat/pkg", "cats"));
    assert!(!has_substring("abc", "abcd"));
}

#[test]
fn empty_pattern_is_found_everywhere() {
    assert!(has_substring("abc", ""));
    assert!(has_substring("", ""));
    assert!(!has_substring("", "a"));
}

#[test]
fn substring_after_a_false_start_is_found() {
    assert!(has_substring("aab", "ab"));
    assert!(has_substring("gitgi.git", ".git"));
}

#[test]
fn match_is_tested_at_one_position() {
    let hay = chars_of("abcabc");
    let pat = chars_of("bc");
    assert!(matches_at(&hay, &pat, 1));
    assert!(matches_at(&hay, &pat, 4));
    assert!(!matches_at(&hay, &pat, 0));
    assert!(!matches_at(&hay, &pat, 5));
    assert!(!matches_at(&hay, &pat, 6));
    assert!(!matches_at(&pat, &hay, 0));
    assert!(chars_contain(&hay, &pat));
}

#[test]
fn last_position_is_the_rightmost() {
    assert_eq!(last_position(&chars_of("a.b.c"), '.'), Some(3));
    assert_eq!(last_position(&chars_of(".abc"), '.'), Some(0));
    assert_eq!(last_position(&chars_of("abc"), '.'), None);
    assert_eq!(last_position(&chars_of(""), '.'), None);
}
