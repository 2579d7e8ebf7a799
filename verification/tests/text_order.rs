use ryu_expenses::text::{str_equal, str_less, trim};

#[test]
fn trimming_removes_unicode_white_space_at_both_ends() {
    assert_eq!(trim("  a b \t\n"), "a b");
    assert_eq!(trim("\u{a0}x\u{2003}"), "x");
    assert_eq!(trim("   "), "");
    assert_eq!(trim("é"), "é");
}

#[test]
fn strings_compare_by_their_bytes() {
    assert!(str_less("2026-01-31", "2026-02-01"));
    assert!(!str_less("b", "a"));
    assert!(str_less("a", "ab"));
    assert!(!str_less("a", "a"));
    assert!(str_less("Z", "a"));
    assert!(str_less("z", "é"));
    assert_eq!(str_less("é", "z"), "é" < "z");
    assert!(str_equal("Food", "Food"));
    assert!(!str_equal("Food", "food"));
}

#[test]
fn trimming_twice_is_trimming_once() {
    for s in ["  a  ", "\u{85}b\u{2028}", "", " \t ", "c"] {
        assert_eq!(trim(trim(s)), trim(s));
    }
}
