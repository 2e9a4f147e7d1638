use zeroclaw::text::{blank, text_precedes};

#[test]
fn text_order_is_that_of_std() {
    let samples = ["", "a", "ab", "b", "B", "2026-01-02", "2026-01-02T10", "é", "z", "\u{10000}", "\u{ffff}"];
    for a in samples {
        for b in samples {
            assert_eq!(text_precedes(a, b), a < b);
        }
    }
}

#[test]
fn blank_is_white_space_throughout() {
    for c in '\0'..=char::MAX {
        assert_eq!(blank(&c.to_string()), c.is_whitespace());
    }
    assert!(blank(""));
    assert!(blank(" \u{85}\u{a0}\u{1680}\u{2028}\u{205f}\u{3000}"));
    assert!(!blank(" x "));
    assert!(!blank("\u{200b}"));
}
