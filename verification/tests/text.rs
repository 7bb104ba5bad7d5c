use shaobot::text::{chars_of, occurs_between, trim_bounds, white_space};

#[test]
fn white_space_follows_unicode() {
    for c in [' ', '\t', '\n', '\u{3000}', '\u{85}', '\u{a0}', '\u{2009}', '\u{205f}'] {
        assert!(white_space(c));
        assert!(c.is_whitespace());
    }
    for c in ['a', '白', '\u{200b}', '_'] {
        assert!(!white_space(c));
        assert!(!c.is_whitespace());
    }
}

#[test]
fn trim_bounds_match_str_trim() {
    for s in ["  ab c ", "", "   ", "x", "\u{3000}白 登\t", "no_space"] {
        let v = chars_of(s);
        let (lo, hi) = trim_bounds(&v);
        let trimmed: String = v[lo..hi].iter().collect();
        assert_eq!(trimmed, s.trim());
    }
}

#[test]
fn occurs_between_finds_runs() {
    let s = chars_of("bai deng qi");
    assert!(occurs_between(&chars_of("deng"), &s, 0, s.len()));
    assert!(occurs_between(&chars_of(""), &s, 0, 0));
    assert!(!occurs_between(&chars_of("deng"), &s, 0, 6));
    assert!(occurs_between(&chars_of("qi"), &s, 9, 11));
    assert!(!occurs_between(&chars_of("bai deng qi!"), &s, 0, s.len()));
}
