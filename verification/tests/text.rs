use shunt::text::{
    contains_white_space, first_chars, in_order, is_white_space, trim, trim_trailing,
};

#[test]
fn white_space_is_that_of_std() {
    for c in '\0'..=char::MAX {
        assert_eq!(is_white_space(c), c.is_whitespace(), "{c:?}");
    }
}

#[test]
fn trimming_is_that_of_std() {
    for s in ["", " ", "a", " a", "a ", "\u{2003}a b\u{a0}", "\n\t", "é é", "\u{200b}x"] {
        assert_eq!(trim(s), s.trim());
        assert_eq!(trim(trim(s)), trim(s));
        assert_eq!(contains_white_space(s), s.chars().any(char::is_whitespace));
    }
}

#[test]
fn trailing_runs_are_those_of_std() {
    for s in ["", "/", "//", "a", "a/", "a//", "/a", "a/b/", "é/"] {
        assert_eq!(trim_trailing(s, '/'), s.trim_end_matches('/'));
    }
}

#[test]
fn prefixes_count_characters() {
    assert_eq!(first_chars("éab", 2), "éa");
    assert_eq!(first_chars("éab", 3), "éab");
    assert_eq!(first_chars("éab", 9), "éab");
    assert_eq!(first_chars("éab", 0), "");
}

#[test]
fn order_is_that_of_std() {
    let texts = ["", "-", "0", "a", "a-", "aa", "ab", "b", "é", "\u{ffff}", "😀"];
    for a in texts {
        for b in texts {
            assert_eq!(in_order(a, b), a <= b, "{a:?} {b:?}");
        }
    }
}
