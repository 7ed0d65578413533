use hyprwhspr_rs::text;

#[test]
fn white_space_is_what_the_standard_library_says() {
    let mut seen = 0;
    for code in 0..=0x10ffff_u32 {
        if let Some(c) = char::from_u32(code) {
            let s = c.to_string();
            assert_eq!(text::trim(&s), s.trim());
            if c.is_whitespace() {
                seen += 1;
                assert!(matches!(
                    c,
                    '\u{9}'..='\u{d}'
                        | ' '
                        | '\u{85}'
                        | '\u{a0}'
                        | '\u{1680}'
                        | '\u{2000}'..='\u{200a}'
                        | '\u{2028}'
                        | '\u{2029}'
                        | '\u{202f}'
                        | '\u{205f}'
                        | '\u{3000}'
                ));
            }
        }
    }
    assert_eq!(seen, 25);
}

#[test]
fn trimming_agrees_with_the_standard_library() {
    for s in ["", " ", " a b ", "a", "\u{2003}é\n", "  \t", "x y"] {
        assert_eq!(text::trim(s), s.trim());
    }
}

#[test]
fn prefixes_are_stripped_whole() {
    assert_eq!(text::strip_prefix("lang=fr", "lang="), Some("fr"));
    assert_eq!(text::strip_prefix("lang=", "lang="), Some(""));
    assert_eq!(text::strip_prefix("lang", "lang="), None);
    assert_eq!(text::strip_prefix("éa", "é"), Some("a"));
    assert_eq!(text::strip_prefix("a", ""), Some("a"));
}

#[test]
fn splitting_once_agrees_with_the_standard_library() {
    for s in ["", " ", "a", "a b", "a  b", " a", "a ", "é b c"] {
        assert_eq!(text::split_once(s, ' '), s.split_once(" "));
    }
}

#[test]
fn splitting_agrees_with_the_standard_library() {
    for s in ["", "+", "a", "a+b", "++", "+é+", "a+b+c"] {
        assert_eq!(text::split(s, '+'), s.split('+').collect::<Vec<_>>());
    }
}

#[test]
fn words_agree_with_the_standard_library() {
    for s in ["", " ", "a", " a  b\u{2028}c ", "é\u{a0}ü", "a\u{200b}b"] {
        assert_eq!(
            text::split_whitespace(s),
            s.split_whitespace().collect::<Vec<_>>()
        );
    }
}

#[test]
fn sameness_is_by_characters() {
    assert!(text::same("", ""));
    assert!(text::same("é", "é"));
    assert!(!text::same("a", "A"));
    assert!(!text::same("ab", "a"));
    assert_eq!(text::chars("aé"), vec!['a', 'é']);
}
