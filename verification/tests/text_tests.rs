use domain_expiry::text::{chars_of, find_first, is_whitespace, stands_at, trim_window};

fn window(text: &str, w: (usize, usize)) -> String {
    chars_of(text)[w.0..w.1].iter().collect()
}

#[test]
fn whitespace_is_the_unicode_property() {
    let mut code: u32 = 0;
    while code <= 0x10FFFF {
        if let Some(c) = char::from_u32(code) {
            assert_eq!(is_whitespace(c), c.is_whitespace(), "U+{:04X}", code);
        }
        code += 1;
    }
}

#[test]
fn whitespace_edges() {
    assert!(is_whitespace(' '));
    assert!(is_whitespace('\t'));
    assert!(is_whitespace('\n'));
    assert!(is_whitespace('\r'));
    assert!(is_whitespace('\u{85}'));
    assert!(is_whitespace('\u{a0}'));
    assert!(is_whitespace('\u{2000}'));
    assert!(is_whitespace('\u{200a}'));
    assert!(is_whitespace('\u{3000}'));
    assert!(!is_whitespace('\u{8}'));
    assert!(!is_whitespace('\u{e}'));
    assert!(!is_whitespace('\u{200b}'));
    assert!(!is_whitespace('a'));
    assert!(!is_whitespace('0'));
}

#[test]
fn chars_of_keeps_every_character() {
    assert_eq!(chars_of("aé東\u{1F600}"), vec!['a', 'é', '東', '\u{1F600}']);
    assert_eq!(chars_of(""), Vec::<char>::new());
}

#[test]
fn stands_at_compares_in_place() {
    let text = chars_of("abcabc");
    let needle = chars_of("bc");
    assert!(stands_at(&text, 1, 6, &needle));
    assert!(stands_at(&text, 4, 6, &needle));
    assert!(!stands_at(&text, 0, 6, &needle));
    assert!(!stands_at(&text, 4, 5, &needle));
    assert!(!stands_at(&text, 5, 6, &needle));
    assert!(stands_at(&text, 6, 6, &chars_of("")));
}

#[test]
fn find_first_gives_the_leftmost_place() {
    let text = chars_of("abcabc");
    assert_eq!(find_first(&text, 0, 6, &chars_of("bc")), Some(1));
    assert_eq!(find_first(&text, 2, 6, &chars_of("bc")), Some(4));
    assert_eq!(find_first(&text, 2, 5, &chars_of("bc")), None);
    assert_eq!(find_first(&text, 0, 6, &chars_of("abcabc")), Some(0));
    assert_eq!(find_first(&text, 0, 6, &chars_of("abcabcd")), None);
    assert_eq!(find_first(&text, 0, 6, &chars_of("x")), None);
    assert_eq!(find_first(&text, 3, 3, &chars_of("a")), None);
}

#[test]
fn find_first_of_nothing_is_the_start() {
    let text = chars_of("abc");
    assert_eq!(find_first(&text, 0, 3, &chars_of("")), Some(0));
    assert_eq!(find_first(&text, 2, 3, &chars_of("")), Some(2));
    assert_eq!(find_first(&text, 3, 3, &chars_of("")), Some(3));
}

#[test]
fn find_first_agrees_with_std() {
    let hay = "aaabaaabaaaab ab  ba";
    let text = chars_of(hay);
    for needle in ["a", "ab", "aab", "aaaab", "ba", "b ", "  ", "abc", "baaab"] {
        let found = find_first(&text, 0, text.len(), &chars_of(needle));
        assert_eq!(found, hay.find(needle), "{}", needle);
    }
}

#[test]
fn trim_window_agrees_with_std() {
    for text in ["", " ", "a", " a", "a ", "  a b  ", "\t\r\n x \u{3000}", "\u{a0}\u{2003}", "a\u{200b} "] {
        let chars = chars_of(text);
        let w = trim_window(&chars, 0, chars.len());
        assert_eq!(window(text, w), text.trim(), "{:?}", text);
    }
}

#[test]
fn trim_window_stays_inside_the_window() {
    let text = " a  b c ";
    let chars = chars_of(text);
    assert_eq!(trim_window(&chars, 2, 6), (4, 5));
    assert_eq!(trim_window(&chars, 0, 8), (1, 7));
    assert_eq!(trim_window(&chars, 2, 4), (4, 4));
    assert_eq!(trim_window(&chars, 3, 3), (3, 3));
}
