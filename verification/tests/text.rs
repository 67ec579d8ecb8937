use clearglass::text::{
    chars_of, eq_ignore_ascii_case, is_whitespace, same, split, split_once, split_whitespace,
    strip_prefix, to_decimal, trim_matches, up_to, Separator,
};

const SAMPLES: [&str; 12] = [
    "", " ", "a", "a b", " a  b ", "\u{3000}a\u{85}b\u{200b}c", "/a/b/", "//", "a=b=c", "=", "&&x=1&",
    "\u{e4}\u{1f600} \u{10ffff}/=&",
];

#[test]
fn white_space_is_that_of_unicode() {
    let mut c = 0u32;
    while c <= 0x10ffff {
        if let Some(ch) = char::from_u32(c) {
            assert_eq!(is_whitespace(ch), ch.is_whitespace(), "{c:x}");
            assert_eq!(Separator::Whitespace.matches(ch), ch.is_whitespace());
        }
        c += 1;
    }
    assert!(Separator::Char('x').matches('x'));
    assert!(!Separator::Char('x').matches(' '));
}

#[test]
fn cutting_agrees_with_std() {
    for s in SAMPLES {
        for c in ['/', '=', '&', ' ', 'a', '\u{e4}'] {
            let expected: Vec<&str> = s.split(c).collect();
            assert_eq!(split(s, Separator::Char(c)), expected);
            assert_eq!(expected.join(&c.to_string()), s);
            assert_eq!(split_once(s, c), s.split_once(c));
            assert_eq!(trim_matches(s, c), s.trim_matches(c));
            assert_eq!(up_to(s, c), s.split(c).next().unwrap());
        }
        let expected: Vec<&str> = s.split(char::is_whitespace).collect();
        assert_eq!(split(s, Separator::Whitespace), expected);
        let expected: Vec<&str> = s.split_whitespace().collect();
        assert_eq!(split_whitespace(s), expected);
        let expected: Vec<char> = s.chars().collect();
        assert_eq!(chars_of(s), expected);
        for t in SAMPLES {
            assert_eq!(same(s, t), s == t);
            assert_eq!(strip_prefix(s, t), s.strip_prefix(t));
            assert_eq!(eq_ignore_ascii_case(s, t), s.eq_ignore_ascii_case(t));
        }
    }
    assert!(eq_ignore_ascii_case("aZ[", "Az["));
    assert!(!eq_ignore_ascii_case("@", "`"));
    assert!(!eq_ignore_ascii_case("k", "\u{212a}"));
}

#[test]
fn numbers_are_written_in_decimal() {
    for n in [0, 1, 9, 10, 42, 99, 100, 1234567890, usize::MAX] {
        assert_eq!(to_decimal(n), n.to_string());
    }
}
