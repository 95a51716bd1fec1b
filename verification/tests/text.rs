use voice_assistant::text::{
    chars_of, contains_chars, is_space_char, join_from, matches_at, replace_chars, same_chars,
    split_whitespace, string_of,
};

fn cs(s: &str) -> Vec<char> {
    s.chars().collect()
}

#[test]
fn chars_round_trip() {
    let v = chars_of("открой ютуб");
    assert_eq!(v, cs("открой ютуб"));
    assert_eq!(string_of(&v), "открой ютуб");
    assert_eq!(string_of(&Vec::new()), "");
}

#[test]
fn white_space_is_unicode_white_space() {
    for c in [' ', '\t', '\n', '\r', '\u{b}', '\u{c}', '\u{85}', '\u{a0}', '\u{2003}', '\u{3000}'] {
        assert!(is_space_char(c));
        assert!(c.is_whitespace());
    }
    for c in ['a', 'я', '+', '\u{200b}', '_'] {
        assert!(!is_space_char(c));
        assert_eq!(is_space_char(c), c.is_whitespace());
    }
}

#[test]
fn split_matches_split_whitespace() {
    for text in ["", "   ", "найди  погоду\tв москве ", "\u{a0}один\u{3000}два", "x"] {
        let got: Vec<String> = split_whitespace(&cs(text)).iter().map(|w| string_of(w)).collect();
        let want: Vec<String> = text.split_whitespace().map(|w| w.to_string()).collect();
        assert_eq!(got, want);
    }
}

#[test]
fn join_from_skips_and_separates() {
    let ws = split_whitespace(&cs("найди погоду в москве"));
    assert_eq!(string_of(&join_from(&ws, 1, &cs("+"))), "погоду+в+москве");
    assert_eq!(string_of(&join_from(&ws, 3, &cs("+"))), "москве");
    assert_eq!(string_of(&join_from(&ws, 4, &cs("+"))), "");
    assert_eq!(string_of(&join_from(&ws, 0, &cs(" "))), "найди погоду в москве");
}

#[test]
fn contains_and_matches() {
    assert!(contains_chars(&cs("эй риша привет"), &cs("риша")));
    assert!(!contains_chars(&cs("эй ри ша"), &cs("риша")));
    assert!(contains_chars(&cs("abc"), &cs("")));
    assert!(!contains_chars(&cs("ab"), &cs("abc")));
    assert!(matches_at(&cs("abcabc"), 3, &cs("abc")));
    assert!(!matches_at(&cs("abcabc"), 4, &cs("abc")));
    assert!(!matches_at(&cs("abc"), 7, &cs("")));
    assert!(same_chars(&cs("стоп"), &cs("стоп")));
    assert!(!same_chars(&cs("стоп"), &cs("стопп")));
}

#[test]
fn replace_matches_str_replace() {
    let cases = [
        ("открой телеграмму", "телеграмму", "телеграмм"),
        ("aaaa", "aa", "b"),
        ("aaa", "aa", "aaa"),
        ("нет совпадений", "xyz", "q"),
        ("", "a", "b"),
        ("телеграммуу", "телеграмму", "телеграмм"),
    ];
    for (s, from, to) in cases {
        assert_eq!(string_of(&replace_chars(&cs(s), &cs(from), &cs(to))), s.replace(from, to));
    }
}
