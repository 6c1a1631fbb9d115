use runtext::text::{
    chars_of, equals, is_whitespace, same_text, scan, scan_word, starts_with, trim_range,
    trimmed_is,
};

fn trimmed(text: &str) -> String {
    let chars = chars_of(text);
    let (from, to) = trim_range(&chars, 0, chars.len());
    chars[from..to].iter().collect()
}

#[test]
fn white_space_is_what_std_takes_for_it() {
    for code in 0..=0x10ffffu32 {
        if let Some(c) = char::from_u32(code) {
            assert_eq!(is_whitespace(c), c.is_whitespace(), "U+{:04X}", code);
        }
    }
}

#[test]
fn white_space_characters() {
    for c in [' ', '\t', '\n', '\r', '\u{b}', '\u{c}', '\u{85}', '\u{a0}', '\u{2003}', '\u{3000}'] {
        assert!(is_whitespace(c));
    }
    for c in ['a', '0', '_', '\u{0}', '\u{200b}', '\u{180e}', '\u{feff}'] {
        assert!(!is_whitespace(c));
    }
}

#[test]
fn chars_are_read_in_order() {
    assert_eq!(chars_of("aé✓"), vec!['a', 'é', '✓']);
    assert_eq!(chars_of(""), Vec::<char>::new());
}

#[test]
fn trimming_is_that_of_std() {
    for text in [
        "",
        " ",
        "a",
        " a",
        "a ",
        "  a b  ",
        "\t\r\n x \u{a0}\u{3000}",
        "\u{2028}inner \t space\u{2029}",
        " \u{200b} ",
    ] {
        assert_eq!(trimmed(text), text.trim(), "{:?}", text);
    }
}

#[test]
fn trimming_a_range_stays_inside_it() {
    let chars = chars_of("ab  cd  ef");
    assert_eq!(trim_range(&chars, 2, 8), (4, 6));
    assert_eq!(trim_range(&chars, 2, 4), (4, 4));
    assert_eq!(trim_range(&chars, 0, 10), (0, 10));
    assert_eq!(trim_range(&chars, 5, 5), (5, 5));
}

#[test]
fn scanning_stops_at_the_character() {
    let chars = chars_of("one two\nthree");
    assert_eq!(scan(&chars, 0, chars.len(), ' '), 3);
    assert_eq!(scan(&chars, 4, chars.len(), ' '), chars.len());
    assert_eq!(scan(&chars, 0, chars.len(), '\n'), 7);
    assert_eq!(scan(&chars, 3, chars.len(), ' '), 3);
    assert_eq!(scan(&chars, 0, 2, ' '), 2);
}

#[test]
fn scanning_a_word_stops_at_white_space() {
    let chars = chars_of("one\ttwo\u{a0}three four");
    assert_eq!(scan_word(&chars, 0, chars.len()), 3);
    assert_eq!(scan_word(&chars, 3, chars.len()), 3);
    assert_eq!(scan_word(&chars, 4, chars.len()), 7);
    assert_eq!(scan_word(&chars, 8, chars.len()), 13);
    assert_eq!(scan_word(&chars, 14, chars.len()), chars.len());
    assert_eq!(scan_word(&chars, 0, 2), 2);
}

#[test]
fn prefixes() {
    let chars = chars_of("xxSSID: net");
    assert!(starts_with(&chars, 2, chars.len(), &chars_of("SSID: ")));
    assert!(starts_with(&chars, 2, chars.len(), &chars_of("")));
    assert!(!starts_with(&chars, 0, chars.len(), &chars_of("SSID: ")));
    assert!(!starts_with(&chars, 2, 6, &chars_of("SSID: ")));
    assert!(!starts_with(&chars, 2, chars.len(), &chars_of("SSID:  ")));
}

#[test]
fn equality_of_a_range() {
    let chars = chars_of(" wifi ");
    assert!(equals(&chars, 1, 5, &chars_of("wifi")));
    assert!(!equals(&chars, 0, 5, &chars_of("wifi")));
    assert!(!equals(&chars, 1, 5, &chars_of("wifx")));
    assert!(!equals(&chars, 1, 4, &chars_of("wifi")));
}

#[test]
fn texts_are_compared_by_their_characters() {
    assert!(same_text("", ""));
    assert!(same_text("HomeNet", "HomeNet"));
    assert!(!same_text("HomeNet", "homenet"));
    assert!(!same_text("a", "ab"));
    assert!(trimmed_is("  wifi\n", "wifi"));
    assert!(!trimmed_is("wi fi", "wifi"));
    assert!(trimmed_is("", ""));
}

#[test]
fn trimming_is_that_of_std_on_every_short_text() {
    let pieces = ['a', ' ', '\t', '\n', '\r', '\u{85}', '\u{a0}', '\u{2003}', '\u{200b}', 'é'];
    let mut last = vec![String::new()];
    for _ in 0..5 {
        let mut next = Vec::new();
        for text in &last {
            assert_eq!(trimmed(text), text.trim(), "{:?}", text);
            assert_eq!(trimmed_is(text, "a"), text.trim() == "a", "{:?}", text);
            for piece in pieces {
                next.push(format!("{}{}", text, piece));
            }
        }
        last = next;
    }
}
