use statusline::text::{char_is_space, contains, decode, nth_word, same_text, to_chars, trim};

fn chars(s: &str) -> Vec<char> {
    s.chars().collect()
}

fn trimmed(s: &str) -> String {
    trim(&chars(s)).iter().collect()
}

fn word(s: &str, n: usize) -> Option<String> {
    nth_word(&chars(s), n).map(|w| w.iter().collect())
}

#[test]
fn white_space_is_what_unicode_says() {
    let spaces = [
        '\t', '\n', '\u{b}', '\u{c}', '\r', ' ', '\u{85}', '\u{a0}', '\u{1680}', '\u{2000}',
        '\u{2005}', '\u{200a}', '\u{2028}', '\u{2029}', '\u{202f}', '\u{205f}', '\u{3000}',
    ];
    for c in spaces {
        assert!(char_is_space(c));
    }
    for c in ['a', '0', '\u{0}', '\u{8}', '\u{e}', '\u{1f}', '!', '\u{200b}', '\u{feff}', '░'] {
        assert!(!char_is_space(c));
    }
}

#[test]
fn white_space_agrees_with_the_standard_library() {
    for code in 0u32..0x11000 {
        if let Some(c) = char::from_u32(code) {
            assert_eq!(char_is_space(c), c.is_whitespace());
        }
    }
}

#[test]
fn to_chars_gives_every_character() {
    assert_eq!(to_chars(""), chars(""));
    assert_eq!(to_chars("Vol: ▓░"), vec!['V', 'o', 'l', ':', ' ', '▓', '░']);
}

#[test]
fn decode_reads_utf8() {
    assert_eq!(decode(b""), Some(vec![]));
    assert_eq!(decode(b"0.45"), Some(vec!['0', '.', '4', '5']));
    assert_eq!(decode("é✓\u{1f50a}".as_bytes()), Some(vec!['é', '✓', '\u{1f50a}']));
}

#[test]
fn decode_refuses_what_is_no_utf8() {
    assert_eq!(decode(&[0xff]), None);
    assert_eq!(decode(&[b'a', 0x80]), None);
    assert_eq!(decode(&[0xc0, 0x80]), None);
    assert_eq!(decode(&[0xe2, 0x9c]), None);
    assert_eq!(decode(&[0xf4, 0x90, 0x80, 0x80]), None);
}

#[test]
fn same_text_compares_every_character() {
    assert!(same_text(&chars(""), &chars("")));
    assert!(same_text(&chars("Charging"), &chars("Charging")));
    assert!(!same_text(&chars("Charging"), &chars("Charginq")));
    assert!(!same_text(&chars("Charging"), &chars("Charging ")));
    assert!(!same_text(&chars("charging"), &chars("Charging")));
}

#[test]
fn trim_takes_white_space_off_both_ends() {
    assert_eq!(trimmed(""), "");
    assert_eq!(trimmed(" \t\n"), "");
    assert_eq!(trimmed("92\n"), "92");
    assert_eq!(trimmed("  Not charging \r\n"), "Not charging");
    assert_eq!(trimmed("\u{3000}a b\u{85}"), "a b");
    assert_eq!(trimmed("x"), "x");
}

#[test]
fn trim_agrees_with_the_standard_library() {
    for s in ["", " ", "a", " a", "a ", " a b ", "\n\na\tb\n\n", "\u{a0}\u{2009}x y\u{2028}"] {
        assert_eq!(trimmed(s), s.trim());
    }
}

#[test]
fn nth_word_counts_runs_without_white_space() {
    assert_eq!(word("Volume: 0.45 [MUTED]", 0).as_deref(), Some("Volume:"));
    assert_eq!(word("Volume: 0.45 [MUTED]", 1).as_deref(), Some("0.45"));
    assert_eq!(word("Volume: 0.45 [MUTED]", 2).as_deref(), Some("[MUTED]"));
    assert_eq!(word("Volume: 0.45 [MUTED]", 3), None);
    assert_eq!(word("  \t lead  and\ttrail \n", 2).as_deref(), Some("trail"));
    assert_eq!(word("", 0), None);
    assert_eq!(word(" \n ", 0), None);
    assert_eq!(word("one", 0).as_deref(), Some("one"));
    assert_eq!(word("one", 1), None);
    assert_eq!(word("one", usize::MAX), None);
}

#[test]
fn nth_word_agrees_with_the_standard_library() {
    for s in ["", "a", " a  bb\tccc\n", "Volume: 1.00", "x\u{a0}y\u{2003}z", "  . "] {
        let expected: Vec<&str> = s.split_whitespace().collect();
        for n in 0..expected.len() + 2 {
            assert_eq!(word(s, n).as_deref(), expected.get(n).copied());
        }
    }
}

#[test]
fn contains_finds_a_run_of_characters() {
    assert!(contains(&chars("Volume: 0.45 [MUTED]"), &chars("MUTED")));
    assert!(contains(&chars("MUTED"), &chars("MUTED")));
    assert!(contains(&chars("MUMUTED"), &chars("MUTED")));
    assert!(contains(&chars("anything"), &chars("")));
    assert!(contains(&chars(""), &chars("")));
    assert!(!contains(&chars("Volume: 0.45"), &chars("MUTED")));
    assert!(!contains(&chars("MUTE"), &chars("MUTED")));
    assert!(!contains(&chars("M U T E D"), &chars("MUTED")));
    assert!(!contains(&chars(""), &chars("MUTED")));
}
