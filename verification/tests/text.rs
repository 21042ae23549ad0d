use tri_mon::text::{ends_with, same, split_lines, split_words, starts_with, to_chars, trim};

fn joined(parts: Vec<&[char]>) -> Vec<String> {
    parts.iter().map(|p| p.iter().collect()).collect()
}

fn lines_of(s: &str) -> Vec<String> {
    joined(split_lines(&to_chars(s)))
}

fn words_of(s: &str) -> Vec<String> {
    joined(split_words(&to_chars(s)))
}

fn std_lines(s: &str) -> Vec<String> {
    s.lines().map(|l| l.to_string()).collect()
}

fn std_words(s: &str) -> Vec<String> {
    s.split_whitespace().map(|w| w.to_string()).collect()
}

const SAMPLES: [&str; 12] = [
    "",
    "\n",
    "a",
    "a\n",
    "a\nb",
    "a\r\nb\r",
    "\r\n\r\n",
    "a\r\r\nb",
    "  two   words ",
    "\ttab\u{a0}nbsp\u{3000}wide\u{200b}joined",
    "cpu  1 2\ncpu0 3 4\n\nintr 5\n",
    "\u{85}\u{1680}\u{2028}x\u{2029}\u{202f}\u{205f}",
];

#[test]
fn lines_end_at_line_feeds() {
    assert_eq!(lines_of("a\nb\r\n\nc"), vec!["a", "b", "", "c"]);
    assert_eq!(lines_of("a\r"), vec!["a\r"]);
    assert!(lines_of("").is_empty());
}

#[test]
fn lines_are_those_of_std() {
    for s in SAMPLES {
        assert_eq!(lines_of(s), std_lines(s), "{:?}", s);
    }
}

#[test]
fn words_are_those_of_std() {
    assert_eq!(words_of(" a  bc\td "), vec!["a", "bc", "d"]);
    for s in SAMPLES {
        assert_eq!(words_of(s), std_words(s), "{:?}", s);
    }
}

#[test]
fn trimming_is_that_of_std() {
    for s in SAMPLES {
        let chars = to_chars(s);
        let r: String = trim(&chars).iter().collect();
        assert_eq!(r, s.trim(), "{:?}", s);
    }
}

#[test]
fn prefixes_and_suffixes() {
    let s = to_chars("728Mhz");
    assert!(starts_with(&s, &to_chars("728")));
    assert!(starts_with(&s, &to_chars("")));
    assert!(!starts_with(&s, &to_chars("28")));
    assert!(!starts_with(&s, &to_chars("728Mhz*")));
    assert!(ends_with(&s, &to_chars("Mhz")));
    assert!(!ends_with(&s, &to_chars("MHz")));
    assert!(!ends_with(&to_chars("hz"), &to_chars("Mhz")));
    assert!(same(&s, &to_chars("728Mhz")));
    assert!(!same(&s, &to_chars("728")));
}

#[test]
fn white_space_is_that_of_std() {
    for n in 0..0x11_0000u32 {
        if let Some(c) = char::from_u32(n) {
            assert_eq!(tri_mon::text::is_white_space(c), c.is_whitespace(), "{:x}", n);
        }
    }
}
