use segestria_core::text::{
    decimal, decimal_i32, ends_with, eq_ignore_ascii_case, is_blank, is_whitespace, join, parse_u32, replace_all,
    replace_char, split_char, split_whitespace, starts_with, trim,
};

const SAMPLES: &[&str] = &[
    "",
    " ",
    "abc",
    "  a b  ",
    "\t-Xmx2G\n -Dfoo=bar\u{3000}",
    "\u{A0}x\u{2009}y\u{85}",
    "a::b:",
    ":",
    "ñandú:☃:🎮",
    "${a}${a}$",
    "1.8.0_381",
];

#[test]
fn whitespace_agrees_with_std() {
    for code in 0u32..=0x3100 {
        if let Some(c) = char::from_u32(code) {
            assert_eq!(is_whitespace(c), c.is_whitespace(), "U+{code:04X}");
        }
    }
    assert!(!is_whitespace('\u{FEFF}'));
    assert!(!is_whitespace('\u{200B}'));
}

#[test]
fn trimming_and_splitting_agree_with_std() {
    for s in SAMPLES {
        assert_eq!(trim(s), s.trim());
        assert_eq!(is_blank(s), s.trim().is_empty());
        let words: Vec<&str> = s.split_whitespace().collect();
        assert_eq!(split_whitespace(s), words);
        for sep in [':', '.', ' '] {
            let parts: Vec<&str> = s.split(sep).collect();
            assert_eq!(split_char(s, sep), parts);
        }
    }
}

#[test]
fn replacing_agrees_with_std() {
    for s in SAMPLES {
        for (pat, with) in [("${a}", "1"), ("a", "aa"), (":", ""), ("ü", "u"), ("$", "${a}")] {
            assert_eq!(replace_all(s, pat, with), s.replace(pat, with));
        }
        assert_eq!(replace_char(s, '.', '/'), s.replace('.', "/"));
    }
}

#[test]
fn prefixes_and_suffixes() {
    assert!(starts_with("META-INF/x", "META-INF/"));
    assert!(!starts_with("META", "META-INF/"));
    assert!(starts_with("x", ""));
    assert!(ends_with("a-arm64", "-arm64"));
    assert!(!ends_with("arm64", "-arm64"));
    assert!(eq_ignore_ascii_case("AbC", "aBc"));
    assert!(!eq_ignore_ascii_case("abc", "abd"));
    assert!(!eq_ignore_ascii_case("Ñ", "ñ"));
}

#[test]
fn joining() {
    let parts = vec!["a".to_string(), "".to_string(), "c".to_string()];
    assert_eq!(join(&parts, ":"), parts.join(":"));
    assert_eq!(join(&vec![], ";"), "");
}

#[test]
fn numbers_agree_with_std() {
    for n in [0u64, 7, 10, 25565, 4096, u32::MAX as u64, u64::MAX] {
        assert_eq!(decimal(n), n.to_string());
    }
    for n in [0i32, 1, -1, 763, i32::MIN, i32::MAX] {
        assert_eq!(decimal_i32(n), n.to_string());
    }
    for s in ["0", "17", "+8", "-1", "", "+", "4294967295", "4294967296", "00017", "1 ", "٣"] {
        assert_eq!(parse_u32(s), s.parse::<u32>().ok(), "{s:?}");
    }
}
