use datafusion_exec::text::{
    chars_of, eq_ignore_ascii_case, is_white_space, same_text, squeeze, starts_with, to_ascii_lower,
    trim_end,
};

#[test]
fn white_space_agrees_with_unicode() {
    for n in 0..=0x10ffffu32 {
        if let Some(c) = char::from_u32(n) {
            assert_eq!(is_white_space(c), c.is_whitespace(), "{:?}", c);
        }
    }
}

#[test]
fn characters_in_order() {
    assert_eq!(chars_of("aé☃"), vec!['a', 'é', '☃']);
    assert_eq!(chars_of(""), Vec::<char>::new());
}

#[test]
fn trims_the_end_only() {
    for text in ["", " ", "a", " a b \t\r\n", "x\u{3000}", "\u{a0}y\u{2003}\u{2003}", "é "] {
        assert_eq!(trim_end(text), text.trim_end());
    }
    assert_eq!(trim_end("  select 1 ;  "), "  select 1 ;");
    assert_eq!(trim_end(&trim_end("a \n ")), "a");
}

#[test]
fn squeezes_white_space_between_words() {
    assert_eq!(squeeze("\\pset   format\t csv \n"), "\\pset format csv");
    for text in ["", "   ", "one", " one", "one ", "a  b\u{2003}c", "é\u{85}ü", "\t\\d x\r\n"] {
        assert_eq!(squeeze(text), text.split_whitespace().collect::<Vec<_>>().join(" "));
    }
}

#[test]
fn words_keep_all_other_characters() {
    let text = " \\quiet\t tr ue ";
    let kept: String = squeeze(text).chars().filter(|c| !c.is_whitespace()).collect();
    assert_eq!(kept, "\\quiettrue");
}

#[test]
fn prefixes() {
    assert!(starts_with("--x", "--"));
    assert!(starts_with("--", "--"));
    assert!(!starts_with("-", "--"));
    assert!(!starts_with(" --", "--"));
    assert!(starts_with("é!", "é"));
    assert!(starts_with("", ""));
}

#[test]
fn equality_up_to_ascii_case() {
    assert!(eq_ignore_ascii_case("S3", "s3"));
    assert!(eq_ignore_ascii_case("S3", "S3"));
    assert!(!eq_ignore_ascii_case("S3", "S33"));
    assert!(!eq_ignore_ascii_case("S3", "GCS"));
    assert!(!eq_ignore_ascii_case("É", "é"));
    assert!(eq_ignore_ascii_case("[@Z]", "[@z]"));
    assert!(!eq_ignore_ascii_case("[", "{"));
    for n in 0..=0x3ffu32 {
        let c = char::from_u32(n).unwrap();
        assert_eq!(to_ascii_lower(c), c.to_ascii_lowercase());
    }
}

#[test]
fn same_text_is_equality() {
    assert!(same_text("abc", "abc"));
    assert!(!same_text("abc", "abd"));
    assert!(!same_text("abc", "ab"));
}
