use kenlm::error::{nul_position, KenlmError};
use kenlm::text::{c_string_bytes, is_whitespace, split_words};

#[test]
fn nul_position_finds_first_nul() {
    assert_eq!(nul_position(b"looking"), None);
    assert_eq!(nul_position(b"lo\0ok\0ing"), Some(2));
    assert_eq!(nul_position(b"\0"), Some(0));
    assert_eq!(nul_position(b""), None);
}

#[test]
fn c_string_bytes_keeps_text_without_nul() {
    assert_eq!(c_string_bytes("looking").unwrap(), b"looking".to_vec());
    assert_eq!(c_string_bytes("h\u{e9}").unwrap(), "h\u{e9}".as_bytes().to_vec());
    assert_eq!(c_string_bytes("").unwrap(), Vec::<u8>::new());
}

#[test]
fn c_string_bytes_refuses_interior_nul() {
    match c_string_bytes("lm/te\0st.arpa") {
        Err(KenlmError::InteriorNul(e)) => {
            assert_eq!(e.nul_position(), 5);
            assert_eq!(e.as_bytes(), b"lm/te\0st.arpa");
            assert_eq!(e.into_vec(), b"lm/te\0st.arpa".to_vec());
        }
        _ => panic!("expected an interior NUL error"),
    }
    assert!(matches!(c_string_bytes("\u{e9}\0"), Err(KenlmError::InteriorNul(e)) if e.nul_position() == 2));
}

#[test]
fn split_words_splits_on_whitespace() {
    assert_eq!(split_words("looking on a little"), vec!["looking", "on", "a", "little"]);
    assert_eq!(split_words("  looking \t on\n"), vec!["looking", "on"]);
    assert_eq!(split_words(""), Vec::<String>::new());
    assert_eq!(split_words(" \u{3000} \u{a0}"), Vec::<String>::new());
    assert_eq!(split_words("a\u{2003}b\u{200b}c"), vec!["a", "b\u{200b}c"]);
}

#[test]
fn split_words_agrees_with_std_on_every_separator() {
    for code in 0u32..0x3100 {
        if let Some(c) = char::from_u32(code) {
            let sentence = format!("x{c}y {c}{c}z{c}");
            let expected: Vec<&str> = sentence.split_whitespace().collect();
            assert_eq!(split_words(&sentence), expected, "separator {code:#x}");
        }
    }
}

#[test]
fn words_are_nonempty_and_keep_every_other_character() {
    let sentence = " looking\ton  a\u{2028}little \u{85}";
    let words = split_words(sentence);
    assert!(words.iter().all(|w| !w.is_empty() && !w.chars().any(char::is_whitespace)));
    let joined: String = words.concat();
    let kept: String = sentence.chars().filter(|c| !c.is_whitespace()).collect();
    assert_eq!(joined, kept);
}

#[test]
fn is_whitespace_agrees_with_std_on_every_char() {
    for code in 0u32..=0x10FFFF {
        if let Some(c) = char::from_u32(code) {
            assert_eq!(is_whitespace(c), c.is_whitespace(), "char {code:#x}");
        }
    }
}
