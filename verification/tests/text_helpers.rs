use recipemanagement::text::{
    chars_of, decimal_string, is_white_space, join, same_text, split_words, string_of, trim,
};

#[test]
fn white_space_is_that_of_the_standard_library() {
    for code in 0u32..0x3100 {
        if let Some(c) = char::from_u32(code) {
            assert_eq!(c.is_whitespace(), is_white_space(c), "for {:?}", c);
        }
    }
    assert!(!is_white_space('\u{200B}'));
    assert!(!is_white_space('\u{FEFF}'));
}

#[test]
fn trim_is_that_of_the_standard_library() {
    for text in ["", " ", "a", "  a b \t\n", "\u{A0}x\u{3000}", "\u{200B}x ", " \u{2003} "] {
        assert_eq!(text.trim(), trim(text), "for {:?}", text);
    }
}

#[test]
fn words_are_those_of_the_standard_library() {
    for text in ["", " ", "a", "  potato   leek \t soup\n", "\u{A0}x\u{3000}y", "a\u{200B}b"] {
        let expected: Vec<String> = text.split_whitespace().map(|w| w.to_string()).collect();
        assert_eq!(expected, split_words(text), "for {:?}", text);
    }
}

#[test]
fn join_puts_the_separator_between() {
    assert_eq!("", join(&vec![], ", "));
    assert_eq!("a", join(&vec!["a".to_string()], ", "));
    assert_eq!("a, , b", join(&vec!["a".to_string(), "".to_string(), "b".to_string()], ", "));
}

#[test]
fn decimal_is_that_of_the_standard_library() {
    for n in [0i64, 1, 9, 10, 11, 100, 1024, -1, -10, -12345, i64::MAX, i64::MIN, i32::MIN as i64] {
        assert_eq!(n.to_string(), decimal_string(n));
    }
}

#[test]
fn characters_and_strings_convert() {
    let cs = chars_of("größe");
    assert_eq!(vec!['g', 'r', 'ö', 'ß', 'e'], cs);
    assert_eq!("röß", string_of(&cs, 1, 4));
    assert_eq!("", string_of(&cs, 2, 2));
    assert!(same_text("größe", "größe"));
    assert!(!same_text("größe", "grösse"));
}
