use gan_robot::text::{chars_of, is_whitespace_char, split_words};

fn split(text: &str) -> Vec<String> {
    let chars = chars_of(text);
    split_words(&chars).iter().map(|w| w.iter().collect::<String>()).collect()
}

#[test]
fn whitespace_is_what_std_calls_whitespace() {
    for code in 0..=0x10ffffu32 {
        if let Some(c) = char::from_u32(code) {
            assert_eq!(is_whitespace_char(c), c.is_whitespace(), "U+{:04X}", code);
        }
    }
}

#[test]
fn chars_of_gives_each_character() {
    assert_eq!(chars_of(""), Vec::<char>::new());
    assert_eq!(chars_of("R2'"), vec!['R', '2', '\'']);
    assert_eq!(chars_of("a\u{3000}é"), vec!['a', '\u{3000}', 'é']);
}

#[test]
fn words_are_parted_by_whitespace_of_any_length() {
    assert_eq!(split("R F' D2"), vec!["R", "F'", "D2"]);
    assert_eq!(split("  R \t\n F'\r\n"), vec!["R", "F'"]);
    assert_eq!(split("R\u{a0}F\u{3000}D\u{2003}L"), vec!["R", "F", "D", "L"]);
    assert_eq!(split("one"), vec!["one"]);
}

#[test]
fn text_without_words_gives_none() {
    assert_eq!(split(""), Vec::<String>::new());
    assert_eq!(split(" "), Vec::<String>::new());
    assert_eq!(split(" \t \n"), Vec::<String>::new());
}

#[test]
fn words_agree_with_split_whitespace() {
    for text in [
        "R R2 R2' R'",
        " leading",
        "trailing ",
        "\u{85}x\u{1680}y\u{2028}z\u{2029}",
        "a\u{200b}b",
        "tab\tseparated\twords",
        "12 +7 256 x",
    ] {
        let expected: Vec<String> = text.split_whitespace().map(|w| w.to_string()).collect();
        assert_eq!(split(text), expected);
    }
}
