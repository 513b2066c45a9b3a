use hps_ble::text::{chars_of, index_of, string_of, trim_slice};

fn chars(s: &str) -> Vec<char> {
    s.chars().collect()
}

#[test]
fn chars_of_lists_the_characters() {
    assert_eq!(chars_of("a\u{e9}\u{8d8a}"), vec!['a', '\u{e9}', '\u{8d8a}']);
    assert_eq!(chars_of(""), Vec::<char>::new());
}

#[test]
fn string_of_undoes_chars_of() {
    let text = "Host: ex\u{e4}mple\r\n";
    assert_eq!(string_of(&chars_of(text)), text);
    assert_eq!(string_of(&[]), "");
}

#[test]
fn index_of_finds_the_first_occurrence() {
    assert_eq!(index_of(&chars("a:b:c"), ':'), 1);
    assert_eq!(index_of(&chars(":x"), ':'), 0);
}

#[test]
fn index_of_is_the_length_where_nothing_is_found() {
    assert_eq!(index_of(&chars("abc"), ':'), 3);
    assert_eq!(index_of(&[], ':'), 0);
}

#[test]
fn trim_slice_takes_whitespace_off_both_ends() {
    assert_eq!(trim_slice(&chars("  a b \t")), &chars("a b")[..]);
    assert_eq!(trim_slice(&chars("ab")), &chars("ab")[..]);
    assert_eq!(trim_slice(&chars(" \r\n ")), &chars("")[..]);
    assert_eq!(trim_slice(&[]), &chars("")[..]);
}

#[test]
fn trim_slice_agrees_with_str_trim() {
    for text in ["", " ", "x", " x", "x ", "\u{a0}x\u{2003}", "\u{3000}\u{3000}", "a \u{e9} ", "\n\tk: v\r"] {
        assert_eq!(string_of(trim_slice(&chars(text))), text.trim());
    }
}
