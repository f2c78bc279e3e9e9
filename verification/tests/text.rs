use agi_adventure::text::{push_decimal, push_signed_decimal, same_text, split_whitespace_words, wrap_text};

#[test]
fn wraps_greedily_on_byte_length() {
    let lines = wrap_text("un deux trois quatre", 9);
    assert_eq!(lines, vec!["un deux", "trois", "quatre"]);
}

#[test]
fn long_word_stands_alone() {
    let lines = wrap_text("a extraordinairement b", 5);
    assert_eq!(lines, vec!["a", "extraordinairement", "b"]);
}

#[test]
fn whitespace_runs_and_empty_text() {
    assert_eq!(wrap_text("  a \t b\n\nc  ", 52), vec!["a b c"]);
    assert!(wrap_text("   ", 10).is_empty());
    assert!(wrap_text("", 10).is_empty());
}

#[test]
fn accented_letters_count_in_bytes() {
    // "été" is 5 bytes: "été été" is 11 bytes, too long for 10.
    assert_eq!(wrap_text("été été", 10), vec!["été", "été"]);
    assert_eq!(wrap_text("été été", 11), vec!["été été"]);
}

#[test]
fn split_words_drops_whitespace() {
    assert_eq!(split_whitespace_words(" x  yz\u{3000}w "), vec!["x", "yz", "w"]);
}

#[test]
fn decimal_notation() {
    let mut s = String::from("n=");
    push_decimal(&mut s, 0);
    push_decimal(&mut s, 4294967295);
    assert_eq!(s, "n=04294967295");
    let mut t = String::new();
    push_signed_decimal(&mut t, -2147483648);
    push_signed_decimal(&mut t, 20);
    assert_eq!(t, "-214748364820");
}

#[test]
fn same_text_compares_characters() {
    assert!(same_text("patch", "patch"));
    assert!(!same_text("patch", "Patch"));
    assert!(!same_text("patch", "patc"));
}
