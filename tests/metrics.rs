use wordcount::metrics::{
    count_bytes, count_chars, count_lines, count_words, is_whitespace_char, measure, Metrics,
};

#[test]
fn count_lines_test() {
    let contents = "\
        The quick brown fox
        jumped over the lazy dog.
        If the dog moved,
        was it really lazy ?";

    assert_eq!(count_lines(contents), 4);
}

#[test]
fn count_bytes_test() {
    let contents = "The quick brown fox jumped over the lazy dog.";
    assert_eq!(count_bytes(contents), 45);
}

#[test]
fn count_words_test() {
    let contents = "The quick brown fox jumped over the lazy dog.";
    assert_eq!(count_words(contents), 9);
}

#[test]
fn count_chars_test() {
    let contents = "The quick brown fox jumped over the lazy dog.";
    assert_eq!(count_words(contents), 9);
}

#[test]
fn pangram_all_counts() {
    let contents = "The quick brown fox jumped over the lazy dog.";
    assert_eq!(count_words(contents), 9);
    assert_eq!(count_bytes(contents), 45);
    assert_eq!(count_chars(contents), 45);
    assert_eq!(count_lines(contents), 1);
}

#[test]
fn empty_buffer_counts_zero() {
    let m = measure("");
    assert_eq!(
        m,
        Metrics {
            lines: 0,
            words: 0,
            bytes: 0,
            chars: 0
        }
    );
}

#[test]
fn four_lines_with_trailing_newline() {
    assert_eq!(count_lines("one\ntwo\nthree\nfour\n"), 4);
}

#[test]
fn four_lines_without_trailing_newline() {
    assert_eq!(count_lines("one\ntwo\nthree\nfour"), 4);
}

#[test]
fn crlf_and_blank_lines() {
    assert_eq!(count_lines("a\r\nb\r\n"), 2);
    assert_eq!(count_lines("\n"), 1);
    assert_eq!(count_lines("\n\n\n"), 3);
    assert_eq!(count_lines("a\rb"), 1);
}

#[test]
fn multibyte_character_counts() {
    let contents = "\u{20ac}abcd";
    assert_eq!(count_chars(contents), 5);
    assert_eq!(count_bytes(contents), 7);
}

#[test]
fn bytes_never_fewer_than_chars() {
    for contents in ["", "abc", "h\u{e9}llo w\u{f6}rld", "\u{1f600}\u{1f600}", "\u{65e5}\u{672c}"] {
        assert!(count_bytes(contents) >= count_chars(contents));
    }
    assert_eq!(count_bytes("\u{1f600}\u{1f600}"), 8);
    assert_eq!(count_chars("\u{1f600}\u{1f600}"), 2);
}

#[test]
fn ascii_bytes_equal_chars() {
    let contents = "plain ASCII text\twith\ttabs\nand lines\n";
    assert_eq!(count_bytes(contents), count_chars(contents));
    assert_eq!(count_bytes(contents), 37);
}

#[test]
fn measuring_twice_agrees() {
    let contents = "alpha beta\ngamma  delta\n\u{3000}epsilon";
    let first = measure(contents);
    let second = measure(contents);
    assert_eq!(first, second);
    assert_eq!(
        first,
        Metrics {
            lines: 3,
            words: 5,
            bytes: 34,
            chars: 32
        }
    );
}

#[test]
fn whitespace_only_has_no_words() {
    let contents = "  \t\n \n";
    assert_eq!(count_words(contents), 0);
    assert_eq!(count_lines(contents), 2);
}

#[test]
fn runs_of_whitespace_separate_words_once() {
    assert_eq!(count_words("  one   two\t\tthree \n four  "), 4);
    assert_eq!(count_words("a\u{a0}b\u{2003}c\u{3000}d\u{85}e"), 5);
    assert_eq!(count_words("word"), 1);
}

#[test]
fn whitespace_test_agrees_with_std() {
    for u in 0u32..=0x10ffff {
        if let Some(c) = char::from_u32(u) {
            assert_eq!(is_whitespace_char(c), c.is_whitespace(), "at U+{:04X}", u);
        }
    }
}

#[test]
fn counts_agree_with_std_iterators() {
    let contents = "Lorem ipsum\r\n dolor \u{2028}sit\n\namet,\u{1f600} consectetur\n";
    assert_eq!(count_lines(contents), contents.lines().count());
    assert_eq!(count_words(contents), contents.split_whitespace().count());
    assert_eq!(count_bytes(contents), contents.bytes().count());
    assert_eq!(count_chars(contents), contents.chars().count());
}
