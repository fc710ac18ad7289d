use vstd::prelude::*;
use vstd::utf8::{encode_utf8, is_ascii_chars, is_ascii_chars_encode_utf8};

verus! {

/// Number of line-feed characters in `s`.
pub open spec fn newline_count(s: Seq<char>) -> nat
    decreases s.len(),
{
    if s.len() == 0 {
        0
    } else {
        newline_count(s.drop_last()) + if s.last() == '\n' { 1nat } else { 0nat }
    }
}

/// Whether `c` has Unicode's White_Space property (PropList.txt), which is
/// the set `char::is_whitespace` tests.
pub open spec fn is_white_space(c: char) -> bool {
    let u = c as u32;
    (0x9 <= u <= 0xd) || u == 0x20 || u == 0x85 || u == 0xa0 || u == 0x1680 || (0x2000 <= u
        <= 0x200a) || u == 0x2028 || u == 0x2029 || u == 0x202f || u == 0x205f || u == 0x3000
}

/// Whether a word starts at position `i` of `s`: a character that is not
/// white space, at the start or after white space.
pub open spec fn starts_word(s: Seq<char>, i: int) -> bool {
    !is_white_space(s[i]) && (i == 0 || is_white_space(s[i - 1]))
}

/// Number of words of `s`: maximal runs of characters that are not white
/// space, each counted at its first character.
pub open spec fn word_count(s: Seq<char>) -> nat
    decreases s.len(),
{
    if s.len() == 0 {
        0
    } else {
        word_count(s.drop_last()) + if starts_word(s, s.len() - 1) { 1nat } else { 0nat }
    }
}

/// Number of lines of `s`: every line feed ends a line, and a non-empty
/// final segment without a line feed is a line of its own.
pub open spec fn line_count(s: Seq<char>) -> nat {
    if s.len() == 0 || s.last() == '\n' {
        newline_count(s)
    } else {
        newline_count(s) + 1
    }
}

/// The UTF-8 encoding of a character sequence is never shorter than the
/// sequence itself.
pub proof fn lemma_encoding_not_shorter(s: Seq<char>)
    ensures
        encode_utf8(s).len() >= s.len(),
    decreases s.len(),
{
    if s.len() > 0 {
        lemma_encoding_not_shorter(s.drop_first());
    }
}

/// There are never more line feeds than characters.
proof fn lemma_newline_count_bound(s: Seq<char>)
    ensures
        newline_count(s) <= s.len(),
    decreases s.len(),
{
    if s.len() > 0 {
        lemma_newline_count_bound(s.drop_last());
    }
}

/// There are never more words than characters.
proof fn lemma_word_count_bound(s: Seq<char>)
    ensures
        word_count(s) <= s.len(),
    decreases s.len(),
{
    if s.len() > 0 {
        lemma_word_count_bound(s.drop_last());
    }
}

/// Tells white space from other characters, as `char::is_whitespace` does.
pub fn is_whitespace_char(c: char) -> (r: bool)
    ensures
        r == is_white_space(c),
{
    let u = c as u32;
    (0x9 <= u && u <= 0xd) || u == 0x20 || u == 0x85 || u == 0xa0 || u == 0x1680 || (0x2000 <= u
        && u <= 0x200a) || u == 0x2028 || u == 0x2029 || u == 0x202f || u == 0x205f || u == 0x3000
}

/// Counts the bytes of the UTF-8 encoding of `contents`.
pub fn count_bytes(contents: &str) -> (r: usize)
    ensures
        r == encode_utf8(contents@).len(),
{
    contents.as_bytes().len()
}

/// Counts the lines of `contents`, as `str::lines` splits them.
pub fn count_lines(contents: &str) -> (r: usize)
    ensures
        r == line_count(contents@),
{
    let byte_len = count_bytes(contents);
    proof {
        lemma_encoding_not_shorter(contents@);
    }
    let mut n: usize = 0;
    let mut last_is_newline = false;
    for c in it: contents.chars()
        invariant
            it.seq() == contents@,
            contents@.len() <= byte_len,
            n <= it.index(),
            n == newline_count(it.seq().take(it.index())),
            last_is_newline == (it.index() > 0 && it.seq()[it.index() - 1] == '\n'),
    {
        proof {
            let t = it.seq().take(it.index() + 1);
            assert(t.drop_last() =~= it.seq().take(it.index()));
        }
        if c == '\n' {
            n = n + 1;
        }
        last_is_newline = c == '\n';
    }
    assert(contents@.take(contents@.len() as int) =~= contents@);
    if last_is_newline || contents.is_empty() {
        n
    } else {
        proof {
            lemma_newline_count_bound(contents@.drop_last());
        }
        n + 1
    }
}

/// Counts the words of `contents`, as `str::split_whitespace` splits them.
pub fn count_words(contents: &str) -> (r: usize)
    ensures
        r == word_count(contents@),
{
    let byte_len = count_bytes(contents);
    proof {
        lemma_encoding_not_shorter(contents@);
    }
    let mut n: usize = 0;
    let mut prev_white = true;
    for c in it: contents.chars()
        invariant
            it.seq() == contents@,
            contents@.len() <= byte_len,
            n == word_count(it.seq().take(it.index())),
            prev_white == (it.index() == 0 || is_white_space(it.seq()[it.index() - 1])),
    {
        let white = is_whitespace_char(c);
        proof {
            let t = it.seq().take(it.index() + 1);
            assert(t.drop_last() =~= it.seq().take(it.index()));
            lemma_word_count_bound(t);
        }
        if !white && prev_white {
            n = n + 1;
        }
        prev_white = white;
    }
    assert(contents@.take(contents@.len() as int) =~= contents@);
    n
}

/// Counts the characters (Unicode scalar values) of `contents`.
pub fn count_chars(contents: &str) -> (r: usize)
    ensures
        r == contents@.len(),
{
    contents.unicode_len()
}

/// The four counts of one text buffer.
#[derive(Clone, Copy, Debug, PartialEq, Eq, Structural)]
pub struct Metrics {
    pub lines: usize,
    pub words: usize,
    pub bytes: usize,
    pub chars: usize,
}

impl Metrics {
    /// Whether these are the counts of the buffer `s`.
    pub open spec fn describes(self, s: Seq<char>) -> bool {
        &&& self.lines == line_count(s)
        &&& self.words == word_count(s)
        &&& self.bytes == encode_utf8(s).len()
        &&& self.chars == s.len()
    }
}

/// Computes all four counts of `contents`.
pub fn measure(contents: &str) -> (r: Metrics)
    ensures
        r.describes(contents@),
{
    Metrics {
        lines: count_lines(contents),
        words: count_words(contents),
        bytes: count_bytes(contents),
        chars: count_chars(contents),
    }
}

/// No count is negative, and a buffer never has fewer bytes than
/// characters.
pub proof fn lemma_counts_ordered(s: Seq<char>)
    ensures
        line_count(s) >= 0,
        word_count(s) >= 0,
        encode_utf8(s).len() >= s.len(),
{
    lemma_encoding_not_shorter(s);
}

/// The empty buffer has no lines, words, bytes or characters.
pub proof fn lemma_empty_counts(s: Seq<char>)
    requires
        s.len() == 0,
    ensures
        line_count(s) == 0,
        word_count(s) == 0,
        encode_utf8(s).len() == 0,
        s.len() == 0,
{
}

/// A buffer of ASCII characters only has as many bytes as characters.
pub proof fn lemma_ascii_bytes_equal_chars(s: Seq<char>)
    requires
        is_ascii_chars(s),
    ensures
        encode_utf8(s).len() == s.len(),
{
    is_ascii_chars_encode_utf8(s);
}

/// Measuring the same buffer twice gives the same counts.
pub proof fn lemma_measure_deterministic(s: Seq<char>, first: Metrics, second: Metrics)
    requires
        first.describes(s),
        second.describes(s),
    ensures
        first == second,
{
}

} // verus!
