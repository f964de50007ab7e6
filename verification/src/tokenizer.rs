//! Splitting a line into its argument vector.

use crate::text::{chars_of, is_space, is_whitespace, string_of};
use vstd::prelude::*;

verus! {

/// The end of the word that covers position `from` of `s`: the index of the
/// first white space character at or after `from`, or the length of `s` where
/// there is none.
pub open spec fn word_end(s: Seq<char>, from: int) -> int
    decreases s.len() - from,
{
    if 0 <= from < s.len() && !is_space(s[from]) {
        word_end(s, from + 1)
    } else {
        from
    }
}

/// `word_end` never moves backwards, stays inside the sequence, passes only
/// characters that are not white space, and stops at white space or at the end.
pub proof fn lemma_word_end(s: Seq<char>, from: int)
    requires
        0 <= from <= s.len(),
    ensures
        from <= word_end(s, from) <= s.len(),
        forall|k: int| from <= k < word_end(s, from) ==> !is_space(#[trigger] s[k]),
        word_end(s, from) < s.len() ==> is_space(s[word_end(s, from)]),
    decreases s.len() - from,
{
    if from < s.len() && !is_space(s[from]) {
        lemma_word_end(s, from + 1);
    }
}

/// The tokens of `s` that start at or after position `from`: white space is
/// passed over, and each maximal run of other characters is one token.
pub open spec fn tokens_from(s: Seq<char>, from: int) -> Seq<Seq<char>>
    decreases s.len() - from,
{
    if from < 0 || from >= s.len() {
        Seq::empty()
    } else if is_space(s[from]) {
        tokens_from(s, from + 1)
    } else {
        let end = word_end(s, from);
        proof {
            lemma_word_end(s, from + 1);
        }
        seq![s.subrange(from, end)] + tokens_from(s, end)
    }
}

/// The argument vector of a line: its maximal runs of characters that are not
/// white space, in the order in which they stand in the line.
pub open spec fn tokens(s: Seq<char>) -> Seq<Seq<char>> {
    tokens_from(s, 0)
}

/// Every token that starts at or after `from` is a word: it is not empty and
/// holds no white space.
pub proof fn lemma_tokens_from_are_words(s: Seq<char>, from: int, k: int)
    requires
        0 <= from <= s.len(),
        0 <= k < tokens_from(s, from).len(),
    ensures
        tokens_from(s, from)[k].len() > 0,
        forall|j: int| 0 <= j < tokens_from(s, from)[k].len() ==> !is_space(tokens_from(s, from)[k][j]),
    decreases s.len() - from,
{
    if from < s.len() {
        if is_space(s[from]) {
            lemma_tokens_from_are_words(s, from + 1, k);
        } else {
            lemma_word_end(s, from);
            let end = word_end(s, from);
            assert(end > from);
            if k > 0 {
                lemma_tokens_from_are_words(s, end, k - 1);
            }
        }
    }
}

/// Every token of a line is a word: it is not empty and holds no white space.
pub proof fn lemma_tokens_are_words(s: Seq<char>, k: int)
    requires
        0 <= k < tokens(s).len(),
    ensures
        tokens(s)[k].len() > 0,
        forall|j: int| 0 <= j < tokens(s)[k].len() ==> !is_space(tokens(s)[k][j]),
{
    lemma_tokens_from_are_words(s, 0, k);
}

/// From position `from` on, `s` has no token exactly when it holds nothing
/// but white space there.
pub proof fn lemma_no_tokens_from_iff_blank(s: Seq<char>, from: int)
    requires
        0 <= from <= s.len(),
    ensures
        tokens_from(s, from).len() == 0 <==> forall|i: int|
            from <= i < s.len() ==> is_space(#[trigger] s[i]),
    decreases s.len() - from,
{
    if from < s.len() {
        if is_space(s[from]) {
            lemma_no_tokens_from_iff_blank(s, from + 1);
        } else {
            assert(!is_space(s[from]));
        }
    }
}

/// A line has no token exactly when it is blank: empty, or white space only.
pub proof fn lemma_no_tokens_iff_blank(s: Seq<char>)
    ensures
        tokens(s).len() == 0 <==> forall|i: int| 0 <= i < s.len() ==> is_space(#[trigger] s[i]),
{
    lemma_no_tokens_from_iff_blank(s, 0);
}

/// A word is its own single token.
pub proof fn lemma_tokens_of_word(word: Seq<char>)
    requires
        word.len() > 0,
        forall|j: int| 0 <= j < word.len() ==> !is_space(word[j]),
    ensures
        tokens(word) == seq![word],
{
    lemma_word_end(word, 0);
    assert(word_end(word, 0) == word.len());
    assert(word.subrange(0, word.len() as int) =~= word);
    assert(tokens_from(word, word.len() as int) =~= Seq::<Seq<char>>::empty());
    assert(seq![word] + Seq::<Seq<char>>::empty() =~= seq![word]);
}

/// In front of white space a word ends where it would end if the line
/// stopped there.
proof fn lemma_word_end_in_prefix(head: Seq<char>, tail: Seq<char>, from: int)
    requires
        0 <= from <= head.len(),
        tail.len() > 0,
        is_space(tail[0]),
    ensures
        word_end(head + tail, from) == word_end(head, from),
    decreases head.len() - from,
{
    let s = head + tail;
    if from < head.len() {
        assert(s[from] == head[from]);
        if !is_space(head[from]) {
            lemma_word_end_in_prefix(head, tail, from + 1);
        }
    } else {
        assert(s[from] == tail[0]);
    }
}

/// Behind a prefix a word ends where it ends in the rest of the line, moved
/// by the length of the prefix.
proof fn lemma_word_end_in_suffix(head: Seq<char>, tail: Seq<char>, from: int)
    requires
        0 <= from <= tail.len(),
    ensures
        word_end(head + tail, head.len() + from) == head.len() + word_end(tail, from),
    decreases tail.len() - from,
{
    let s = head + tail;
    if from < tail.len() {
        assert(s[head.len() + from] == tail[from]);
        if !is_space(tail[from]) {
            lemma_word_end_in_suffix(head, tail, from + 1);
        }
    }
}

/// The tokens in front of white space are those of the line cut there,
/// followed by the tokens from the white space on.
proof fn lemma_tokens_in_prefix(head: Seq<char>, tail: Seq<char>, from: int)
    requires
        0 <= from <= head.len(),
        tail.len() > 0,
        is_space(tail[0]),
    ensures
        tokens_from(head + tail, from) == tokens_from(head, from) + tokens_from(
            head + tail,
            head.len() as int,
        ),
    decreases head.len() - from,
{
    let s = head + tail;
    let rest = tokens_from(s, head.len() as int);
    if from < head.len() {
        assert(s[from] == head[from]);
        if is_space(head[from]) {
            lemma_tokens_in_prefix(head, tail, from + 1);
        } else {
            lemma_word_end_in_prefix(head, tail, from);
            lemma_word_end(head, from);
            let end = word_end(head, from);
            lemma_tokens_in_prefix(head, tail, end);
            assert(s.subrange(from, end) =~= head.subrange(from, end));
            assert(seq![head.subrange(from, end)] + (tokens_from(head, end) + rest) =~= (
            seq![head.subrange(from, end)] + tokens_from(head, end)) + rest);
        }
    } else {
        assert(tokens_from(head, from) + rest =~= rest);
    }
}

/// The tokens behind a prefix are those of the rest of the line.
proof fn lemma_tokens_in_suffix(head: Seq<char>, tail: Seq<char>, from: int)
    requires
        0 <= from <= tail.len(),
    ensures
        tokens_from(head + tail, head.len() + from) == tokens_from(tail, from),
    decreases tail.len() - from,
{
    let s = head + tail;
    if from < tail.len() {
        assert(s[head.len() + from] == tail[from]);
        if is_space(tail[from]) {
            lemma_tokens_in_suffix(head, tail, from + 1);
        } else {
            lemma_word_end_in_suffix(head, tail, from);
            lemma_word_end(tail, from);
            let end = word_end(tail, from);
            lemma_tokens_in_suffix(head, tail, end);
            assert(s.subrange(head.len() + from, head.len() + end) =~= tail.subrange(from, end));
        }
    }
}

/// White space separates: the tokens of two texts with a white space
/// character between them are the tokens of the first followed by the tokens
/// of the second. With `lemma_tokens_of_word` and the empty line, which has
/// no token, this settles the tokens of every line.
pub proof fn lemma_tokens_of_separated(left: Seq<char>, separator: char, right: Seq<char>)
    requires
        is_space(separator),
    ensures
        tokens(left + seq![separator] + right) == tokens(left) + tokens(right),
{
    let head = left + seq![separator];
    let s = head + right;
    assert(s =~= left + (seq![separator] + right));
    lemma_tokens_in_prefix(left, seq![separator] + right, 0);
    assert(s[left.len() as int] == separator);
    assert(tokens_from(s, left.len() as int) == tokens_from(s, left.len() as int + 1));
    lemma_tokens_in_suffix(head, right, 0);
}

/// Splits `line` into its white-space-separated tokens. White space at either
/// end gives no token, so an empty or blank line gives an empty vector.
pub fn tokenize(line: &str) -> (argv: Vec<String>)
    ensures
        argv.deep_view() == tokens(line@),
{
    let chars = chars_of(line);
    let n = chars.len();
    let mut argv: Vec<String> = Vec::new();
    let mut i: usize = 0;
    while i < n
        invariant
            n == chars.len(),
            chars@ == line@,
            i <= n,
            tokens(line@) == argv.deep_view() + tokens_from(line@, i as int),
        decreases n - i,
    {
        if is_whitespace(chars[i]) {
            i += 1;
        } else {
            let start = i;
            while i < n && !is_whitespace(chars[i])
                invariant
                    n == chars.len(),
                    chars@ == line@,
                    start <= i <= n,
                    word_end(line@, start as int) == word_end(line@, i as int),
                decreases n - i,
            {
                i += 1;
            }
            let token = string_of(&chars, start, i);
            let ghost before = argv.deep_view();
            argv.push(token);
            proof {
                assert(argv.deep_view() =~= before.push(line@.subrange(start as int, i as int)));
                assert(before + tokens_from(line@, start as int) =~= argv.deep_view()
                    + tokens_from(line@, i as int));
            }
        }
    }
    proof {
        assert(argv.deep_view() + tokens_from(line@, n as int) =~= argv.deep_view());
    }
    argv
}

} // verus!
