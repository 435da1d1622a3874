//! Cutting a text into words.
//!
//! A word is a maximal run of characters that are not ASCII whitespace.

use vstd::prelude::*;
use vstd::std_specs::iter::IteratorSpec;

verus! {

/// Whether `c` separates words: one of the five ASCII whitespace characters.
pub open spec fn is_separator(c: char) -> bool {
    c == ' ' || c == '\t' || c == '\n' || c == '\x0C' || c == '\r'
}

/// The end of the word that starts at `from`: the index of the next separator
/// at or after `from`, or the length of `s` if there is none.
pub open spec fn word_end(s: Seq<char>, from: int) -> int
    decreases s.len() - from,
{
    if from < 0 || from >= s.len() || is_separator(s[from]) {
        from
    } else {
        word_end(s, from + 1)
    }
}

/// The words of `s` that start at or after `from`, in order.
pub open spec fn tokens_from(s: Seq<char>, from: int) -> Seq<Seq<char>>
    decreases s.len() - from,
{
    if from < 0 || from >= s.len() {
        Seq::empty()
    } else if is_separator(s[from]) {
        tokens_from(s, from + 1)
    } else {
        proof {
            lemma_word_end_bounds(s, from);
        }
        seq![s.subrange(from, word_end(s, from))] + tokens_from(s, word_end(s, from))
    }
}

/// The words of `s`: its maximal runs of characters that are not separators.
pub open spec fn tokens(s: Seq<char>) -> Seq<Seq<char>> {
    tokens_from(s, 0)
}

/// Whether `word` is not empty and holds no separator.
pub open spec fn is_word(word: Seq<char>) -> bool {
    word.len() > 0 && forall|k: int| 0 <= k < word.len() ==> !is_separator(#[trigger] word[k])
}

/// A word ends at or after its start and inside the text, and it is not empty.
pub proof fn lemma_word_end_bounds(s: Seq<char>, from: int)
    requires
        0 <= from <= s.len(),
    ensures
        from <= word_end(s, from) <= s.len(),
        from < s.len() && !is_separator(s[from]) ==> from < word_end(s, from),
        word_end(s, from) < s.len() ==> is_separator(s[word_end(s, from)]),
        forall|k: int| from <= k < word_end(s, from) ==> !is_separator(#[trigger] s[k]),
    decreases s.len() - from,
{
    if from < s.len() && !is_separator(s[from]) {
        lemma_word_end_bounds(s, from + 1);
    }
}

/// A run of non-separators from `start` that stops at `end` is the word at `start`.
pub proof fn lemma_word_end_is(s: Seq<char>, start: int, end: int)
    requires
        0 <= start <= end <= s.len(),
        forall|k: int| start <= k < end ==> !is_separator(#[trigger] s[k]),
        end == s.len() || is_separator(s[end]),
    ensures
        word_end(s, start) == end,
    decreases end - start,
{
    if start < end {
        lemma_word_end_is(s, start + 1, end);
    }
}

/// Every word of a text is non-empty and free of separators.
pub proof fn lemma_tokens_are_words(s: Seq<char>, from: int)
    requires
        0 <= from <= s.len(),
    ensures
        forall|i: int|
            0 <= i < tokens_from(s, from).len() ==> is_word(#[trigger] tokens_from(s, from)[i]),
    decreases s.len() - from,
{
    let all = tokens_from(s, from);
    if from >= s.len() {
        assert(all.len() == 0);
    } else if is_separator(s[from]) {
        lemma_tokens_are_words(s, from + 1);
        assert(all == tokens_from(s, from + 1));
    } else {
        lemma_word_end_bounds(s, from);
        let end = word_end(s, from);
        lemma_tokens_are_words(s, end);
        let first = s.subrange(from, end);
        let rest = tokens_from(s, end);
        assert(all == seq![first] + rest);
        assert(is_word(first)) by {
            assert forall|k: int| 0 <= k < first.len() implies !is_separator(
                #[trigger] first[k],
            ) by {
                assert(first[k] == s[from + k]);
            }
        }
        assert forall|i: int| 0 <= i < all.len() implies is_word(#[trigger] all[i]) by {
            if i > 0 {
                assert(all[i] == rest[i - 1]);
            } else {
                assert(all[i] == first);
            }
        }
    }
}

/// Behind a text `a`, the words of `b` end where they end in `b` alone.
pub proof fn lemma_word_end_shift(a: Seq<char>, b: Seq<char>, from: int)
    requires
        0 <= from <= b.len(),
    ensures
        word_end(a + b, a.len() + from) == a.len() + word_end(b, from),
    decreases b.len() - from,
{
    if from < b.len() {
        assert((a + b)[a.len() + from] == b[from]);
        if !is_separator(b[from]) {
            lemma_word_end_shift(a, b, from + 1);
        }
    }
}

/// Behind a text `a`, the words of `b` are those of `b` alone.
pub proof fn lemma_tokens_shift(a: Seq<char>, b: Seq<char>, from: int)
    requires
        0 <= from <= b.len(),
    ensures
        tokens_from(a + b, a.len() + from) == tokens_from(b, from),
    decreases b.len() - from,
{
    if from < b.len() {
        assert((a + b)[a.len() + from] == b[from]);
        if is_separator(b[from]) {
            lemma_tokens_shift(a, b, from + 1);
        } else {
            lemma_word_end_bounds(b, from);
            lemma_word_end_shift(a, b, from);
            let end = word_end(b, from);
            lemma_tokens_shift(a, b, end);
            assert((a + b).subrange(a.len() + from, a.len() + end) == b.subrange(from, end));
        }
    }
}

/// In a text `a` that ends in a separator, the words end where they end
/// whatever follows the text.
pub proof fn lemma_word_end_prefix(a: Seq<char>, b: Seq<char>, from: int)
    requires
        0 <= from < a.len(),
        is_separator(a.last()),
    ensures
        word_end(a + b, from) == word_end(a, from),
        word_end(a, from) < a.len(),
    decreases a.len() - from,
{
    assert((a + b)[from] == a[from]);
    if !is_separator(a[from]) {
        lemma_word_end_prefix(a, b, from + 1);
    }
}

/// The words of a text `a` that is empty or ends in a separator, followed
/// by a text `b`, are the words of `a` and then those of `b`.
pub proof fn lemma_tokens_concat(a: Seq<char>, b: Seq<char>, from: int)
    requires
        0 <= from <= a.len(),
        a.len() == 0 || is_separator(a.last()),
    ensures
        tokens_from(a + b, from) == tokens_from(a, from) + tokens(b),
    decreases a.len() - from,
{
    if from == a.len() {
        lemma_tokens_shift(a, b, 0);
        assert(tokens_from(a, from) + tokens(b) == tokens(b));
    } else {
        assert((a + b)[from] == a[from]);
        if is_separator(a[from]) {
            lemma_tokens_concat(a, b, from + 1);
        } else {
            lemma_word_end_prefix(a, b, from);
            lemma_word_end_bounds(a, from);
            let end = word_end(a, from);
            lemma_tokens_concat(a, b, end);
            let first = seq![a.subrange(from, end)];
            assert((a + b).subrange(from, end) == a.subrange(from, end));
            assert(first + (tokens_from(a, end) + tokens(b)) == (first + tokens_from(a, end))
                + tokens(b));
        }
    }
}

/// A word between separators, or at the start of a text, is the one word of
/// that text.
pub proof fn lemma_tokens_of_word(lead: Seq<char>, word: Seq<char>)
    requires
        is_word(word),
        lead.len() == 0 || (lead.len() == 1 && is_separator(lead[0])),
    ensures
        tokens(lead + word + seq![' ']) == seq![word],
{
    let text = word + seq![' '];
    assert forall|k: int| 0 <= k < word.len() implies !is_separator(#[trigger] text[k]) by {
        assert(text[k] == word[k]);
    }
    let end = word.len() as int;
    assert(is_separator(text[end]));
    lemma_word_end_is(text, 0, end);
    assert(text.subrange(0, end) == word);
    assert(tokens_from(text, end) == tokens_from(text, end + 1));
    assert(tokens_from(text, end + 1) == Seq::<Seq<char>>::empty());
    assert(tokens(text) == seq![word]);
    lemma_tokens_concat(lead, text, 0);
    if lead.len() == 1 {
        assert(tokens_from(lead, 0) == tokens_from(lead, 1));
    }
    assert(tokens_from(lead, 0) == Seq::<Seq<char>>::empty());
    assert(lead + word + seq![' '] == lead + text);
}

/// What a vector of strings holds, as sequences of characters.
pub open spec fn words_view(words: Seq<String>) -> Seq<Seq<char>> {
    Seq::new(words.len(), |i: int| words[i]@)
}

/// Executable test for [`is_separator`].
pub fn separates(c: char) -> (b: bool)
    ensures
        b == is_separator(c),
{
    c == ' ' || c == '\t' || c == '\n' || c == '\x0C' || c == '\r'
}

/// Cuts `text` into its words.
///
/// The scan is a single pass; each word is then copied out of `text`, which
/// walks the text up to the word's end.
pub fn tokenize(text: &str) -> (words: Vec<String>)
    ensures
        words_view(words@) == tokens(text@),
{
    broadcast use vstd::string::group_string_axioms;

    let n = text.unicode_len();
    let mut words: Vec<String> = Vec::new();
    let mut it = text.chars();
    let mut start: usize = 0;
    let mut i: usize = 0;
    assert(words_view(words@) + tokens_from(text@, 0) == tokens(text@));
    loop
        invariant_except_break
            0 <= start <= i <= n == text@.len(),
            it.remaining() == text@.skip(i as int),
            forall|k: int| start <= k < i ==> !is_separator(#[trigger] text@[k]),
            words_view(words@) + tokens_from(text@, start as int) == tokens(text@),
        ensures
            words_view(words@) == tokens(text@),
        decreases n - i,
    {
        let ghost before = words_view(words@);
        match it.next() {
            None => {
                assert(i == n);
                if start < i {
                    proof {
                        lemma_word_end_is(text@, start as int, i as int);
                    }
                    let word = String::from_str(text.substring_char(start, i));
                    words.push(word);
                    assert(words_view(words@) == before + seq![
                        text@.subrange(start as int, i as int),
                    ]);
                    assert(tokens_from(text@, i as int) == Seq::<Seq<char>>::empty());
                }
                assert(words_view(words@) == tokens(text@));
                break ;
            },
            Some(c) => {
                assert(i < n);
                assert(c == text@[i as int]);
                if separates(c) {
                    let ghost rest = tokens_from(text@, i + 1);
                    assert(tokens_from(text@, i as int) == rest);
                    if start < i {
                        proof {
                            lemma_word_end_is(text@, start as int, i as int);
                        }
                        let ghost found = seq![text@.subrange(start as int, i as int)];
                        let word = String::from_str(text.substring_char(start, i));
                        words.push(word);
                        assert(words_view(words@) == before + found);
                        assert(tokens_from(text@, start as int) == found + rest);
                        assert(before + (found + rest) == (before + found) + rest);
                    }
                    i = i + 1;
                    start = i;
                } else {
                    i = i + 1;
                }
            },
        }
    }
    words
}

} // verus!
