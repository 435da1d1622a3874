//! Greedy word wrapping.
//!
//! Words are placed on lines, each followed by one space, and a new line is
//! begun whenever the next word would not fit into the width any more. A word
//! is never split: one that is longer than the width stands alone on its line
//! and overflows it.

use crate::tokens::{
    is_separator, is_word, lemma_tokens_are_words, lemma_tokens_concat, lemma_tokens_of_word,
    tokenize, tokens, words_view,
};
use vstd::prelude::*;
use vstd::std_specs::iter::IteratorSpec;

verus! {

/// The character that restarts the width accounting when a word contains it.
pub const FORCED_BREAK: char = '\n';

/// The character written between two lines.
pub const LINE_BREAK: char = '\n';

/// Whether `word` holds the forced-break character.
pub open spec fn has_forced_break(word: Seq<char>) -> bool {
    word.contains(FORCED_BREAK)
}

/// The width counter after `words` have been placed.
///
/// A word that holds the forced-break character is measured against an empty
/// line; any other word against what the words before it have left. Where the
/// word does not fit, the counter restarts with it. Each placed word counts
/// with its trailing space.
pub open spec fn line_size(words: Seq<Seq<char>>, width: nat) -> nat
    decreases words.len(),
{
    if words.len() == 0 {
        0
    } else {
        let word = words.last();
        let carried: nat = if has_forced_break(word) {
            0
        } else {
            line_size(words.drop_last(), width)
        };
        if carried + word.len() > width {
            word.len() + 1
        } else {
            carried + word.len() + 1
        }
    }
}

/// The counter that `word` is measured against when `placed` came before it.
pub open spec fn carried_size(placed: Seq<Seq<char>>, word: Seq<char>, width: nat) -> nat {
    if has_forced_break(word) {
        0
    } else {
        line_size(placed, width)
    }
}

/// Whether a line break goes before `word` when `placed` came before it.
pub open spec fn breaks_before(placed: Seq<Seq<char>>, word: Seq<char>, width: nat) -> bool {
    carried_size(placed, word, width) + word.len() > width
}

/// The lines that `words` are placed on, each line as its words in order.
///
/// No words give no line. The first word opens a line; a break before a word
/// closes the line that is open, even an empty one, and opens the next.
pub open spec fn wrap(words: Seq<Seq<char>>, width: nat) -> Seq<Seq<Seq<char>>>
    decreases words.len(),
{
    if words.len() == 0 {
        Seq::empty()
    } else {
        let placed = words.drop_last();
        let word = words.last();
        let open = open_lines(wrap(placed, width));
        if breaks_before(placed, word, width) {
            open.push(seq![word])
        } else {
            open.update(open.len() - 1, open.last().push(word))
        }
    }
}

/// `lines` with an empty line opened where there is none yet.
pub open spec fn open_lines(lines: Seq<Seq<Seq<char>>>) -> Seq<Seq<Seq<char>>> {
    if lines.len() == 0 {
        seq![Seq::empty()]
    } else {
        lines
    }
}

/// The lines of a text: its words, wrapped.
pub open spec fn layout(text: Seq<char>, width: nat) -> Seq<Seq<Seq<char>>> {
    wrap(tokens(text), width)
}

/// The characters of a line: each word followed by one space.
pub open spec fn line_text(line: Seq<Seq<char>>) -> Seq<char>
    decreases line.len(),
{
    if line.len() == 0 {
        Seq::empty()
    } else {
        line_text(line.drop_last()) + line.last() + seq![' ']
    }
}

/// The width that a line takes: its words and the single spaces between
/// them, without the space that trails the last word.
pub open spec fn line_extent(line: Seq<Seq<char>>) -> nat {
    if line.len() == 0 {
        0
    } else {
        (line_text(line).len() - 1) as nat
    }
}

/// Whether a line keeps to the width, or is a single word that is too long
/// for any line.
pub open spec fn fits(line: Seq<Seq<char>>, width: nat) -> bool {
    line_extent(line) <= width || (line.len() == 1 && line[0].len() > width)
}

/// The characters of all lines, with a line break between two lines.
pub open spec fn stream(lines: Seq<Seq<Seq<char>>>) -> Seq<char>
    decreases lines.len(),
{
    if lines.len() == 0 {
        Seq::empty()
    } else if lines.len() == 1 {
        line_text(lines[0])
    } else {
        stream(lines.drop_last()) + seq![LINE_BREAK] + line_text(lines.last())
    }
}

/// The characters of each line.
pub open spec fn line_texts(lines: Seq<Seq<Seq<char>>>) -> Seq<Seq<char>> {
    Seq::new(lines.len(), |i: int| line_text(lines[i]))
}

/// The first `limit` lines, or all of them where there are fewer.
pub open spec fn clipped(lines: Seq<Seq<Seq<char>>>, limit: nat) -> Seq<Seq<Seq<char>>> {
    if lines.len() <= limit {
        lines
    } else {
        lines.take(limit as int)
    }
}

/// What is written for `words`, word by word: a line break where one goes
/// before the word, then the word, then a space.
pub open spec fn emitted(words: Seq<Seq<char>>, width: nat) -> Seq<char>
    decreases words.len(),
{
    if words.len() == 0 {
        Seq::empty()
    } else {
        let placed = words.drop_last();
        let word = words.last();
        let lead: Seq<char> = if breaks_before(placed, word, width) {
            seq![LINE_BREAK]
        } else {
            Seq::empty()
        };
        emitted(placed, width) + lead + word + seq![' ']
    }
}

/// One line of wrapped text: its words in order.
#[derive(Clone, Debug)]
pub struct WrappedLine {
    pub words: Vec<String>,
}

impl View for WrappedLine {
    type V = Seq<Seq<char>>;

    open spec fn view(&self) -> Seq<Seq<char>> {
        words_view(self.words@)
    }
}

/// What a vector of lines holds.
pub open spec fn lines_view(lines: Seq<WrappedLine>) -> Seq<Seq<Seq<char>>> {
    Seq::new(lines.len(), |i: int| lines[i]@)
}

impl WrappedLine {
    /// The line as it is shown: each word followed by one space.
    pub fn text(&self) -> (out: String)
        ensures
            out@ == line_text(self@),
    {
        let mut out = String::new();
        let mut i: usize = 0;
        while i < self.words.len()
            invariant
                0 <= i <= self.words.len(),
                out@ == line_text(self@.take(i as int)),
            decreases self.words.len() - i,
        {
            proof {
                reveal_strlit(" ");
                assert(self@.take(i + 1).drop_last() == self@.take(i as int));
                assert(" "@ == seq![' ']);
            }
            out.append(self.words[i].as_str());
            out.append(" ");
            i = i + 1;
        }
        assert(self@.take(i as int) == self@);
        out
    }
}

/// Whether `word` holds the forced-break character.
pub fn contains_forced_break(word: &str) -> (found: bool)
    ensures
        found == has_forced_break(word@),
{
    broadcast use vstd::string::group_string_axioms;

    let n = word.unicode_len();
    let mut it = word.chars();
    let mut i: usize = 0;
    loop
        invariant_except_break
            0 <= i <= n == word@.len(),
            it.remaining() == word@.skip(i as int),
            forall|k: int| 0 <= k < i ==> word@[k] != FORCED_BREAK,
        ensures
            i < n ==> word@[i as int] == FORCED_BREAK,
            i >= n ==> forall|k: int| 0 <= k < word@.len() ==> word@[k] != FORCED_BREAK,
            i <= n == word@.len(),
        decreases n - i,
    {
        match it.next() {
            None => {
                break ;
            },
            Some(c) => {
                assert(c == word@[i as int]);
                if c == FORCED_BREAK {
                    break ;
                }
                i = i + 1;
            },
        }
    }
    i < n
}

/// Places `words` on lines of `width` characters.
pub fn wrap_words(words: &Vec<String>, width: usize) -> (lines: Vec<WrappedLine>)
    ensures
        lines_view(lines@) == wrap(words_view(words@), width as nat),
{
    let ghost all = words_view(words@);
    let mut lines: Vec<WrappedLine> = Vec::new();
    let mut current: Vec<String> = Vec::new();
    // `None` stands for a counter beyond every width.
    let mut size: Option<usize> = Some(0);
    let mut i: usize = 0;
    while i < words.len()
        invariant
            0 <= i <= words.len(),
            all == words_view(words@),
            match size {
                Some(s) => s == line_size(all.take(i as int), width as nat),
                None => line_size(all.take(i as int), width as nat) > usize::MAX,
            },
            i == 0 ==> lines@.len() == 0 && current@.len() == 0,
            i > 0 ==> lines_view(lines@).push(words_view(current@)) == wrap(
                all.take(i as int),
                width as nat,
            ),
        decreases words.len() - i,
    {
        let word = &words[i];
        let len = word.as_str().unicode_len();
        let ghost placed = all.take(i as int);
        let ghost before = lines_view(lines@);
        let ghost line = words_view(current@);
        proof {
            assert(all.take(i + 1).drop_last() == placed);
            assert(all.take(i + 1).last() == word@);
            assert(open_lines(wrap(placed, width as nat)) == before.push(line)) by {
                if i == 0 {
                    assert(line =~= Seq::<Seq<char>>::empty());
                    assert(before.push(line) =~= seq![Seq::<Seq<char>>::empty()]);
                    assert(wrap(placed, width as nat).len() == 0);
                }
            }
        }
        let carried = if contains_forced_break(word.as_str()) {
            Some(0)
        } else {
            size
        };
        let breaks = match carried {
            Some(s) => s > width || len > width - s,
            None => true,
        };
        assert(breaks == breaks_before(placed, word@, width as nat));
        if breaks {
            lines.push(WrappedLine { words: current });
            current = Vec::new();
            current.push(word.clone());
            size = len.checked_add(1);
            proof {
                assert(lines_view(lines@) == before.push(line));
                assert(words_view(current@) == seq![word@]);
            }
        } else {
            current.push(word.clone());
            size = match carried {
                Some(s) => match s.checked_add(len) {
                    Some(t) => t.checked_add(1),
                    None => None,
                },
                None => None,
            };
            proof {
                assert(words_view(current@) == line.push(word@));
                assert(before.push(line).update(before.len() as int, line.push(word@))
                    == before.push(line.push(word@)));
            }
        }
        i = i + 1;
    }
    proof {
        assert(all.take(i as int) == all);
    }
    if i > 0 {
        lines.push(WrappedLine { words: current });
    }
    lines
}

/// Cuts `text` into words and places them on lines of `width` characters.
///
/// Every line keeps to the width, but for a line that is one word too long
/// for any line.
pub fn layout_text(text: &str, width: usize) -> (lines: Vec<WrappedLine>)
    ensures
        lines_view(lines@) == layout(text@, width as nat),
        forall|i: int| 0 <= i < lines@.len() ==> fits(#[trigger] lines@[i]@, width as nat),
{
    let words = tokenize(text);
    let lines = wrap_words(&words, width);
    proof {
        lemma_layout_fits(text@, width as nat);
        assert forall|i: int| 0 <= i < lines@.len() implies fits(
            #[trigger] lines@[i]@,
            width as nat,
        ) by {
            assert(lines@[i]@ == lines_view(lines@)[i]);
        }
    }
    lines
}

/// Writes `lines` out as one text, with a line break between two lines.
pub fn render(lines: &Vec<WrappedLine>) -> (out: String)
    ensures
        out@ == stream(lines_view(lines@)),
{
    let ghost all = lines_view(lines@);
    let mut out = String::new();
    let mut i: usize = 0;
    while i < lines.len()
        invariant
            0 <= i <= lines.len(),
            all == lines_view(lines@),
            out@ == stream(all.take(i as int)),
        decreases lines.len() - i,
    {
        proof {
            reveal_strlit("\n");
            assert("\n"@ == seq![LINE_BREAK]);
            assert(all.take(i + 1).drop_last() == all.take(i as int));
            assert(all.take(i + 1).last() == lines@[i as int]@);
        }
        if i > 0 {
            out.append("\n");
        }
        let line = lines[i].text();
        out.append(line.as_str());
        i = i + 1;
    }
    assert(all.take(i as int) == all);
    out
}

/// Wraps `text` to `width` characters and writes the result out as one text:
/// word by word, a line break where the word does not fit, the word, a space.
pub fn render_text(text: &str, width: usize) -> (out: String)
    ensures
        out@ == emitted(tokens(text@), width as nat),
        out@ == stream(layout(text@, width as nat)),
{
    let lines = layout_text(text, width);
    proof {
        lemma_stream_is_emitted(tokens(text@), width as nat);
    }
    render(&lines)
}

/// A line that takes one more word grows by that word and its space.
pub proof fn lemma_line_text_push(line: Seq<Seq<char>>, word: Seq<char>)
    ensures
        line_text(line.push(word)) == line_text(line) + word + seq![' '],
        line_text(line.push(word)).len() == line_text(line).len() + word.len() + 1,
{
    assert(line.push(word).drop_last() == line);
}

/// Words without a forced break are wrapped into lines that keep to the
/// width, but for lines of one word that is too long for any line. The width
/// counter then is the length of the last line.
pub proof fn lemma_wrap_fits(words: Seq<Seq<char>>, width: nat)
    requires
        forall|i: int| 0 <= i < words.len() ==> !has_forced_break(#[trigger] words[i]),
    ensures
        forall|i: int|
            0 <= i < wrap(words, width).len() ==> fits(#[trigger] wrap(words, width)[i], width),
        words.len() > 0 ==> wrap(words, width).len() > 0 && line_size(words, width) == line_text(
            wrap(words, width).last(),
        ).len(),
        words.len() == 0 <==> wrap(words, width).len() == 0,
    decreases words.len(),
{
    if words.len() > 0 {
        let placed = words.drop_last();
        let word = words.last();
        lemma_wrap_fits(placed, width);
        let open = open_lines(wrap(placed, width));
        let lines = wrap(words, width);
        assert(line_text(open.last()).len() == line_size(placed, width));
        assert forall|i: int| 0 <= i < open.len() implies fits(#[trigger] open[i], width) by {
            if placed.len() > 0 {
                assert(open[i] == wrap(placed, width)[i]);
            }
        }
        if breaks_before(placed, word, width) {
            lemma_line_text_push(Seq::empty(), word);
            assert(seq![word] == Seq::<Seq<char>>::empty().push(word));
            assert(fits(seq![word], width));
            assert forall|i: int| 0 <= i < lines.len() implies fits(#[trigger] lines[i], width) by {
                if i < open.len() {
                    assert(lines[i] == open[i]);
                }
            }
        } else {
            lemma_line_text_push(open.last(), word);
            let last = open.last().push(word);
            assert(line_extent(last) <= width);
            assert forall|i: int| 0 <= i < lines.len() implies fits(#[trigger] lines[i], width) by {
                if i < open.len() - 1 {
                    assert(lines[i] == open[i]);
                }
            }
        }
    }
}

/// The words of any text are wrapped into lines that keep to the width, but
/// for lines of one word that is too long for any line.
pub proof fn lemma_layout_fits(text: Seq<char>, width: nat)
    ensures
        forall|i: int|
            0 <= i < layout(text, width).len() ==> fits(#[trigger] layout(text, width)[i], width),
        layout(text, width).len() == 0 <==> tokens(text).len() == 0,
{
    let words = tokens(text);
    lemma_tokens_are_words(text, 0);
    assert forall|i: int| 0 <= i < words.len() implies !has_forced_break(#[trigger] words[i]) by {
        lemma_word_has_no_forced_break(words[i]);
    }
    lemma_wrap_fits(words, width);
}

/// A word, which holds no separator, holds no forced break.
pub proof fn lemma_word_has_no_forced_break(word: Seq<char>)
    requires
        is_word(word),
    ensures
        !has_forced_break(word),
{
    if has_forced_break(word) {
        let k = choose|k: int| 0 <= k < word.len() && word[k] == FORCED_BREAK;
        assert(is_separator(word[k]));
    }
}

/// The lines of a text, each written out and joined by line breaks, are what
/// is written word by word.
pub proof fn lemma_stream_is_emitted(words: Seq<Seq<char>>, width: nat)
    ensures
        stream(wrap(words, width)) == emitted(words, width),
    decreases words.len(),
{
    if words.len() > 0 {
        let placed = words.drop_last();
        let word = words.last();
        lemma_stream_is_emitted(placed, width);
        let open = open_lines(wrap(placed, width));
        let lines = wrap(words, width);
        assert(stream(open) == emitted(placed, width));
        if breaks_before(placed, word, width) {
            lemma_line_text_push(Seq::empty(), word);
            assert(seq![word] == Seq::<Seq<char>>::empty().push(word));
            assert(lines.drop_last() == open);
            assert(stream(lines) == stream(open) + seq![LINE_BREAK] + line_text(seq![word]));
            assert(stream(lines) == emitted(words, width));
        } else {
            lemma_line_text_push(open.last(), word);
            if open.len() == 1 {
                assert(stream(lines) == emitted(words, width));
            } else {
                assert(lines.drop_last() == open.drop_last());
                assert(stream(lines) == emitted(words, width));
            }
        }
    }
}

/// What is written for words is empty or ends in a space, and cut into words
/// again it gives the words that were written.
pub proof fn lemma_tokens_of_emitted(words: Seq<Seq<char>>, width: nat)
    requires
        forall|i: int| 0 <= i < words.len() ==> is_word(#[trigger] words[i]),
    ensures
        tokens(emitted(words, width)) == words,
        emitted(words, width).len() == 0 || emitted(words, width).last() == ' ',
    decreases words.len(),
{
    if words.len() == 0 {
        assert(tokens(Seq::<char>::empty()) == Seq::<Seq<char>>::empty());
    } else {
        let placed = words.drop_last();
        let word = words.last();
        lemma_tokens_of_emitted(placed, width);
        let before = emitted(placed, width);
        let lead: Seq<char> = if breaks_before(placed, word, width) {
            seq![LINE_BREAK]
        } else {
            Seq::empty()
        };
        let written = lead + word + seq![' '];
        assert(emitted(words, width) == before + written);
        lemma_tokens_of_word(lead, word);
        lemma_tokens_concat(before, written, 0);
        assert(placed + seq![word] == words);
    }
}

/// Wrapping is stable: the text that is written for a layout has that same
/// layout, and is written as that same text.
pub proof fn lemma_layout_is_stable(text: Seq<char>, width: nat)
    ensures
        layout(stream(layout(text, width)), width) == layout(text, width),
        stream(layout(stream(layout(text, width)), width)) == stream(layout(text, width)),
{
    lemma_tokens_are_words(text, 0);
    lemma_stream_is_emitted(tokens(text), width);
    lemma_tokens_of_emitted(tokens(text), width);
}

/// Wrapping has no memory: the same words under the same width give the same
/// lines and the same written text, however often they are wrapped.
pub proof fn lemma_wrap_is_repeatable(
    first: Seq<Seq<Seq<char>>>,
    second: Seq<Seq<Seq<char>>>,
    text: Seq<char>,
    width: nat,
)
    requires
        first == layout(text, width),
        second == layout(text, width),
    ensures
        first == second,
        stream(first) == stream(second),
{
}

/// A word that holds the forced break restarts the width counter, whatever
/// came before it: after it the counter is the word's length and its space.
pub proof fn lemma_forced_break_restarts(placed: Seq<Seq<char>>, word: Seq<char>, width: nat)
    requires
        has_forced_break(word),
    ensures
        line_size(placed.push(word), width) == word.len() + 1,
        breaks_before(placed, word, width) <==> word.len() > width,
{
    assert(placed.push(word).drop_last() == placed);
}

} // verus!
