//! Words: the runs of a text between white space.

use vstd::prelude::*;
use vstd::string::{StrSliceExecFns, StringExecFns};

verus! {

/// Whether a character is white space: one of the code points that have the
/// Unicode property `White_Space`.
pub open spec fn is_white_space(c: char) -> bool {
    let code = c as u32;
    ||| 0x09 <= code <= 0x0d
    ||| code == 0x20
    ||| code == 0x85
    ||| code == 0xa0
    ||| code == 0x1680
    ||| 0x2000 <= code <= 0x200a
    ||| code == 0x2028
    ||| code == 0x2029
    ||| code == 0x202f
    ||| code == 0x205f
    ||| code == 0x3000
}

/// Whether a character is white space.
pub fn is_whitespace(c: char) -> (white: bool)
    ensures
        white == is_white_space(c),
{
    let code = c as u32;
    (0x09 <= code && code <= 0x0d) || code == 0x20 || code == 0x85 || code == 0xa0 || code
        == 0x1680 || (0x2000 <= code && code <= 0x200a) || code == 0x2028 || code == 0x2029
        || code == 0x202f || code == 0x205f || code == 0x3000
}

/// The word that a text ends in: its longest tail without white space.
pub open spec fn last_run(text: Seq<char>) -> Seq<char>
    decreases text.len(),
{
    if text.len() == 0 || is_white_space(text.last()) {
        Seq::empty()
    } else {
        last_run(text.drop_last()).push(text.last())
    }
}

/// The words of a text that are followed by white space, in order.
pub open spec fn closed_words(text: Seq<char>) -> Seq<Seq<char>>
    decreases text.len(),
{
    if text.len() == 0 {
        Seq::empty()
    } else if is_white_space(text.last()) && last_run(text.drop_last()).len() > 0 {
        closed_words(text.drop_last()).push(last_run(text.drop_last()))
    } else {
        closed_words(text.drop_last())
    }
}

/// The words of a text, in order: its longest runs of characters that are
/// not white space.
pub open spec fn words_of(text: Seq<char>) -> Seq<Seq<char>> {
    if last_run(text).len() > 0 {
        closed_words(text).push(last_run(text))
    } else {
        closed_words(text)
    }
}

/// The run that a text ends in is a tail of it, without white space, and is
/// as long as that allows: it reaches to the start or to a white space.
pub proof fn lemma_last_run(text: Seq<char>)
    ensures
        last_run(text).len() <= text.len(),
        last_run(text) == text.subrange(text.len() - last_run(text).len(), text.len() as int),
        forall|i: int| 0 <= i < last_run(text).len() ==> !is_white_space(#[trigger] last_run(text)[i]),
        last_run(text).len() < text.len() ==> is_white_space(
            text[text.len() - last_run(text).len() - 1],
        ),
    decreases text.len(),
{
    if text.len() > 0 && !is_white_space(text.last()) {
        let init = text.drop_last();
        lemma_last_run(init);
        let run = last_run(text);
        assert(run =~= text.subrange(text.len() - run.len(), text.len() as int));
        if run.len() < text.len() {
            assert(text[text.len() - run.len() - 1] == init[init.len() - last_run(init).len() - 1]);
        }
    } else {
        assert(last_run(text) =~= text.subrange(text.len() as int, text.len() as int));
    }
}

/// Whether a run of characters is a word: it has a character, and none of
/// its characters is white space.
pub open spec fn is_word(run: Seq<char>) -> bool {
    run.len() > 0 && forall|i: int| 0 <= i < run.len() ==> !is_white_space(#[trigger] run[i])
}

/// Every word of a text is a word.
pub proof fn lemma_words_are_words(text: Seq<char>)
    ensures
        forall|k: int| 0 <= k < words_of(text).len() ==> is_word(#[trigger] words_of(text)[k]),
{
    lemma_closed_words_are_words(text);
    lemma_last_run(text);
    assert forall|k: int| 0 <= k < words_of(text).len() implies is_word(
        #[trigger] words_of(text)[k],
    ) by {
        if k < closed_words(text).len() {
            assert(words_of(text)[k] == closed_words(text)[k]);
        } else {
            assert(words_of(text)[k] == last_run(text));
        }
    }
}

proof fn lemma_closed_words_are_words(text: Seq<char>)
    ensures
        forall|k: int|
            0 <= k < closed_words(text).len() ==> is_word(#[trigger] closed_words(text)[k]),
    decreases text.len(),
{
    if text.len() > 0 {
        let init = text.drop_last();
        lemma_closed_words_are_words(init);
        lemma_last_run(init);
        assert forall|k: int| 0 <= k < closed_words(text).len() implies is_word(
            #[trigger] closed_words(text)[k],
        ) by {
            if k < closed_words(init).len() {
                assert(closed_words(text)[k] == closed_words(init)[k]);
            } else {
                assert(closed_words(text)[k] == last_run(init));
            }
        }
    }
}

/// The characters of a text, in order.
pub fn chars_of(text: &str) -> (chars: Vec<char>)
    ensures
        chars@ == text@,
{
    let mut chars: Vec<char> = Vec::new();
    for c in it: text.chars()
        invariant
            it.seq() == text@,
            chars@ == text@.take(it.index() as int),
    {
        chars.push(c);
        assert(text@.take(it.index() + 1) =~= text@.take(it.index() as int).push(c));
    }
    assert(text@.take(text@.len() as int) =~= text@);
    chars
}

/// The words of a list of strings, each as what it denotes.
pub open spec fn texts_of(words: Seq<String>) -> Seq<Seq<char>> {
    words.map_values(|word: String| word@)
}

/// Splits a text into its words.
pub fn split_whitespace(text: &str) -> (words: Vec<String>)
    ensures
        texts_of(words@) == words_of(text@),
{
    let chars = chars_of(text);
    let mut words: Vec<String> = Vec::new();
    let mut start: usize = 0;
    let mut i: usize = 0;
    assert(texts_of(words@) =~= closed_words(text@.take(0)));
    assert(last_run(text@.take(0)) =~= text@.subrange(0, 0));
    while i < chars.len()
        invariant
            chars@ == text@,
            start <= i <= chars.len(),
            texts_of(words@) == closed_words(text@.take(i as int)),
            last_run(text@.take(i as int)) == text@.subrange(start as int, i as int),
        decreases chars.len() - i,
    {
        let ghost upto = text@.take(i + 1);
        let ghost before = words@;
        proof {
            assert(upto.drop_last() =~= text@.take(i as int));
            assert(upto.last() == text@[i as int]);
        }
        if is_whitespace(chars[i]) {
            if start < i {
                words.push(String::from_str(text.substring_char(start, i)));
                assert(texts_of(words@) =~= texts_of(before).push(
                    text@.subrange(start as int, i as int),
                ));
            }
            start = i + 1;
            assert(last_run(upto) =~= text@.subrange(start as int, i + 1));
        } else {
            assert(last_run(upto) =~= text@.subrange(start as int, i + 1));
        }
        i += 1;
    }
    assert(text@.take(i as int) =~= text@);
    if start < i {
        let ghost before = words@;
        words.push(String::from_str(text.substring_char(start, i)));
        assert(texts_of(words@) =~= texts_of(before).push(text@.subrange(start as int, i as int)));
    }
    words
}

/// The first word of a text, if it has one.
pub fn first_word(text: &str) -> (word: Option<String>)
    ensures
        match word {
            Some(word) => words_of(text@).len() > 0 && word@ == words_of(text@)[0],
            None => words_of(text@).len() == 0,
        },
{
    let mut words = split_whitespace(text);
    if words.len() > 0 {
        assert(texts_of(words@)[0] == words@[0]@);
        Some(words.swap_remove(0))
    } else {
        assert(texts_of(words@).len() == 0);
        None
    }
}

} // verus!
