//! Text as a sequence of characters, and its division into words.

use vstd::prelude::*;

verus! {

/// Whether a character is whitespace: whether Unicode gives it the
/// property `White_Space`, which is what `char::is_whitespace` goes by.
pub open spec fn is_whitespace(c: char) -> bool {
    let code = c as u32;
    ||| 0x09 <= code <= 0x0d
    ||| code == 0x20
    ||| code == 0x85
    ||| code == 0xa0
    ||| code == 0x1680
    ||| 0x2000 <= code <= 0x200a
    ||| code == 0x2028
    ||| code == 0x2029
    ||| code == 0x202f
    ||| code == 0x205f
    ||| code == 0x3000
}

/// Whether a character is whitespace.
pub fn is_whitespace_char(c: char) -> (white: bool)
    ensures
        white == is_whitespace(c),
{
    let code: u32 = c as u32;
    (0x09 <= code && code <= 0x0d) || code == 0x20 || code == 0x85 || code == 0xa0 || code
        == 0x1680 || (0x2000 <= code && code <= 0x200a) || code == 0x2028 || code == 0x2029
        || code == 0x202f || code == 0x205f || code == 0x3000
}

/// The characters of a text, one by one.
pub fn chars_of(text: &str) -> (chars: Vec<char>)
    ensures
        chars@ == text@,
{
    let mut chars: Vec<char> = Vec::new();
    for c in it: text.chars()
        invariant
            it.seq() == text@,
            chars@ == text@.take(it.index() as int),
    {
        chars.push(c);
        assert(text@.take(it.index() + 1) =~= text@.take(it.index() as int).push(c));
    }
    assert(text@.take(text@.len() as int) =~= text@);
    chars
}

/// The number of characters at the start of `text` before its first
/// whitespace, or its end.
pub open spec fn word_len(text: Seq<char>) -> nat
    decreases text.len(),
{
    if text.len() == 0 || is_whitespace(text[0]) {
        0
    } else {
        1 + word_len(text.drop_first())
    }
}

/// A word is no longer than the text, and not empty where the text starts
/// with a character that is no whitespace.
pub proof fn lemma_word_len_bounds(text: Seq<char>)
    ensures
        word_len(text) <= text.len(),
        text.len() > 0 && !is_whitespace(text[0]) ==> word_len(text) >= 1,
    decreases text.len(),
{
    if text.len() > 0 && !is_whitespace(text[0]) {
        lemma_word_len_bounds(text.drop_first());
    }
}

/// The words of a text: its longest stretches without whitespace, in their
/// order. Whitespace of any length parts two words, and whitespace at
/// either end counts for nothing.
pub open spec fn words(text: Seq<char>) -> Seq<Seq<char>>
    decreases text.len(),
{
    if text.len() == 0 {
        Seq::empty()
    } else if is_whitespace(text[0]) {
        words(text.drop_first())
    } else {
        proof {
            lemma_word_len_bounds(text);
        }
        let n = word_len(text) as int;
        seq![text.take(n)] + words(text.skip(n))
    }
}

/// A stretch of `n` characters without whitespace, with whitespace or the
/// end of the text behind it, is the text's first word.
proof fn lemma_word_len_is(text: Seq<char>, n: int)
    requires
        0 <= n <= text.len(),
        forall|j: int| 0 <= j < n ==> !is_whitespace(#[trigger] text[j]),
        n == text.len() || is_whitespace(text[n]),
    ensures
        word_len(text) == n,
    decreases n,
{
    if n > 0 {
        let rest = text.drop_first();
        assert forall|j: int| 0 <= j < n - 1 implies !is_whitespace(#[trigger] rest[j]) by {
            assert(rest[j] == text[j + 1]);
        }
        lemma_word_len_is(rest, n - 1);
    }
}

/// The first word of a text holds no whitespace.
proof fn lemma_first_word_is_solid(text: Seq<char>)
    ensures
        forall|j: int| 0 <= j < word_len(text) ==> !is_whitespace(#[trigger] text[j]),
    decreases text.len(),
{
    if text.len() > 0 && !is_whitespace(text[0]) {
        let rest = text.drop_first();
        lemma_first_word_is_solid(rest);
        lemma_word_len_bounds(text);
        assert(word_len(text) == 1 + word_len(rest));
        assert forall|j: int| 0 <= j < word_len(text) implies !is_whitespace(
            #[trigger] text[j],
        ) by {
            if j > 0 {
                assert(text[j] == rest[j - 1]);
            }
        }
    }
}

/// No word is empty, and no word holds whitespace.
pub proof fn lemma_words_are_solid(text: Seq<char>)
    ensures
        forall|i: int| 0 <= i < words(text).len() ==> (#[trigger] words(text)[i]).len() > 0,
        forall|i: int, j: int|
            0 <= i < words(text).len() && 0 <= j < words(text)[i].len() ==> !is_whitespace(
                #[trigger] words(text)[i][j],
            ),
    decreases text.len(),
{
    if text.len() == 0 {
        assert(words(text).len() == 0);
    } else if is_whitespace(text[0]) {
        lemma_words_are_solid(text.drop_first());
        assert(words(text) == words(text.drop_first()));
    } else {
        lemma_word_len_bounds(text);
        lemma_first_word_is_solid(text);
        let n = word_len(text) as int;
        lemma_words_are_solid(text.skip(n));
        let first = text.take(n);
        let rest = words(text.skip(n));
        let all = words(text);
        assert(all == seq![first] + rest);
        assert(all[0] == first);
        assert forall|i: int| 0 <= i < all.len() implies (#[trigger] all[i]).len() > 0 by {
            if i > 0 {
                assert(all[i] == rest[i - 1]);
            }
        }
        assert forall|i: int, j: int|
            0 <= i < all.len() && 0 <= j < all[i].len() implies !is_whitespace(
            #[trigger] all[i][j],
        ) by {
            if i > 0 {
                assert(all[i] == rest[i - 1]);
                assert(!is_whitespace(rest[i - 1][j]));
            } else {
                assert(first[j] == text[j]);
            }
        }
    }
}

/// A text without whitespace is one word, unless it is empty.
pub proof fn lemma_single_word(text: Seq<char>)
    requires
        text.len() > 0,
        forall|j: int| 0 <= j < text.len() ==> !is_whitespace(#[trigger] text[j]),
    ensures
        words(text) == seq![text],
{
    lemma_word_len_is(text, text.len() as int);
    let n = word_len(text) as int;
    assert(text.take(n) =~= text);
    assert(text.skip(n) =~= Seq::<char>::empty());
    assert(words(text.skip(n)) =~= Seq::<Seq<char>>::empty());
    assert(words(text) == seq![text.take(n)] + words(text.skip(n)));
    assert(words(text) =~= seq![text]);
}

/// The views of a list of words.
pub open spec fn word_views(list: Seq<Vec<char>>) -> Seq<Seq<char>> {
    list.map_values(|w: Vec<char>| w@)
}

/// Divides a text into its words.
pub fn split_words(text: &[char]) -> (list: Vec<Vec<char>>)
    ensures
        word_views(list@) == words(text@),
{
    let n: usize = text.len();
    let mut list: Vec<Vec<char>> = Vec::new();
    let mut i: usize = 0;
    assert(text@.skip(0) =~= text@);
    assert(word_views(list@) =~= Seq::empty());
    while i < n
        invariant
            n == text@.len(),
            i <= n,
            words(text@) == word_views(list@) + words(text@.skip(i as int)),
        decreases n - i,
    {
        let ghost rest = text@.skip(i as int);
        if is_whitespace_char(text[i]) {
            assert(rest.drop_first() =~= text@.skip(i + 1));
            i = i + 1;
        } else {
            let start: usize = i;
            let mut word: Vec<char> = Vec::new();
            while i < n && !is_whitespace_char(text[i])
                invariant
                    n == text@.len(),
                    start <= i <= n,
                    word@ == text@.subrange(start as int, i as int),
                    forall|j: int| start <= j < i ==> !is_whitespace(#[trigger] text@[j]),
                decreases n - i,
            {
                word.push(text[i]);
                i = i + 1;
                assert(word@ =~= text@.subrange(start as int, i as int));
            }
            proof {
                let len = i - start;
                assert forall|j: int| 0 <= j < len implies !is_whitespace(#[trigger] rest[j]) by {
                    assert(rest[j] == text@[start + j]);
                }
                lemma_word_len_is(rest, len);
                assert(rest.take(len) =~= word@);
                assert(rest.skip(len) =~= text@.skip(i as int));
                assert(word_views(list@.push(word)) =~= word_views(list@).push(word@));
                assert(words(rest) == seq![word@] + words(text@.skip(i as int)));
                assert(word_views(list@).push(word@) + words(text@.skip(i as int)) =~= word_views(
                    list@,
                ) + (seq![word@] + words(text@.skip(i as int))));
            }
            list.push(word);
        }
    }
    assert(text@.skip(n as int) =~= Seq::<char>::empty());
    assert(word_views(list@) + Seq::<Seq<char>>::empty() =~= word_views(list@));
    list
}

} // verus!
