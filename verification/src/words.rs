//! Splitting a line into the words that whitespace separates.
use vstd::prelude::*;

verus! {

/// The characters with the Unicode `White_Space` property.
pub open spec fn is_whitespace(c: char) -> bool {
    ('\u{9}' <= c && c <= '\u{d}') || c == ' ' || c == '\u{85}' || c == '\u{a0}'
        || c == '\u{1680}' || ('\u{2000}' <= c && c <= '\u{200a}') || c == '\u{2028}'
        || c == '\u{2029}' || c == '\u{202f}' || c == '\u{205f}' || c == '\u{3000}'
}

/// The words of `s`, in order: its maximal runs of characters that are not
/// whitespace.
pub open spec fn split_words(s: Seq<char>) -> Seq<Seq<char>>
    decreases s.len(),
{
    if s.len() == 0 {
        Seq::empty()
    } else {
        let rest = s.drop_last();
        let c = s.last();
        let words = split_words(rest);
        if is_whitespace(c) {
            words
        } else if rest.len() == 0 || is_whitespace(rest.last()) {
            words.push(seq![c])
        } else {
            words.update(words.len() - 1, words.last().push(c))
        }
    }
}

fn is_whitespace_char(c: char) -> (b: bool)
    ensures
        b == is_whitespace(c),
{
    ('\u{9}' <= c && c <= '\u{d}') || c == ' ' || c == '\u{85}' || c == '\u{a0}'
        || c == '\u{1680}' || ('\u{2000}' <= c && c <= '\u{200a}') || c == '\u{2028}'
        || c == '\u{2029}' || c == '\u{202f}' || c == '\u{205f}' || c == '\u{3000}'
}

/// The views of a sequence of string slices.
pub open spec fn views_of(words: Seq<&str>) -> Seq<Seq<char>> {
    words.map_values(|w: &str| w@)
}

/// The words of `s` that whitespace separates, as slices of `s`.
pub fn split_whitespace(s: &str) -> (r: Vec<&str>)
    ensures
        views_of(r@) == split_words(s@),
{
    let n = s.unicode_len();
    let mut out: Vec<&str> = Vec::new();
    let mut start: usize = 0;
    let mut in_word = false;
    let mut i: usize = 0;
    for c in it: s.chars()
        invariant
            it.seq() == s@,
            n == s@.len(),
            i == it.index(),
            i <= n,
            in_word ==> start < i && !is_whitespace(s@[i - 1]),
            in_word ==> views_of(out@).push(s@.subrange(start as int, i as int)) == split_words(s@.take(i as int)),
            !in_word ==> views_of(out@) == split_words(s@.take(i as int)),
            !in_word ==> (i == 0 || is_whitespace(s@[i - 1])),
    {
        let ghost prefix = s@.take(i + 1);
        assert(prefix.drop_last() =~= s@.take(i as int));
        assert(prefix.last() == c);
        if is_whitespace_char(c) {
            if in_word {
                let w = s.substring_char(start, i);
                out.push(w);
                in_word = false;
                assert(views_of(out@) =~= views_of(out@.drop_last()).push(w@));
            }
        } else {
            if !in_word {
                start = i;
                in_word = true;
                assert(s@.subrange(i as int, i + 1) =~= seq![c]);
            } else {
                assert(s@.subrange(start as int, i + 1) =~= s@.subrange(start as int, i as int).push(c));
            }
        }
        i = i + 1;
    }
    assert(s@.take(n as int) =~= s@);
    if in_word {
        let w = s.substring_char(start, n);
        out.push(w);
        assert(views_of(out@) =~= views_of(out@.drop_last()).push(w@));
    }
    out
}

} // verus!
