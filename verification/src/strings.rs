use vstd::prelude::*;

use crate::char_is_separator;

verus! {

/// A well-formed practice word: non-empty and free of separators.
pub open spec fn is_word(w: Seq<char>) -> bool {
    w.len() > 0 && forall|j: int| 0 <= j < w.len() ==> !char_is_separator(#[trigger] w[j])
}

/// The first position at or after `i` holding a separator, or the end.
pub open spec fn next_sep(s: Seq<char>, i: int) -> int
    decreases s.len() - i,
    when 0 <= i <= s.len()
{
    if i >= s.len() {
        s.len() as int
    } else if char_is_separator(s[i]) {
        i
    } else {
        next_sep(s, i + 1)
    }
}

/// The first position at or after `i` holding a non-separator, or the end.
pub open spec fn next_word_start(s: Seq<char>, i: int) -> int
    decreases s.len() - i,
    when 0 <= i <= s.len()
{
    if i >= s.len() {
        s.len() as int
    } else if char_is_separator(s[i]) {
        next_word_start(s, i + 1)
    } else {
        i
    }
}

pub proof fn lemma_next_sep_props(s: Seq<char>, i: int)
    requires
        0 <= i <= s.len(),
    ensures
        i <= next_sep(s, i) <= s.len(),
        forall|j: int| i <= j < next_sep(s, i) ==> !char_is_separator(#[trigger] s[j]),
        next_sep(s, i) < s.len() ==> char_is_separator(s[next_sep(s, i)]),
    decreases s.len() - i,
{
    if i < s.len() && !char_is_separator(s[i]) {
        lemma_next_sep_props(s, i + 1);
    }
}

pub proof fn lemma_next_word_start_props(s: Seq<char>, i: int)
    requires
        0 <= i <= s.len(),
    ensures
        i <= next_word_start(s, i) <= s.len(),
        forall|j: int| i <= j < next_word_start(s, i) ==> char_is_separator(#[trigger] s[j]),
        next_word_start(s, i) < s.len() ==> !char_is_separator(s[next_word_start(s, i)]),
    decreases s.len() - i,
{
    if i < s.len() && char_is_separator(s[i]) {
        lemma_next_word_start_props(s, i + 1);
    }
}

/// The words of `s` from position `i` on: each maximal separator-free run,
/// in order.
pub open spec fn words_from(s: Seq<char>, i: int) -> Seq<Seq<char>>
    decreases s.len() - i,
    when 0 <= i <= s.len()
    via words_from_decreases
{
    let st = next_word_start(s, i);
    if st >= s.len() {
        Seq::empty()
    } else {
        let e = next_sep(s, st);
        seq![s.subrange(st, e)] + words_from(s, e)
    }
}

#[via_fn]
proof fn words_from_decreases(s: Seq<char>, i: int) {
    lemma_next_word_start_props(s, i);
    let st = next_word_start(s, i);
    if st < s.len() {
        lemma_next_sep_props(s, st);
    }
}

/// A separator at the front changes no word.
proof fn lemma_words_skip_sep(s: Seq<char>, i: int)
    requires
        0 <= i < s.len(),
        char_is_separator(s[i]),
    ensures
        words_from(s, i) == words_from(s, i + 1),
{
    assert(next_word_start(s, i) == next_word_start(s, i + 1));
}

/// From the start of a word, the first word is the run up to the next
/// separator and the rest follow from there.
proof fn lemma_words_at_word(s: Seq<char>, i: int)
    requires
        0 <= i < s.len(),
        !char_is_separator(s[i]),
    ensures
        words_from(s, i) == seq![s.subrange(i, next_sep(s, i))] + words_from(s, next_sep(s, i)),
{
    lemma_next_sep_props(s, i);
    assert(next_word_start(s, i) == i);
}

/// Every word the splitter names is non-empty and separator-free.
pub proof fn lemma_words_from_wf(s: Seq<char>, i: int)
    requires
        0 <= i <= s.len(),
    ensures
        forall|k: int|
            0 <= k < words_from(s, i).len() ==> is_word(#[trigger] words_from(s, i)[k]),
    decreases s.len() - i,
{
    lemma_next_word_start_props(s, i);
    let st = next_word_start(s, i);
    if st < s.len() {
        lemma_next_sep_props(s, st);
        let e = next_sep(s, st);
        let w = s.subrange(st, e);
        assert(is_word(w));
        lemma_words_from_wf(s, e);
        assert forall|k: int|
            0 <= k < words_from(s, i).len() implies is_word(#[trigger] words_from(s, i)[k]) by {
            if k == 0 {
                assert(words_from(s, i)[0] == w);
            } else {
                assert(words_from(s, i)[k] == words_from(s, e)[k - 1]);
            }
        }
    }
}

/// Where the scan stopped is exactly the next separator.
proof fn lemma_scan_is_next_sep(s: Seq<char>, start: int, i: int)
    requires
        0 <= start <= i <= s.len(),
        forall|j: int| start <= j < i ==> !char_is_separator(#[trigger] s[j]),
        i == s.len() || char_is_separator(s[i]),
    ensures
        next_sep(s, start) == i,
    decreases i - start,
{
    if start < i {
        lemma_scan_is_next_sep(s, start + 1, i);
    }
}

/// Splits a text into its words: the maximal runs of non-separator
/// characters, in order.
pub fn split_words(text: &str) -> (r: Vec<String>)
    ensures
        r.deep_view() == words_from(text@, 0),
        forall|k: int| 0 <= k < r@.len() ==> is_word(#[trigger] r.deep_view()[k]),
{
    let n = text.unicode_len();
    let mut out: Vec<String> = Vec::new();
    let mut i: usize = 0;
    while i < n
        invariant
            0 <= i <= n,
            n == text@.len(),
            out.deep_view() + words_from(text@, i as int) == words_from(text@, 0),
        decreases n - i,
    {
        let c = text.get_char(i);
        if crate::is_word_separator(c) {
            proof {
                lemma_words_skip_sep(text@, i as int);
            }
            i += 1;
        } else {
            let start = i;
            i += 1;
            while i < n && !crate::is_word_separator(text.get_char(i))
                invariant
                    0 <= start < i <= n,
                    n == text@.len(),
                    forall|j: int| start <= j < i ==> !char_is_separator(#[trigger] text@[j]),
                decreases n - i,
            {
                i += 1;
            }
            proof {
                lemma_scan_is_next_sep(text@, start as int, i as int);
                lemma_words_at_word(text@, start as int);
            }
            let piece = text.substring_char(start, i);
            let word = piece.to_owned();
            let ghost prev = out.deep_view();
            out.push(word);
            proof {
                assert(out.deep_view() =~= prev.push(word@));
                assert(out.deep_view() + words_from(text@, i as int) =~= prev + words_from(
                    text@,
                    start as int,
                ));
            }
        }
    }
    proof {
        assert(out.deep_view() =~= words_from(text@, 0));
        lemma_words_from_wf(text@, 0);
    }
    out
}

/// Compares two string slices character by character.
pub fn str_eq(a: &str, b: &str) -> (r: bool)
    ensures
        r == (a@ == b@),
{
    let n = a.unicode_len();
    if n != b.unicode_len() {
        proof {
            assert(a@.len() != b@.len());
        }
        return false;
    }
    let mut i: usize = 0;
    while i < n
        invariant
            0 <= i <= n,
            n == a@.len(),
            n == b@.len(),
            forall|j: int| 0 <= j < i ==> a@[j] == b@[j],
        decreases n - i,
    {
        if a.get_char(i) != b.get_char(i) {
            return false;
        }
        i += 1;
    }
    proof {
        assert(a@ =~= b@);
    }
    true
}

/// Joins words into one line, each word followed by a single space.
pub open spec fn joined_with_spaces(words: Seq<Seq<char>>) -> Seq<char>
    decreases words.len(),
{
    if words.len() == 0 {
        Seq::empty()
    } else {
        joined_with_spaces(words.drop_last()) + words.last() + seq![' ']
    }
}

/// Renders a word list as one line, every word followed by a space.
pub fn vec_to_str(vec: &Vec<String>) -> (r: String)
    ensures
        r@ == joined_with_spaces(vec.deep_view()),
{
    let mut string = String::new();
    let n = vec.len();
    let mut i: usize = 0;
    while i < n
        invariant
            0 <= i <= n,
            n == vec@.len(),
            string@ == joined_with_spaces(vec.deep_view().take(i as int)),
        decreases n - i,
    {
        string.append(vec[i].as_str());
        string.append(" ");
        proof {
            reveal_strlit(" ");
            assert(" "@ =~= seq![' ']);
            assert(vec.deep_view().take(i + 1).drop_last() =~= vec.deep_view().take(i as int));
            assert(vec.deep_view().take(i + 1).last() == vec.deep_view()[i as int]);
            assert(string@ =~= joined_with_spaces(vec.deep_view().take(i + 1)));
        }
        i += 1;
    }
    proof {
        assert(vec.deep_view().take(n as int) =~= vec.deep_view());
    }
    string
}

} // verus!
