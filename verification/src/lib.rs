//! The engine of a terminal typing trainer: word sources, the per-word
//! typing state machine, the viewport-bounded word buffer with its line
//! layout, the statistics aggregator, and the session state machine that
//! drives them tick by tick. Terminal input and output stay outside; the
//! engine takes plain events and hands back what to paint.

use vstd::prelude::*;

pub mod buffer;
pub mod cli;
pub mod config;
pub mod dictionary;
pub mod engine;
pub mod frames;
pub mod modes;
pub mod punctuation;
pub mod strings;
pub mod textbox;
pub mod word;

verus! {

/// A count of characters, keystrokes or milliseconds.
pub type Count = u64;

/// A terminal coordinate or width, as the terminal reports it.
pub type TermUnit = u16;

/// An index into a collection of words or characters.
pub type Idx = usize;

/// The most extra characters one word accepts past its own length; keystrokes
/// beyond it are dropped as input anomalies so the width arithmetic stays in
/// range.
pub const MAX_EXTRA_CHARS: u64 = 0xFFFF_FFFF;

/// True for the characters that separate two words, while typing and when a
/// backing text is split: the Unicode whitespace code points.
pub fn is_word_separator(c: char) -> (r: bool)
    ensures
        r == char_is_separator(c),
{
    c == ' ' || ('\u{9}' <= c && c <= '\u{d}') || c == '\u{85}' || c == '\u{a0}'
        || c == '\u{1680}' || ('\u{2000}' <= c && c <= '\u{200a}') || c == '\u{2028}'
        || c == '\u{2029}' || c == '\u{202f}' || c == '\u{205f}' || c == '\u{3000}'
}

/// The separator characters, at the specification level: the Unicode
/// whitespace code points.
pub open spec fn char_is_separator(c: char) -> bool {
    c == ' ' || ('\u{9}' <= c && c <= '\u{d}') || c == '\u{85}' || c == '\u{a0}'
        || c == '\u{1680}' || ('\u{2000}' <= c && c <= '\u{200a}') || c == '\u{2028}'
        || c == '\u{2029}' || c == '\u{202f}' || c == '\u{205f}' || c == '\u{3000}'
}

/// Addition on `u64` that stops at the top of the range instead of wrapping.
pub open spec fn sat_add(a: nat, b: nat) -> nat {
    if a + b <= Count::MAX {
        a + b
    } else {
        Count::MAX as nat
    }
}

/// Millisecond durations add without wrapping: a sum past the range is held
/// at the maximum.
pub fn saturating_add_count(a: Count, b: Count) -> (r: Count)
    ensures
        r == sat_add(a as nat, b as nat),
{
    if a <= Count::MAX - b {
        a + b
    } else {
        Count::MAX
    }
}

} // verus!
