use vstd::prelude::*;

use crate::word::WordPunct;
use crate::{sat_add, saturating_add_count, Count, TermUnit};

verus! {

/// One keystroke as the statistics see it: the character that was aimed at,
/// the character that was pressed, and the duration charged to it (ms).
#[derive(Debug, Clone, Copy, PartialEq, Eq, Structural)]
pub struct KeyPress {
    pub aim: char,
    pub pressed: char,
    pub dur: Count,
}

impl KeyPress {
    pub fn new(aim: char, pressed: char, dur: Count) -> (r: KeyPress)
        ensures
            r == (KeyPress { aim, pressed, dur }),
    {
        KeyPress { aim, pressed, dur }
    }
}

/// One point-in-time speed snapshot: speeds in thousandths of a word per
/// minute, accuracy in parts per ten thousand.
#[derive(Debug, Clone, Copy, PartialEq, Eq, Structural)]
pub struct Stats {
    pub wpm_milli: Count,
    pub raw_milli: Count,
    pub acc_permyriad: Count,
}

/// A typing speed over `chars` characters in `ms` milliseconds, in
/// thousandths of a word per minute, five characters to the word; held at the
/// top of the range when it cannot be represented.
pub open spec fn scaled_rate(chars: nat, ms: nat) -> nat
    recommends
        ms > 0,
{
    let v = (chars * 12_000_000) / ms;
    if v <= Count::MAX {
        v
    } else {
        Count::MAX as nat
    }
}

/// The share of right characters among all judged ones, in parts per ten
/// thousand.
pub open spec fn accuracy_permyriad(right: nat, wrong: nat) -> nat
    recommends
        right + wrong > 0,
{
    (right * 10_000) / (right + wrong)
}

/// The sum of a duration list, each step held at the top of the range.
pub open spec fn sat_sum(s: Seq<Count>) -> nat
    decreases s.len(),
{
    if s.len() == 0 {
        0
    } else {
        sat_add(sat_sum(s.drop_last()), s.last() as nat)
    }
}

/// The cumulative statistics over all finalized words: total character
/// counts, total typed time, and one speed snapshot per finalized word.
#[derive(Debug)]
pub struct Punct {
    pub chars_right: Count,
    pub chars_wrong: Count,
    pub chars_extra: Count,
    pub chars_missed: Count,
    pub stats: Vec<Stats>,
    pub total_time: Count,
    pub size: (TermUnit, TermUnit),
    pub pos: (TermUnit, TermUnit),
}

impl Punct {
    /// An empty aggregate: nothing typed yet, no snapshot taken.
    pub fn new() -> (r: Punct)
        ensures
            r.chars_right == 0,
            r.chars_wrong == 0,
            r.chars_extra == 0,
            r.chars_missed == 0,
            r.stats@.len() == 0,
            r.total_time == 0,
    {
        Punct {
            chars_right: 0,
            chars_wrong: 0,
            chars_extra: 0,
            chars_missed: 0,
            stats: Vec::new(),
            total_time: 0,
            size: (0, 0),
            pos: (0, 0),
        }
    }

    /// A snapshot is owed only once at least one judged keystroke and some
    /// elapsed time exist; before that the formulas are undefined.
    pub open spec fn snapshot_defined(self) -> bool {
        (self.chars_right > 0 || self.chars_wrong > 0) && self.total_time > 0
    }

    /// The snapshot the current totals yield.
    pub open spec fn current_stats(self) -> Stats {
        Stats {
            wpm_milli: scaled_rate(self.chars_right as nat, self.total_time as nat) as Count,
            raw_milli: scaled_rate(
                self.chars_right as nat + self.chars_wrong as nat,
                self.total_time as nat,
            ) as Count,
            acc_permyriad: accuracy_permyriad(
                self.chars_right as nat,
                self.chars_wrong as nat,
            ) as Count,
        }
    }

    /// Computes the point-in-time snapshot from the running totals.
    pub fn calc_stats(&self) -> (r: Stats)
        requires
            self.snapshot_defined(),
        ensures
            r == self.current_stats(),
            r.wpm_milli == scaled_rate(self.chars_right as nat, self.total_time as nat),
            r.raw_milli == scaled_rate(
                self.chars_right as nat + self.chars_wrong as nat,
                self.total_time as nat,
            ),
            r.acc_permyriad == accuracy_permyriad(
                self.chars_right as nat,
                self.chars_wrong as nat,
            ),
    {
        let wpm_milli = rate_milli(self.chars_right, self.total_time);
        let raw: u128 = self.chars_right as u128 + self.chars_wrong as u128;
        let raw_v: u128 = raw * 12_000_000u128 / (self.total_time as u128);
        let raw_milli: Count = if raw_v <= Count::MAX as u128 {
            raw_v as Count
        } else {
            Count::MAX
        };
        let acc: u128 = (self.chars_right as u128) * 10_000u128 / raw;
        proof {
            assert(acc <= 10_000u128) by (nonlinear_arith)
                requires
                    acc == (self.chars_right as u128) * 10_000u128 / (self.chars_right as u128
                        + self.chars_wrong as u128),
                    self.chars_right as u128 + self.chars_wrong as u128 > 0,
            ;
        }
        Stats { wpm_milli, raw_milli, acc_permyriad: acc as Count }
    }

    /// Folds one finalized word's record into the running totals and, once
    /// the formulas are defined, appends the new snapshot.
    pub fn push_punct_word(&mut self, punct_word: &WordPunct)
        ensures
            final(self).chars_right == sat_add(
                old(self).chars_right as nat,
                punct_word.right as nat,
            ),
            final(self).chars_wrong == sat_add(
                old(self).chars_wrong as nat,
                punct_word.wrong as nat,
            ),
            final(self).chars_extra == sat_add(
                old(self).chars_extra as nat,
                punct_word.excess as nat,
            ),
            final(self).chars_missed == sat_add(
                old(self).chars_missed as nat,
                punct_word.missed as nat,
            ),
            final(self).total_time == sat_add(
                old(self).total_time as nat,
                sat_sum(punct_word.key_times@),
            ),
            final(self).snapshot_defined() ==> final(self).stats@ == old(self).stats@.push(
                final(self).current_stats(),
            ),
            !final(self).snapshot_defined() ==> final(self).stats@ == old(self).stats@,
            final(self).size == old(self).size,
            final(self).pos == old(self).pos,
    {
        self.chars_right = saturating_add_count(self.chars_right, punct_word.right);
        self.chars_wrong = saturating_add_count(self.chars_wrong, punct_word.wrong);
        self.chars_extra = saturating_add_count(self.chars_extra, punct_word.excess);
        self.chars_missed = saturating_add_count(self.chars_missed, punct_word.missed);

        let n = punct_word.key_times.len();
        let mut word_time: Count = 0;
        let mut i: usize = 0;
        while i < n
            invariant
                i <= n,
                n == punct_word.key_times@.len(),
                word_time == sat_sum(punct_word.key_times@.take(i as int)),
            decreases n - i,
        {
            proof {
                assert(punct_word.key_times@.take(i + 1).drop_last() =~= punct_word.key_times@.take(
                    i as int,
                ));
            }
            word_time = saturating_add_count(word_time, punct_word.key_times[i]);
            i += 1;
        }
        proof {
            assert(punct_word.key_times@.take(n as int) =~= punct_word.key_times@);
        }
        self.total_time = saturating_add_count(self.total_time, word_time);

        if (self.chars_right > 0 || self.chars_wrong > 0) && self.total_time > 0 {
            let s = self.calc_stats();
            self.stats.push(s);
        }
    }

    /// The totals and the last snapshot, for inspection: right, wrong, extra
    /// and missed counts, then raw speed, speed and accuracy.
    pub fn get_raw_info(&self) -> (r: (Count, Count, Count, Count, Count, Count, Count))
        requires
            self.stats@.len() > 0,
        ensures
            r.0 == self.chars_right,
            r.1 == self.chars_wrong,
            r.2 == self.chars_extra,
            r.3 == self.chars_missed,
            r.4 == self.stats@.last().raw_milli,
            r.5 == self.stats@.last().wpm_milli,
            r.6 == self.stats@.last().acc_permyriad,
    {
        let last = self.stats.len() - 1;
        let s = self.stats[last];
        (
            self.chars_right,
            self.chars_wrong,
            self.chars_extra,
            self.chars_missed,
            s.raw_milli,
            s.wpm_milli,
            s.acc_permyriad,
        )
    }

    pub fn set_size(&mut self, size: (TermUnit, TermUnit))
        ensures
            *final(self) == (Punct { size, ..*old(self) }),
    {
        self.size = size;
    }

    pub fn set_pos(&mut self, pos: (TermUnit, TermUnit))
        ensures
            *final(self) == (Punct { pos, ..*old(self) }),
    {
        self.pos = pos;
    }
}

/// A typing speed in thousandths of a word per minute, computed exactly.
fn rate_milli(chars: Count, ms: Count) -> (r: Count)
    requires
        ms > 0,
    ensures
        r == scaled_rate(chars as nat, ms as nat),
{
    let v: u128 = (chars as u128) * 12_000_000u128 / (ms as u128);
    if v <= Count::MAX as u128 {
        v as Count
    } else {
        Count::MAX
    }
}

/// Law: in a session where every judged keystroke was right, accuracy is
/// exactly one, and the raw speed equals the net speed.
pub proof fn lemma_perfect_session(right: nat, ms: nat)
    requires
        right > 0,
        ms > 0,
    ensures
        accuracy_permyriad(right, 0) == 10_000,
        scaled_rate(right + 0, ms) == scaled_rate(right, ms),
{
    assert(right * 10_000 / (right + 0) == 10_000) by (nonlinear_arith)
        requires
            right > 0,
    ;
}

} // verus!
