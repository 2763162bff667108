use vstd::prelude::*;

use crate::{sat_add, saturating_add_count, Count, Idx, TermUnit, MAX_EXTRA_CHARS};

verus! {

/// How one character slot of a word stands: already typed right or wrong,
/// under the cursor, or not yet reached.
#[derive(Debug, Clone, Copy, PartialEq, Eq, Structural)]
pub enum CharState {
    Right,
    Wrong,
    Selected,
    Unreached,
}

/// One character slot of a word: the expected character and its state.
#[derive(Debug, Clone, Copy, PartialEq, Eq, Structural)]
pub struct MecanoChar {
    pub c: char,
    pub state: CharState,
}

/// The classification of a whole word: selected while being typed, and
/// Right or Wrong once finalized.
#[derive(Debug, Clone, Copy, PartialEq, Eq, Structural)]
pub enum WordState {
    Right,
    Wrong,
    Unreached,
    Selected,
}

/// The per-word score record: counters for every kind of keystroke and the
/// list of inter-keystroke durations, in milliseconds.
#[derive(Debug, Clone, PartialEq)]
pub struct WordPunct {
    pub total: Count,
    pub right: Count,
    pub wrong: Count,
    pub excess: Count,
    pub missed: Count,
    pub state: WordState,
    pub key_times: Vec<Count>,
}

/// One practice word under typing: its slots, the overflow characters typed
/// past its end, the cursor, and its score record.
pub struct MecanoWord {
    pub word: Vec<MecanoChar>,
    pub excess: Vec<char>,
    pub select_char_idx: Idx,
    pub punct: WordPunct,
}

/// How many slots of `s` are in state `st`.
pub open spec fn count_state(s: Seq<MecanoChar>, st: CharState) -> nat
    decreases s.len(),
{
    if s.len() == 0 {
        0
    } else {
        count_state(s.drop_last(), st) + if s.last().state == st {
            1nat
        } else {
            0nat
        }
    }
}

/// What the duration list becomes on a deletion: the last two records merge
/// into one, or the sole record goes.
pub open spec fn merged_key_times(s: Seq<Count>) -> Seq<Count> {
    if s.len() >= 2 {
        s.take(s.len() - 2).push(sat_add(s[s.len() - 2] as nat, s[s.len() - 1] as nat) as Count)
    } else {
        Seq::empty()
    }
}

proof fn lemma_count_le(s: Seq<MecanoChar>, st: CharState)
    ensures
        count_state(s, st) <= s.len(),
    decreases s.len(),
{
    if s.len() > 0 {
        lemma_count_le(s.drop_last(), st);
    }
}

proof fn lemma_count_update(s: Seq<MecanoChar>, i: int, x: MecanoChar, st: CharState)
    requires
        0 <= i < s.len(),
    ensures
        count_state(s.update(i, x), st) + (if s[i].state == st {
            1nat
        } else {
            0nat
        }) == count_state(s, st) + (if x.state == st {
            1nat
        } else {
            0nat
        }),
    decreases s.len(),
{
    let t = s.update(i, x);
    if i == s.len() - 1 {
        assert(t.drop_last() =~= s.drop_last());
    } else {
        assert(t.drop_last() =~= s.drop_last().update(i, x));
        lemma_count_update(s.drop_last(), i, x, st);
    }
}

proof fn lemma_count_zero_of_none(s: Seq<MecanoChar>, st: CharState)
    requires
        forall|i: int| 0 <= i < s.len() ==> (#[trigger] s[i]).state != st,
    ensures
        count_state(s, st) == 0,
    decreases s.len(),
{
    if s.len() > 0 {
        let d = s.drop_last();
        assert(forall|i: int| 0 <= i < d.len() ==> (#[trigger] d[i]) == s[i]);
        lemma_count_zero_of_none(d, st);
        assert(s.last() == s[s.len() - 1]);
    }
}

proof fn lemma_none_of_count_zero(s: Seq<MecanoChar>, st: CharState)
    requires
        count_state(s, st) == 0,
    ensures
        forall|i: int| 0 <= i < s.len() ==> (#[trigger] s[i]).state != st,
    decreases s.len(),
{
    if s.len() > 0 {
        let d = s.drop_last();
        lemma_none_of_count_zero(d, st);
        assert forall|i: int| 0 <= i < s.len() implies (#[trigger] s[i]).state != st by {
            if i < s.len() - 1 {
                assert(d[i] == s[i]);
            } else {
                assert(s[i] == s.last());
            }
        }
    }
}

proof fn lemma_count_pos(s: Seq<MecanoChar>, st: CharState, i: int)
    requires
        0 <= i < s.len(),
        s[i].state == st,
    ensures
        count_state(s, st) >= 1,
    decreases s.len(),
{
    if i == s.len() - 1 {
        assert(s[i] == s.last());
    } else {
        assert(s.drop_last()[i] == s[i]);
        lemma_count_pos(s.drop_last(), st, i);
    }
}

/// Over a disciplined word, the Right and Wrong slots are exactly those
/// before the cursor.
proof fn lemma_counts_prefix(s: Seq<MecanoChar>, cur: int)
    requires
        0 <= cur <= s.len(),
        forall|i: int|
            0 <= i < cur ==> ((#[trigger] s[i]).state == CharState::Right || s[i].state
                == CharState::Wrong),
        forall|i: int|
            cur <= i < s.len() ==> ((#[trigger] s[i]).state != CharState::Right && s[i].state
                != CharState::Wrong),
    ensures
        count_state(s, CharState::Right) + count_state(s, CharState::Wrong) == cur,
    decreases s.len(),
{
    if s.len() > 0 {
        let d = s.drop_last();
        assert(forall|i: int| 0 <= i < d.len() ==> (#[trigger] d[i]) == s[i]);
        if cur == s.len() {
            lemma_counts_prefix(d, cur - 1);
        } else {
            lemma_counts_prefix(d, cur);
        }
    }
}

impl MecanoWord {
    /// The cursor, as a mathematical index.
    pub open spec fn cursor(self) -> int {
        self.select_char_idx as int
    }

    /// The word length, as a mathematical count of slots.
    pub open spec fn len(self) -> int {
        self.word@.len() as int
    }

    /// A finalized word: its classification is frozen as Right or Wrong.
    pub open spec fn finalized(self) -> bool {
        self.punct.state == WordState::Right || self.punct.state == WordState::Wrong
    }

    /// The slot states respect the cursor: typed slots before it, untouched
    /// slots after it, and at most the cursor slot selected.
    pub open spec fn slots_disciplined(self) -> bool {
        &&& forall|i: int|
            0 <= i < self.cursor() ==> ((#[trigger] self.word@[i]).state == CharState::Right
                || self.word@[i].state == CharState::Wrong)
        &&& forall|i: int|
            self.cursor() < i < self.len() ==> (#[trigger] self.word@[i]).state
                == CharState::Unreached
        &&& (self.cursor() < self.len() ==> (self.word@[self.cursor()].state == CharState::Selected
            || self.word@[self.cursor()].state == CharState::Unreached))
    }

    /// The word's internal invariant: counters agree with the slots, the
    /// cursor stays in range, and a finalized word carries its missed count.
    pub open spec fn wf(self) -> bool {
        &&& self.word@.len() <= TermUnit::MAX as nat
        &&& self.select_char_idx <= self.word@.len()
        &&& self.punct.total == self.word@.len()
        &&& self.punct.excess == self.excess@.len()
        &&& self.excess@.len() <= MAX_EXTRA_CHARS
        &&& self.punct.right == count_state(self.word@, CharState::Right)
        &&& self.punct.wrong == count_state(self.word@, CharState::Wrong)
        &&& self.slots_disciplined()
        &&& (self.finalized() ==> {
            &&& self.punct.missed == self.len() - self.cursor()
            &&& (self.cursor() < self.len() ==> self.word@[self.cursor()].state
                == CharState::Unreached)
        })
        &&& (!self.finalized() ==> self.punct.missed == 0)
    }

    /// Builds a fresh word from its text: every slot unreached, the cursor at
    /// the start, the score record zeroed.
    pub fn from_str(word_str: &str) -> (r: MecanoWord)
        requires
            word_str@.len() <= TermUnit::MAX as nat,
        ensures
            r.wf(),
            !r.finalized(),
            r.punct.state == WordState::Unreached,
            r.word@.len() == word_str@.len(),
            forall|i: int|
                0 <= i < word_str@.len() ==> (#[trigger] r.word@[i]) == (MecanoChar {
                    c: word_str@[i],
                    state: CharState::Unreached,
                }),
            r.excess@.len() == 0,
            r.select_char_idx == 0,
            r.punct.right == 0,
            r.punct.wrong == 0,
            r.punct.excess == 0,
            r.punct.missed == 0,
            r.punct.total == word_str@.len(),
            r.punct.key_times@.len() == 0,
    {
        let n = word_str.unicode_len();
        let mut word: Vec<MecanoChar> = Vec::new();
        let mut i: usize = 0;
        while i < n
            invariant
                n == word_str@.len(),
                i <= n,
                word@.len() == i,
                forall|j: int|
                    0 <= j < i ==> (#[trigger] word@[j]) == (MecanoChar {
                        c: word_str@[j],
                        state: CharState::Unreached,
                    }),
            decreases n - i,
        {
            let c = word_str.get_char(i);
            word.push(MecanoChar { c, state: CharState::Unreached });
            i += 1;
        }
        proof {
            lemma_count_zero_of_none(word@, CharState::Right);
            lemma_count_zero_of_none(word@, CharState::Wrong);
        }
        let mut punct = WordPunct::default();
        punct.total = n as Count;
        MecanoWord { word, excess: Vec::new(), select_char_idx: 0, punct }
    }

    /// One non-separator keystroke: judge the slot under the cursor and
    /// advance, or append to the overflow once the word is consumed.
    pub fn type_char(&mut self, c: char)
        requires
            old(self).wf(),
            !old(self).finalized(),
            old(self).cursor() == old(self).len() ==> old(self).excess@.len() < MAX_EXTRA_CHARS,
        ensures
            final(self).wf(),
            final(self).punct.state == old(self).punct.state,
            final(self).punct.key_times == old(self).punct.key_times,
            final(self).punct.missed == old(self).punct.missed,
            final(self).punct.total == old(self).punct.total,
            (old(self).cursor() < old(self).len() ==> {
                &&& final(self).select_char_idx == old(self).select_char_idx + 1
                &&& final(self).excess == old(self).excess
                &&& final(self).punct.excess == old(self).punct.excess
                &&& final(self).word@.len() == old(self).word@.len()
                &&& forall|i: int|
                    0 <= i < old(self).len() && i != old(self).cursor() && i != old(self).cursor()
                        + 1 ==> (#[trigger] final(self).word@[i]) == old(self).word@[i]
                &&& final(self).word@[old(self).cursor()].c == old(self).word@[old(self).cursor()].c
                &&& (old(self).word@[old(self).cursor()].c == c ==> {
                    &&& final(self).word@[old(self).cursor()].state == CharState::Right
                    &&& final(self).punct.right == old(self).punct.right + 1
                    &&& final(self).punct.wrong == old(self).punct.wrong
                })
                &&& (old(self).word@[old(self).cursor()].c != c ==> {
                    &&& final(self).word@[old(self).cursor()].state == CharState::Wrong
                    &&& final(self).punct.wrong == old(self).punct.wrong + 1
                    &&& final(self).punct.right == old(self).punct.right
                })
                &&& (old(self).cursor() + 1 < old(self).len() ==> final(self).word@[old(self).cursor() + 1] == (MecanoChar {
                    c: old(self).word@[old(self).cursor() + 1].c,
                    state: CharState::Selected,
                }))
            }),
            (old(self).cursor() == old(self).len() ==> {
                &&& final(self).word == old(self).word
                &&& final(self).select_char_idx == old(self).select_char_idx
                &&& final(self).excess@ == old(self).excess@.push(c)
                &&& final(self).punct.excess == old(self).punct.excess + 1
                &&& final(self).punct.right == old(self).punct.right
                &&& final(self).punct.wrong == old(self).punct.wrong
            }),
    {
        proof {
            lemma_count_le(self.word@, CharState::Right);
            lemma_count_le(self.word@, CharState::Wrong);
        }
        let len = self.word.len();
        if self.select_char_idx < len {
            let idx = self.select_char_idx;
            let target = self.word[idx].c;
            if target == c {
                proof {
                    lemma_count_update(
                        self.word@,
                        idx as int,
                        MecanoChar { c: target, state: CharState::Right },
                        CharState::Right,
                    );
                    lemma_count_update(
                        self.word@,
                        idx as int,
                        MecanoChar { c: target, state: CharState::Right },
                        CharState::Wrong,
                    );
                }
                self.word[idx] = MecanoChar { c: target, state: CharState::Right };
                self.punct.right = self.punct.right + 1;
            } else {
                proof {
                    lemma_count_update(
                        self.word@,
                        idx as int,
                        MecanoChar { c: target, state: CharState::Wrong },
                        CharState::Right,
                    );
                    lemma_count_update(
                        self.word@,
                        idx as int,
                        MecanoChar { c: target, state: CharState::Wrong },
                        CharState::Wrong,
                    );
                }
                self.word[idx] = MecanoChar { c: target, state: CharState::Wrong };
                self.punct.wrong = self.punct.wrong + 1;
            }
            self.select_char_idx = idx + 1;
            if idx + 1 < len {
                let c2 = self.word[idx + 1].c;
                proof {
                    lemma_count_update(
                        self.word@,
                        idx + 1,
                        MecanoChar { c: c2, state: CharState::Selected },
                        CharState::Right,
                    );
                    lemma_count_update(
                        self.word@,
                        idx + 1,
                        MecanoChar { c: c2, state: CharState::Selected },
                        CharState::Wrong,
                    );
                }
                self.word[idx + 1] = MecanoChar { c: c2, state: CharState::Selected };
            }
        } else {
            self.excess.push(c);
            self.punct.excess = self.punct.excess + 1;
        }
    }

    /// Records the duration attributed to the last accepted keystroke.
    pub fn push_duration(&mut self, d: Count)
        ensures
            final(self).word == old(self).word,
            final(self).excess == old(self).excess,
            final(self).select_char_idx == old(self).select_char_idx,
            final(self).punct.total == old(self).punct.total,
            final(self).punct.right == old(self).punct.right,
            final(self).punct.wrong == old(self).punct.wrong,
            final(self).punct.excess == old(self).punct.excess,
            final(self).punct.missed == old(self).punct.missed,
            final(self).punct.state == old(self).punct.state,
            final(self).punct.key_times@ == old(self).punct.key_times@.push(d),
            old(self).wf() ==> final(self).wf(),
    {
        self.punct.key_times.push(d);
    }

    /// One backspace: merge the last two durations, then take back either the
    /// last overflow character or the last judged slot; with nothing typed the
    /// slots stay as they are.
    pub fn delete(&mut self)
        requires
            old(self).wf(),
            !old(self).finalized(),
        ensures
            final(self).wf(),
            final(self).punct.state == old(self).punct.state,
            final(self).punct.missed == old(self).punct.missed,
            final(self).punct.total == old(self).punct.total,
            final(self).punct.key_times@ == merged_key_times(old(self).punct.key_times@),
            (old(self).excess@.len() > 0 ==> {
                &&& final(self).excess@ == old(self).excess@.drop_last()
                &&& final(self).punct.excess == old(self).punct.excess - 1
                &&& final(self).word == old(self).word
                &&& final(self).select_char_idx == old(self).select_char_idx
                &&& final(self).punct.right == old(self).punct.right
                &&& final(self).punct.wrong == old(self).punct.wrong
            }),
            (old(self).excess@.len() == 0 && old(self).cursor() > 0 ==> {
                &&& final(self).excess == old(self).excess
                &&& final(self).punct.excess == old(self).punct.excess
                &&& final(self).select_char_idx == old(self).select_char_idx - 1
                &&& final(self).word@.len() == old(self).word@.len()
                &&& forall|i: int|
                    0 <= i < old(self).len() && i != old(self).cursor() && i != old(self).cursor()
                        - 1 ==> (#[trigger] final(self).word@[i]) == old(self).word@[i]
                &&& final(self).word@[old(self).cursor() - 1] == (MecanoChar {
                    c: old(self).word@[old(self).cursor() - 1].c,
                    state: CharState::Selected,
                })
                &&& (old(self).cursor() < old(self).len() ==> final(self).word@[old(self).cursor()] == (MecanoChar {
                    c: old(self).word@[old(self).cursor()].c,
                    state: CharState::Unreached,
                }))
                &&& (old(self).word@[old(self).cursor() - 1].state == CharState::Right ==> {
                    &&& final(self).punct.right == old(self).punct.right - 1
                    &&& final(self).punct.wrong == old(self).punct.wrong
                })
                &&& (old(self).word@[old(self).cursor() - 1].state == CharState::Wrong ==> {
                    &&& final(self).punct.wrong == old(self).punct.wrong - 1
                    &&& final(self).punct.right == old(self).punct.right
                })
            }),
            (old(self).excess@.len() == 0 && old(self).cursor() == 0 ==> {
                &&& final(self).excess == old(self).excess
                &&& final(self).punct.excess == old(self).punct.excess
                &&& final(self).word == old(self).word
                &&& final(self).select_char_idx == old(self).select_char_idx
                &&& final(self).punct.right == old(self).punct.right
                &&& final(self).punct.wrong == old(self).punct.wrong
            }),
    {
        let kt_len = self.punct.key_times.len();
        if kt_len >= 2 {
            let a = self.punct.key_times[kt_len - 2];
            let b = self.punct.key_times[kt_len - 1];
            let merged = saturating_add_count(a, b);
            let _ = self.punct.key_times.pop();
            self.punct.key_times[kt_len - 2] = merged;
            proof {
                assert(self.punct.key_times@ =~= merged_key_times(old(self).punct.key_times@));
            }
        } else if kt_len == 1 {
            let _ = self.punct.key_times.pop();
            proof {
                assert(self.punct.key_times@ =~= merged_key_times(old(self).punct.key_times@));
            }
        } else {
            proof {
                assert(self.punct.key_times@ =~= merged_key_times(old(self).punct.key_times@));
            }
        }

        if self.excess.len() > 0 {
            let _ = self.excess.pop();
            self.punct.excess = self.punct.excess - 1;
        } else if self.select_char_idx > 0 {
            let idx = self.select_char_idx - 1;
            let prev = self.word[idx];
            if prev.state == CharState::Right {
                proof {
                    lemma_count_pos(self.word@, CharState::Right, idx as int);
                }
                self.punct.right = self.punct.right - 1;
            } else if prev.state == CharState::Wrong {
                proof {
                    lemma_count_pos(self.word@, CharState::Wrong, idx as int);
                }
                self.punct.wrong = self.punct.wrong - 1;
            }
            if self.select_char_idx < self.word.len() {
                let cur = self.select_char_idx;
                let ch = self.word[cur].c;
                proof {
                    lemma_count_update(
                        self.word@,
                        cur as int,
                        MecanoChar { c: ch, state: CharState::Unreached },
                        CharState::Right,
                    );
                    lemma_count_update(
                        self.word@,
                        cur as int,
                        MecanoChar { c: ch, state: CharState::Unreached },
                        CharState::Wrong,
                    );
                }
                self.word[cur] = MecanoChar { c: ch, state: CharState::Unreached };
            }
            proof {
                lemma_count_update(
                    self.word@,
                    idx as int,
                    MecanoChar { c: prev.c, state: CharState::Selected },
                    CharState::Right,
                );
                lemma_count_update(
                    self.word@,
                    idx as int,
                    MecanoChar { c: prev.c, state: CharState::Selected },
                    CharState::Wrong,
                );
            }
            self.word[idx] = MecanoChar { c: prev.c, state: CharState::Selected };
            self.select_char_idx = idx;
        }
    }

    /// The columns this word takes on screen: its slots plus its overflow.
    pub fn total_chars(&self) -> (r: Count)
        requires
            self.wf(),
        ensures
            r == self.word@.len() + self.excess@.len(),
    {
        self.word.len() as Count + self.punct.excess
    }

    /// Marks the word as the one being typed, with its cursor slot selected.
    pub fn select(&mut self)
        requires
            old(self).wf(),
            !old(self).finalized(),
        ensures
            final(self).wf(),
            final(self).punct.state == WordState::Selected,
            !final(self).finalized(),
            final(self).select_char_idx == old(self).select_char_idx,
            final(self).excess == old(self).excess,
            final(self).punct.right == old(self).punct.right,
            final(self).punct.wrong == old(self).punct.wrong,
            final(self).punct.excess == old(self).punct.excess,
            final(self).punct.missed == old(self).punct.missed,
            final(self).punct.total == old(self).punct.total,
            final(self).punct.key_times == old(self).punct.key_times,
            final(self).word@.len() == old(self).word@.len(),
            forall|i: int|
                0 <= i < old(self).len() && i != old(self).cursor() ==> (
                #[trigger] final(self).word@[i]) == old(self).word@[i],
            (old(self).cursor() < old(self).len() ==> final(self).word@[old(self).cursor()] == (
            MecanoChar {
                c: old(self).word@[old(self).cursor()].c,
                state: CharState::Selected,
            })),
    {
        self.punct.state = WordState::Selected;
        if self.select_char_idx < self.word.len() {
            let idx = self.select_char_idx;
            let ch = self.word[idx].c;
            proof {
                lemma_count_update(
                    self.word@,
                    idx as int,
                    MecanoChar { c: ch, state: CharState::Selected },
                    CharState::Right,
                );
                lemma_count_update(
                    self.word@,
                    idx as int,
                    MecanoChar { c: ch, state: CharState::Selected },
                    CharState::Wrong,
                );
            }
            self.word[idx] = MecanoChar { c: ch, state: CharState::Selected };
        }
    }

    /// Finalizes the word: classifies it Right only when every slot was typed
    /// right with no overflow, and charges every unreached slot as missed.
    /// Finalizing a word that is already finalized changes nothing.
    pub fn unselect(&mut self)
        requires
            old(self).wf(),
        ensures
            final(self).wf(),
            final(self).finalized(),
            old(self).finalized() ==> *final(self) == *old(self),
            !old(self).finalized() ==> {
                &&& final(self).punct.right == old(self).punct.right
                &&& final(self).punct.wrong == old(self).punct.wrong
                &&& final(self).punct.excess == old(self).punct.excess
                &&& final(self).punct.key_times == old(self).punct.key_times
                &&& final(self).punct.total == old(self).punct.total
                &&& final(self).excess == old(self).excess
                &&& final(self).select_char_idx == old(self).select_char_idx
                &&& final(self).punct.missed == old(self).len() - old(self).cursor()
                &&& (final(self).punct.state == WordState::Right <==> (old(self).excess@.len() == 0
                    && forall|i: int|
                    0 <= i < old(self).len() ==> (#[trigger] old(self).word@[i]).state
                        == CharState::Right))
                &&& final(self).word@.len() == old(self).word@.len()
                &&& forall|i: int|
                    0 <= i < old(self).len() && i != old(self).cursor() ==> (
                    #[trigger] final(self).word@[i]) == old(self).word@[i]
                &&& (old(self).cursor() < old(self).len() ==> final(self).word@[old(
                    self,
                ).cursor()] == (MecanoChar {
                    c: old(self).word@[old(self).cursor()].c,
                    state: CharState::Unreached,
                }))
            },
            final(self).punct.right + final(self).punct.wrong + final(self).punct.missed
                == final(self).punct.total,
            final(self).punct.excess == final(self).excess@.len(),
    {
        proof {
            lemma_counts_prefix(self.word@, self.cursor());
        }
        if self.punct.state == WordState::Right || self.punct.state == WordState::Wrong {
            return ;
        }
        let len = self.word.len();
        let correct = self.select_char_idx == len && self.punct.wrong == 0 && self.excess.len()
            == 0;
        proof {
            if correct {
                lemma_none_of_count_zero(self.word@, CharState::Wrong);
                assert forall|i: int|
                    0 <= i < self.len() implies (#[trigger] self.word@[i]).state
                    == CharState::Right by {
                    assert(self.word@[i].state != CharState::Wrong);
                }
            } else if self.excess@.len() == 0 {
                if self.select_char_idx < len {
                    assert(self.word@[self.cursor()].state != CharState::Right);
                } else {
                    if forall|i: int|
                        0 <= i < self.len() ==> (#[trigger] self.word@[i]).state
                            == CharState::Right {
                        lemma_count_zero_of_none(self.word@, CharState::Wrong);
                    }
                }
            }
        }
        self.punct.state = if correct {
            WordState::Right
        } else {
            WordState::Wrong
        };
        if self.select_char_idx < len {
            let idx = self.select_char_idx;
            let ch = self.word[idx].c;
            proof {
                lemma_count_update(
                    self.word@,
                    idx as int,
                    MecanoChar { c: ch, state: CharState::Unreached },
                    CharState::Right,
                );
                lemma_count_update(
                    self.word@,
                    idx as int,
                    MecanoChar { c: ch, state: CharState::Unreached },
                    CharState::Wrong,
                );
            }
            self.word[idx] = MecanoChar { c: ch, state: CharState::Unreached };
        }
        self.punct.missed = (len as Count) - (self.select_char_idx as Count);
    }

    /// True while this word is the one being typed.
    pub fn is_selected(&self) -> (r: bool)
        ensures
            r == (self.punct.state == WordState::Selected),
    {
        match self.punct.state {
            WordState::Selected => true,
            _ => false,
        }
    }

    /// The word's score record.
    pub fn get_punct(&self) -> (r: &WordPunct)
        ensures
            *r == self.punct,
    {
        &self.punct
    }

    /// The word's character slots, in order.
    pub fn iter(&self) -> (r: &Vec<MecanoChar>)
        ensures
            r@ == self.word@,
    {
        &self.word
    }

    /// The overflow characters typed past the word's end, in order.
    pub fn excess(&self) -> (r: &Vec<char>)
        ensures
            r@ == self.excess@,
    {
        &self.excess
    }
}

impl WordPunct {
    /// A zeroed score record for a word not yet typed.
    pub fn default() -> (r: WordPunct)
        ensures
            r.total == 0,
            r.right == 0,
            r.wrong == 0,
            r.excess == 0,
            r.missed == 0,
            r.state == WordState::Unreached,
            r.key_times@.len() == 0,
    {
        WordPunct {
            total: 0,
            right: 0,
            wrong: 0,
            excess: 0,
            missed: 0,
            state: WordState::Unreached,
            key_times: Vec::new(),
        }
    }
}

/// Law: whatever sequence of keystrokes and deletions a word has seen, its
/// cursor stays between the start and the end of the word.
pub proof fn lemma_cursor_bounds(w: MecanoWord)
    requires
        w.wf(),
    ensures
        0 <= w.select_char_idx <= w.word@.len(),
{
}

/// Law: a finalized word accounts for every slot exactly once, and its
/// overflow counter equals the overflow text's length.
pub proof fn lemma_word_conservation(w: MecanoWord)
    requires
        w.wf(),
        w.finalized(),
    ensures
        w.punct.right + w.punct.wrong + w.punct.missed == w.punct.total,
        w.punct.excess == w.excess@.len(),
{
    lemma_counts_prefix(w.word@, w.cursor());
}

} // verus!
