use vstd::prelude::*;

use crate::modes::Mode;
use crate::punctuation::Punct;
use crate::word::{MecanoWord, WordState};
use crate::{sat_add, saturating_add_count, Count, Idx, TermUnit, MAX_EXTRA_CHARS};

verus! {

/// How much of the screen one edit obliges the caller to repaint.
#[derive(Debug, Clone, Copy, PartialEq, Eq, Structural)]
pub enum Redraw {
    /// Nothing changed on screen.
    Nothing,
    /// Only the selected word's glyph run changed.
    Selected,
    /// The layout changed: the whole visible window must be repainted.
    Full,
}

/// The screen columns one word takes: its slots plus its overflow.
pub open spec fn word_total(w: MecanoWord) -> nat {
    w.word@.len() + w.excess@.len()
}

/// The characters still owed to the screen: every word from `from` on, with
/// its separator space.
pub open spec fn buffered_chars(words: Seq<MecanoWord>, from: int) -> nat
    decreases words.len() - from,
    when 0 <= from <= words.len()
{
    if from >= words.len() {
        0
    } else {
        words[from].word@.len() + 1 + buffered_chars(words, from + 1)
    }
}

proof fn lemma_buffered_push(ws: Seq<MecanoWord>, from: int, w: MecanoWord)
    requires
        0 <= from <= ws.len(),
    ensures
        buffered_chars(ws.push(w), from) == buffered_chars(ws, from) + w.word@.len() + 1,
    decreases ws.len() - from,
{
    if from == ws.len() {
        assert(ws.push(w)[from] == w);
        assert(buffered_chars(ws.push(w), from + 1) == 0);
        assert(buffered_chars(ws, from) == 0);
    } else {
        assert(ws.push(w)[from] == ws[from]);
        lemma_buffered_push(ws, from + 1, w);
    }
}

/// A word as the source hands it over: nothing typed, nothing scored.
pub open spec fn fresh_word(w: MecanoWord) -> bool {
    &&& w.punct.state == WordState::Unreached
    &&& w.select_char_idx == 0
    &&& w.excess@.len() == 0
    &&& w.punct.right == 0
    &&& w.punct.wrong == 0
    &&& w.punct.excess == 0
    &&& w.punct.missed == 0
    &&& w.punct.key_times@.len() == 0
}

proof fn lemma_buffered_update(ws: Seq<MecanoWord>, i: int, w: MecanoWord, from: int)
    requires
        0 <= from <= ws.len(),
        0 <= i < ws.len(),
        w.word@.len() == ws[i].word@.len(),
    ensures
        buffered_chars(ws.update(i, w), from) == buffered_chars(ws, from),
    decreases ws.len() - from,
{
    if from < ws.len() {
        lemma_buffered_update(ws, i, w, from + 1);
    }
}

/// The text a word was built from: its slot characters, in order.
pub open spec fn word_text(w: MecanoWord) -> Seq<char> {
    Seq::new(w.word@.len(), |i: int| w.word@[i].c)
}

/// The texts of a run of words, in order.
pub open spec fn word_texts(ws: Seq<MecanoWord>) -> Seq<Seq<char>> {
    Seq::new(ws.len(), |k: int| word_text(ws[k]))
}

/// The source `post` is what `pre` becomes after yielding exactly the texts
/// `ws`, in order.
pub open spec fn yields_seq(pre: Mode, post: Mode, ws: Seq<Seq<char>>) -> bool
    decreases ws.len(),
{
    if ws.len() == 0 {
        post == pre
    } else {
        exists|mid: Mode| #[trigger] pre.yields(mid, ws[0]) && yields_seq(mid, post, ws.skip(1))
    }
}

/// One more yield extends a chain of yields at its end.
proof fn lemma_yields_seq_extend(a: Mode, b: Mode, c: Mode, ws: Seq<Seq<char>>, w: Seq<char>)
    requires
        yields_seq(a, b, ws),
        b.yields(c, w),
    ensures
        yields_seq(a, c, ws.push(w)),
    decreases ws.len(),
{
    if ws.len() == 0 {
        assert(ws.push(w)[0] == w);
        assert(ws.push(w).skip(1) =~= Seq::<Seq<char>>::empty());
        assert(a.yields(c, w));
        assert(yields_seq(c, c, ws.push(w).skip(1)));
    } else {
        let mid = choose|mid: Mode| a.yields(mid, ws[0]) && yields_seq(mid, b, ws.skip(1));
        lemma_yields_seq_extend(mid, b, c, ws.skip(1), w);
        assert(ws.push(w)[0] == ws[0]);
        assert(ws.push(w).skip(1) =~= ws.skip(1).push(w));
        assert(a.yields(mid, ws.push(w)[0]));
    }
}

/// The viewport-bounded word buffer: the words pulled so far, which one is
/// being typed, which one is first on screen, the line layout accumulators,
/// the countdown and the pending idle time.
pub struct MecanoBuffer {
    pub mecano_words: Vec<MecanoWord>,
    pub words_source: Mode,
    pub idx_typing_word: Idx,
    pub idx_print_offset: Idx,
    pub n_typed_line_chars: Count,
    pub n_total_chars_to_show: Count,
    /// Viewport geometry as (rows, cols).
    pub size: (TermUnit, TermUnit),
    pub column: TermUnit,
    /// The countdown still to run, in milliseconds.
    pub total_duration: Count,
    /// Idle time waiting to be charged to the next accepted keystroke.
    pub last_key_duration: Count,
}

impl MecanoBuffer {
    pub open spec fn rows(self) -> nat {
        self.size.0 as nat
    }

    pub open spec fn cols(self) -> nat {
        self.size.1 as nat
    }

    /// The word under the cursor.
    pub open spec fn spec_selected(self) -> MecanoWord {
        self.mecano_words@[self.idx_typing_word as int]
    }

    /// The buffer's invariant, short of the typed word being selected: the
    /// words are sound, the look-ahead counter is exact, and the pointers
    /// stay ordered.
    pub open spec fn wf_core(self) -> bool {
        &&& self.words_source.inv()
        &&& self.rows() >= 1
        &&& self.cols() >= 1
        &&& self.idx_typing_word <= self.mecano_words@.len()
        &&& self.idx_print_offset <= self.idx_typing_word
        &&& self.n_typed_line_chars <= TermUnit::MAX
        &&& self.n_total_chars_to_show == buffered_chars(
            self.mecano_words@,
            self.idx_typing_word as int,
        )
        &&& forall|i: int|
            0 <= i < self.mecano_words@.len() ==> (#[trigger] self.mecano_words@[i]).wf()
        &&& forall|i: int|
            0 <= i < self.mecano_words@.len() ==> 1 <= (
            #[trigger] self.mecano_words@[i]).word@.len() < TermUnit::MAX as nat
        &&& forall|i: int|
            0 <= i < self.idx_typing_word ==> (#[trigger] self.mecano_words@[i]).finalized()
        &&& forall|i: int|
            self.idx_typing_word < i < self.mecano_words@.len() ==> (
            #[trigger] self.mecano_words@[i]).punct.state == WordState::Unreached
    }

    /// The buffer's full invariant: on top of the core, the typed word exists
    /// and is the selected one.
    pub open spec fn wf(self) -> bool {
        &&& self.wf_core()
        &&& self.idx_typing_word < self.mecano_words@.len()
        &&& self.spec_selected().punct.state == WordState::Selected
    }

    /// Builds the buffer over a word source: pulls enough look-ahead to fill
    /// the viewport and selects the first word.
    pub fn new(words_source: Mode, size: (TermUnit, TermUnit), max_time: Count) -> (r:
        MecanoBuffer)
        requires
            words_source.inv(),
            size.0 >= 1,
            size.1 >= 1,
        ensures
            r.wf(),
            r.idx_typing_word == 0,
            r.idx_print_offset == 0,
            r.n_typed_line_chars == 0,
            r.n_total_chars_to_show >= r.rows() * r.cols(),
            r.size == size,
            r.column == 0,
            r.total_duration == max_time,
            r.last_key_duration == 0,
            r.spec_selected().select_char_idx == 0,
            r.spec_selected().punct.right == 0,
            r.spec_selected().punct.wrong == 0,
            r.spec_selected().excess@.len() == 0,
            r.spec_selected().punct.key_times@.len() == 0,
            yields_seq(words_source, r.words_source, word_texts(r.mecano_words@)),
    {
        let mut buffer = MecanoBuffer {
            mecano_words: Vec::new(),
            words_source,
            idx_typing_word: 0,
            idx_print_offset: 0,
            n_typed_line_chars: 0,
            n_total_chars_to_show: 0,
            size,
            column: 0,
            total_duration: max_time,
            last_key_duration: 0,
        };
        buffer.complete_size();
        let ghost pre_words = buffer.mecano_words@;
        let first = &mut buffer.mecano_words[0];
        first.select();
        proof {
            lemma_buffered_update(pre_words, 0, buffer.mecano_words@[0], 0);
            assert(pre_words.skip(0) =~= pre_words);
            assert(word_text(buffer.mecano_words@[0]) =~= word_text(pre_words[0]));
            assert(word_texts(buffer.mecano_words@) =~~= word_texts(pre_words));
        }
        buffer
    }

    /// Pulls words from the source until the look-ahead covers the whole
    /// viewport, so rendering never runs out of words.
    pub fn complete_size(&mut self)
        requires
            old(self).wf_core(),
        ensures
            final(self).wf_core(),
            final(self).n_total_chars_to_show >= final(self).rows() * final(self).cols(),
            final(self).mecano_words@.len() >= old(self).mecano_words@.len(),
            forall|i: int|
                0 <= i < old(self).mecano_words@.len() ==> #[trigger] final(self).mecano_words@[i]
                    == old(self).mecano_words@[i],
            forall|i: int|
                old(self).mecano_words@.len() <= i < final(self).mecano_words@.len() ==> fresh_word(
                    #[trigger] final(self).mecano_words@[i],
                ),
            final(self).idx_typing_word == old(self).idx_typing_word,
            final(self).idx_print_offset == old(self).idx_print_offset,
            final(self).n_typed_line_chars == old(self).n_typed_line_chars,
            final(self).size == old(self).size,
            final(self).column == old(self).column,
            final(self).total_duration == old(self).total_duration,
            final(self).last_key_duration == old(self).last_key_duration,
            final(self).idx_typing_word < final(self).mecano_words@.len(),
            old(self).wf() ==> final(self).wf(),
            yields_seq(
                old(self).words_source,
                final(self).words_source,
                word_texts(
                    final(self).mecano_words@.skip(old(self).mecano_words@.len() as int),
                ),
            ),
    {
        proof {
            assert(self.mecano_words@.skip(old(self).mecano_words@.len() as int)
                =~= Seq::<MecanoWord>::empty());
            assert(word_texts(Seq::<MecanoWord>::empty()) =~= Seq::<Seq<char>>::empty());
        }
        proof {
            assert(1 <= (self.size.0 as nat) * (self.size.1 as nat) <= 0xFFFF * 0xFFFF)
                by (nonlinear_arith)
                requires
                    1 <= self.size.0 <= 0xFFFF,
                    1 <= self.size.1 <= 0xFFFF,
            ;
        }
        let goal: Count = (self.size.0 as Count) * (self.size.1 as Count);
        while self.n_total_chars_to_show < goal
            invariant
                self.wf_core(),
                goal == self.rows() * self.cols(),
                1 <= goal <= 0xFFFF * 0xFFFF,
                self.mecano_words@.len() >= old(self).mecano_words@.len(),
                forall|i: int|
                    0 <= i < old(self).mecano_words@.len() ==> #[trigger] self.mecano_words@[i]
                        == old(self).mecano_words@[i],
                forall|i: int|
                    old(self).mecano_words@.len() <= i < self.mecano_words@.len() ==> fresh_word(
                        #[trigger] self.mecano_words@[i],
                    ),
                self.idx_typing_word == old(self).idx_typing_word,
                self.idx_print_offset == old(self).idx_print_offset,
                self.n_typed_line_chars == old(self).n_typed_line_chars,
                self.size == old(self).size,
                self.column == old(self).column,
                self.total_duration == old(self).total_duration,
                self.last_key_duration == old(self).last_key_duration,
                yields_seq(
                    old(self).words_source,
                    self.words_source,
                    word_texts(
                        self.mecano_words@.skip(old(self).mecano_words@.len() as int),
                    ),
                ),
            decreases crate::modes::budget_left(self.n_total_chars_to_show as u128, (goal - 1) as u128),
        {
            let ghost source_before = self.words_source;
            let ghost base = old(self).mecano_words@.len() as int;
            let ghost texts_before = word_texts(self.mecano_words@.skip(base));
            let new_word = self.words_source.yield_word();
            let word = MecanoWord::from_str(new_word.as_str());
            let n_chars = word.word.len();
            proof {
                lemma_buffered_push(
                    self.mecano_words@,
                    self.idx_typing_word as int,
                    word,
                );
            }
            self.n_total_chars_to_show = self.n_total_chars_to_show + (n_chars as Count) + 1;
            self.mecano_words.push(word);
            proof {
                assert(word_text(word) =~= new_word@);
                lemma_yields_seq_extend(
                    old(self).words_source,
                    source_before,
                    self.words_source,
                    texts_before,
                    new_word@,
                );
                assert(word_texts(self.mecano_words@.skip(base)) =~= texts_before.push(
                    new_word@,
                ));
            }
        }
        proof {
            assert(self.n_total_chars_to_show >= goal);
            if self.idx_typing_word == self.mecano_words@.len() {
                assert(buffered_chars(self.mecano_words@, self.idx_typing_word as int) == 0);
            }
        }
    }

    /// How one keystroke relates the buffer before and after, together with
    /// how much of the screen it obliges the caller to repaint: a separator
    /// completes the word, carrying the pending idle time as its last
    /// keystroke; a keystroke at the overflow cap is dropped; a keystroke
    /// inside the word judges the slot under the cursor; any other keystroke
    /// grows the overflow.
    pub open spec fn type_char_rel(
        pre: MecanoBuffer,
        post: MecanoBuffer,
        c: char,
        r: Redraw,
    ) -> bool {
        &&& post.size == pre.size
        &&& post.column == pre.column
        &&& post.total_duration == pre.total_duration
        &&& (crate::char_is_separator(c) ==> {
            &&& MecanoBuffer::next_word_rel_with(
                pre,
                post,
                pre.spec_selected().punct.key_times@.push(pre.last_key_duration),
                0,
            )
            &&& r == Redraw::Full
        })
        &&& (!crate::char_is_separator(c) && pre.spec_selected().cursor()
            == pre.spec_selected().len() && pre.spec_selected().excess@.len() == MAX_EXTRA_CHARS
            ==> {
            &&& post == pre
            &&& r == Redraw::Nothing
        })
        &&& (!crate::char_is_separator(c) && pre.spec_selected().cursor()
            < pre.spec_selected().len() ==> {
            &&& r == Redraw::Selected
            &&& post.mecano_words@ == pre.mecano_words@.update(
                pre.idx_typing_word as int,
                post.spec_selected(),
            )
            &&& post.spec_selected().select_char_idx == pre.spec_selected().select_char_idx + 1
            &&& (pre.spec_selected().word@[pre.spec_selected().cursor()].c == c
                ==> post.spec_selected().punct.right == pre.spec_selected().punct.right + 1)
            &&& (pre.spec_selected().word@[pre.spec_selected().cursor()].c != c
                ==> post.spec_selected().punct.wrong == pre.spec_selected().punct.wrong + 1)
            &&& post.spec_selected().excess@ == pre.spec_selected().excess@
            &&& post.spec_selected().punct.key_times@
                == pre.spec_selected().punct.key_times@.push(pre.last_key_duration)
            &&& post.last_key_duration == 0
            &&& post.idx_typing_word == pre.idx_typing_word
            &&& post.idx_print_offset == pre.idx_print_offset
            &&& post.n_typed_line_chars == pre.n_typed_line_chars
            &&& post.n_total_chars_to_show == pre.n_total_chars_to_show
            &&& post.words_source == pre.words_source
        })
        &&& (!crate::char_is_separator(c) && pre.spec_selected().cursor()
            == pre.spec_selected().len() && pre.spec_selected().excess@.len() < MAX_EXTRA_CHARS
            ==> {
            &&& r == Redraw::Full
            &&& post.mecano_words@ == pre.mecano_words@.update(
                pre.idx_typing_word as int,
                post.spec_selected(),
            )
            &&& post.spec_selected().excess@ == pre.spec_selected().excess@.push(c)
            &&& post.spec_selected().punct.key_times@
                == pre.spec_selected().punct.key_times@.push(pre.last_key_duration)
            &&& post.last_key_duration == 0
            &&& post.idx_typing_word == pre.idx_typing_word
            &&& post.idx_print_offset == pre.idx_print_offset
            &&& post.n_typed_line_chars == pre.n_typed_line_chars
            &&& post.n_total_chars_to_show == pre.n_total_chars_to_show
            &&& post.words_source == pre.words_source
        })
    }

    /// One non-separator keystroke, or a separator that completes the word:
    /// judges or overflows the selected word, charges the pending idle time
    /// to the keystroke, and says how much of the screen changed.
    pub fn type_char(&mut self, c: char) -> (r: Redraw)
        requires
            old(self).wf(),
        ensures
            final(self).wf(),
            MecanoBuffer::type_char_rel(*old(self), *final(self), c, r),
    {
        let idx = self.idx_typing_word;
        if crate::is_word_separator(c) {
            let dt = self.last_key_duration;
            self.last_key_duration = 0;
            let w = &mut self.mecano_words[idx];
            w.push_duration(dt);
            proof {
                lemma_buffered_update(
                    old(self).mecano_words@,
                    idx as int,
                    self.mecano_words@[idx as int],
                    old(self).idx_typing_word as int,
                );
            }
            self.next_word();
            Redraw::Full
        } else {
            let cursor_at_end = {
                let w = &self.mecano_words[idx];
                w.select_char_idx >= w.word.len()
            };
            if cursor_at_end {
                let at_cap = {
                    let w = &self.mecano_words[idx];
                    w.excess.len() as Count >= MAX_EXTRA_CHARS
                };
                if at_cap {
                    return Redraw::Nothing;
                }
            }
            let dt = self.last_key_duration;
            self.last_key_duration = 0;
            let w = &mut self.mecano_words[idx];
            w.type_char(c);
            w.push_duration(dt);
            proof {
                lemma_buffered_update(
                    old(self).mecano_words@,
                    idx as int,
                    self.mecano_words@[idx as int],
                    old(self).idx_typing_word as int,
                );
            }
            if cursor_at_end {
                Redraw::Full
            } else {
                Redraw::Selected
            }
        }
    }

    /// How finishing one word relates the buffer before and after, with the
    /// finalized word's duration list and the pending idle time given
    /// explicitly: the typed word is finalized, the next one is selected, the
    /// accounting moves one word forward, and the line wraps exactly when the
    /// next word would not fit on what is left of the row.
    pub open spec fn next_word_rel_with(
        pre: MecanoBuffer,
        post: MecanoBuffer,
        kt: Seq<Count>,
        lk: Count,
    ) -> bool {
        let moved = pre.spec_selected();
        let lc = pre.n_typed_line_chars + word_total(moved) + 1;
        &&& post.size == pre.size
        &&& post.column == pre.column
        &&& post.total_duration == pre.total_duration
        &&& post.last_key_duration == lk
        &&& post.idx_typing_word == pre.idx_typing_word + 1
        &&& post.mecano_words@.len() >= pre.mecano_words@.len()
        &&& forall|i: int|
            0 <= i < pre.mecano_words@.len() && i != pre.idx_typing_word
                && i != post.idx_typing_word ==> #[trigger] post.mecano_words@[i]
                == pre.mecano_words@[i]
        &&& post.mecano_words@[pre.idx_typing_word as int].finalized()
        &&& post.mecano_words@[pre.idx_typing_word as int].punct.right == moved.punct.right
        &&& post.mecano_words@[pre.idx_typing_word as int].punct.wrong == moved.punct.wrong
        &&& post.mecano_words@[pre.idx_typing_word as int].punct.excess == moved.punct.excess
        &&& post.mecano_words@[pre.idx_typing_word as int].punct.key_times@ == kt
        &&& post.mecano_words@[pre.idx_typing_word as int].punct.missed == moved.len()
            - moved.cursor()
        &&& post.spec_selected().punct.state == WordState::Selected
        &&& post.n_total_chars_to_show >= post.rows() * post.cols()
        &&& yields_seq(
            pre.words_source,
            post.words_source,
            word_texts(post.mecano_words@.skip(pre.mecano_words@.len() as int)),
        )
        &&& if post.cols() <= lc + word_total(post.spec_selected()) {
            post.idx_print_offset == post.idx_typing_word && post.n_typed_line_chars == 0
        } else {
            post.n_typed_line_chars == lc && post.idx_print_offset == pre.idx_print_offset
        }
    }

    /// How finishing one word relates the buffer before and after when the
    /// word's duration list and the pending idle time stay as they are.
    pub open spec fn next_word_rel(pre: MecanoBuffer, post: MecanoBuffer) -> bool {
        MecanoBuffer::next_word_rel_with(
            pre,
            post,
            pre.spec_selected().punct.key_times@,
            pre.last_key_duration,
        )
    }

    /// Finishes the typed word and moves on: finalizes it, advances the
    /// cursor word, refills the look-ahead, and wraps the line when the new
    /// word would overrun it.
    pub fn next_word(&mut self)
        requires
            old(self).wf(),
        ensures
            final(self).wf(),
            MecanoBuffer::next_word_rel(*old(self), *final(self)),
    {
        let idx = self.idx_typing_word;
        let w = &mut self.mecano_words[idx];
        w.unselect();
        proof {
            lemma_buffered_update(
                old(self).mecano_words@,
                idx as int,
                self.mecano_words@[idx as int],
                idx as int,
            );
        }
        let n_word_chars = self.mecano_words[idx].word.len() as Count;
        self.n_total_chars_to_show = self.n_total_chars_to_show - (n_word_chars + 1);
        let moved_total = self.mecano_words[idx].total_chars();
        let line_chars = self.n_typed_line_chars + moved_total + 1;
        // the words fit in memory, so the next index is representable
        let _ = self.mecano_words.len();
        self.idx_typing_word = idx + 1;
        self.complete_size();
        let sel = self.idx_typing_word;
        let ghost pre_words = self.mecano_words@;
        let w = &mut self.mecano_words[sel];
        w.select();
        proof {
            lemma_buffered_update(pre_words, sel as int, self.mecano_words@[sel as int], sel as int);
            let ghost base = old(self).mecano_words@.len() as int;
            assert(word_text(self.mecano_words@[sel as int]) =~= word_text(
                pre_words[sel as int],
            ));
            assert(word_texts(self.mecano_words@.skip(base)) =~~= word_texts(
                pre_words.skip(base),
            ));
        }
        let new_total = self.mecano_words[sel].total_chars();
        if (self.size.1 as Count) <= line_chars + new_total {
            self.idx_print_offset = sel;
            self.n_typed_line_chars = 0;
        } else {
            self.n_typed_line_chars = line_chars;
        }
    }

    /// How one backspace relates the buffer before and after, with how much
    /// of the screen to repaint: the selected word takes back its last
    /// overflow character or its last judged slot, its last two durations
    /// merge, and nothing else moves.
    pub open spec fn backspace_rel(pre: MecanoBuffer, post: MecanoBuffer, r: Redraw) -> bool {
        &&& post.mecano_words@ == pre.mecano_words@.update(
            pre.idx_typing_word as int,
            post.spec_selected(),
        )
        &&& post.words_source == pre.words_source
        &&& post.idx_typing_word == pre.idx_typing_word
        &&& post.idx_print_offset == pre.idx_print_offset
        &&& post.n_typed_line_chars == pre.n_typed_line_chars
        &&& post.n_total_chars_to_show == pre.n_total_chars_to_show
        &&& post.size == pre.size
        &&& post.column == pre.column
        &&& post.total_duration == pre.total_duration
        &&& post.last_key_duration == pre.last_key_duration
        &&& (r == Redraw::Full <==> pre.spec_selected().excess@.len() > 0)
        &&& (r == Redraw::Full || r == Redraw::Selected)
        &&& (pre.spec_selected().excess@.len() > 0 ==> post.spec_selected().excess@
            == pre.spec_selected().excess@.drop_last())
        &&& (pre.spec_selected().excess@.len() == 0 && pre.spec_selected().cursor() > 0
            ==> post.spec_selected().select_char_idx == pre.spec_selected().select_char_idx - 1)
        &&& (pre.spec_selected().excess@.len() == 0 && pre.spec_selected().cursor() == 0
            ==> post.spec_selected().select_char_idx == 0 && post.spec_selected().excess@
            == pre.spec_selected().excess@)
        &&& post.spec_selected().punct.key_times@ == crate::word::merged_key_times(
            pre.spec_selected().punct.key_times@,
        )
    }

    /// One backspace: takes back the last overflow character or the last
    /// judged slot of the selected word, and says how much to repaint.
    pub fn backspace(&mut self) -> (r: Redraw)
        requires
            old(self).wf(),
        ensures
            final(self).wf(),
            MecanoBuffer::backspace_rel(*old(self), *final(self), r),
    {
        let idx = self.idx_typing_word;
        let had_excess = {
            let w = &self.mecano_words[idx];
            w.excess.len() > 0
        };
        let w = &mut self.mecano_words[idx];
        w.delete();
        proof {
            lemma_buffered_update(
                old(self).mecano_words@,
                idx as int,
                self.mecano_words@[idx as int],
                old(self).idx_typing_word as int,
            );
        }
        if had_excess {
            Redraw::Full
        } else {
            Redraw::Selected
        }
    }

    /// Advances the countdown and accrues the pending idle time; the result
    /// says whether the session still runs.
    pub fn update_time(&mut self, dur: Count) -> (r: bool)
        ensures
            final(self).total_duration == if dur <= old(self).total_duration {
                old(self).total_duration - dur
            } else {
                0
            },
            final(self).last_key_duration == sat_add(
                old(self).last_key_duration as nat,
                dur as nat,
            ),
            r == (final(self).total_duration != 0),
            final(self).mecano_words == old(self).mecano_words,
            final(self).words_source == old(self).words_source,
            final(self).idx_typing_word == old(self).idx_typing_word,
            final(self).idx_print_offset == old(self).idx_print_offset,
            final(self).n_typed_line_chars == old(self).n_typed_line_chars,
            final(self).n_total_chars_to_show == old(self).n_total_chars_to_show,
            final(self).size == old(self).size,
            final(self).column == old(self).column,
            old(self).wf() ==> final(self).wf(),
    {
        if dur <= self.total_duration {
            self.total_duration = self.total_duration - dur;
        } else {
            self.total_duration = 0;
        }
        self.last_key_duration = saturating_add_count(self.last_key_duration, dur);
        self.total_duration != 0
    }

    /// The countdown still to run, in milliseconds.
    pub fn get_remaining_time(&self) -> (r: Count)
        ensures
            r == self.total_duration,
    {
        self.total_duration
    }

    /// Changes the viewport geometry (rows, cols) and refills the look-ahead
    /// for it.
    pub fn set_size(&mut self, size: (TermUnit, TermUnit))
        requires
            old(self).wf(),
            size.0 >= 1,
            size.1 >= 1,
        ensures
            final(self).wf(),
            final(self).size == size,
            final(self).n_total_chars_to_show >= final(self).rows() * final(self).cols(),
            final(self).idx_typing_word == old(self).idx_typing_word,
            final(self).idx_print_offset == old(self).idx_print_offset,
            final(self).total_duration == old(self).total_duration,
            final(self).last_key_duration == old(self).last_key_duration,
            forall|i: int|
                0 <= i < old(self).mecano_words@.len() ==> #[trigger] final(self).mecano_words@[i]
                    == old(self).mecano_words@[i],
    {
        self.size = size;
        self.complete_size();
    }

    /// Folds every word's score record, in order, into one aggregate: the
    /// session's totals and its snapshot series.
    pub fn get_punct(&self) -> (r: Punct)
        ensures
            r.chars_right == folded_counts(self.mecano_words@).0,
            r.chars_wrong == folded_counts(self.mecano_words@).1,
            r.chars_extra == folded_counts(self.mecano_words@).2,
            r.chars_missed == folded_counts(self.mecano_words@).3,
            r.total_time == folded_counts(self.mecano_words@).4,
            r.snapshot_defined() ==> r.stats@.len() > 0 && r.stats@.last() == r.current_stats(),
            !r.snapshot_defined() ==> r.stats@.len() == 0,
    {
        let mut punct = Punct::new();
        let n = self.mecano_words.len();
        let mut i: usize = 0;
        while i < n
            invariant
                0 <= i <= n,
                n == self.mecano_words@.len(),
                punct.chars_right == folded_counts(self.mecano_words@.take(i as int)).0,
                punct.chars_wrong == folded_counts(self.mecano_words@.take(i as int)).1,
                punct.chars_extra == folded_counts(self.mecano_words@.take(i as int)).2,
                punct.chars_missed == folded_counts(self.mecano_words@.take(i as int)).3,
                punct.total_time == folded_counts(self.mecano_words@.take(i as int)).4,
                punct.snapshot_defined() ==> punct.stats@.len() > 0 && punct.stats@.last()
                    == punct.current_stats(),
                !punct.snapshot_defined() ==> punct.stats@.len() == 0,
            decreases n - i,
        {
            proof {
                assert(self.mecano_words@.take(i + 1).drop_last() =~= self.mecano_words@.take(
                    i as int,
                ));
            }
            punct.push_punct_word(&self.mecano_words[i].punct);
            i += 1;
        }
        proof {
            assert(self.mecano_words@.take(n as int) =~= self.mecano_words@);
        }
        punct
    }

    /// Moves the viewport's left edge to the given terminal column.
    pub fn set_column(&mut self, column: TermUnit)
        ensures
            *final(self) == (MecanoBuffer { column, ..*old(self) }),
    {
        self.column = column;
    }
}

/// The totals a word list owes the statistics, folded front to back: right,
/// wrong, extra and missed characters, and the typed time in milliseconds,
/// every step held at the top of the range.
pub open spec fn folded_counts(words: Seq<MecanoWord>) -> (nat, nat, nat, nat, nat)
    decreases words.len(),
{
    if words.len() == 0 {
        (0, 0, 0, 0, 0)
    } else {
        let t = folded_counts(words.drop_last());
        let w = words.last().punct;
        (
            sat_add(t.0, w.right as nat),
            sat_add(t.1, w.wrong as nat),
            sat_add(t.2, w.excess as nat),
            sat_add(t.3, w.missed as nat),
            sat_add(t.4, crate::punctuation::sat_sum(w.key_times@)),
        )
    }
}

/// Law: after any refill, the look-ahead covers the whole viewport, so the
/// renderer never runs out of words.
pub proof fn lemma_lookahead_invariant(b: MecanoBuffer)
    requires
        b.wf(),
        b.n_total_chars_to_show >= b.rows() * b.cols(),
    ensures
        b.idx_typing_word < b.mecano_words@.len(),
{
}

/// Law: finishing a word either extends the current row by the word's width
/// and its separator, or, when the next word would overrun the row, advances
/// the first visible word to the typed one and starts a fresh row.
pub proof fn lemma_line_wrap(pre: MecanoBuffer, post: MecanoBuffer)
    requires
        MecanoBuffer::next_word_rel(pre, post),
        post.cols() <= pre.n_typed_line_chars + word_total(pre.spec_selected()) + 1 + word_total(
            post.spec_selected(),
        ),
    ensures
        post.idx_print_offset == post.idx_typing_word,
        post.n_typed_line_chars == 0,
{
}

} // verus!
