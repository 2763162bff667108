use vstd::prelude::*;

use crate::buffer::{word_total, MecanoBuffer};
use crate::word::{CharState, MecanoChar, MecanoWord, WordState};
use crate::Count;

verus! {

/// One screen cell of the rendered window: a character, the theme color to
/// paint it in, and whether it carries the selected word's underline.
#[derive(Debug, Clone, Copy, PartialEq, Eq, Structural)]
pub struct Cell {
    pub c: char,
    pub color: CharState,
    pub underline: bool,
}

/// Whether a word's glyph run is drawn underlined.
pub open spec fn word_underlined(w: MecanoWord) -> bool {
    w.punct.state == WordState::Selected
}

/// One rendered cell.
pub open spec fn mk_cell(ch: char, color: CharState, ul: bool) -> Cell {
    Cell { c: ch, color, underline: ul }
}

/// The cells of a word's character slots, each in its state color.
pub open spec fn slot_cells(w: MecanoWord) -> Seq<Cell> {
    Seq::new(
        w.word@.len(),
        |i: int| mk_cell(w.word@[i].c, w.word@[i].state, word_underlined(w)),
    )
}

/// The cells of a word's overflow characters, all in the wrong color.
pub open spec fn excess_cells(w: MecanoWord) -> Seq<Cell> {
    Seq::new(
        w.excess@.len(),
        |i: int| mk_cell(w.excess@[i], CharState::Wrong, word_underlined(w)),
    )
}

/// The separator cell drawn after a word.
pub open spec fn sep_cell() -> Cell {
    Cell { c: ' ', color: CharState::Unreached, underline: false }
}

/// The single glyph that closes a truncated word: the last overflow character
/// in the wrong color, or the word's own last character in the right color.
pub open spec fn closing_cell(w: MecanoWord) -> Cell {
    if w.excess@.len() > 0 {
        Cell { c: w.excess@.last(), color: CharState::Wrong, underline: word_underlined(w) }
    } else {
        Cell { c: w.word@.last().c, color: CharState::Right, underline: word_underlined(w) }
    }
}

/// The cells one word takes within a column budget, tier by tier: with room
/// for everything, the whole word, its overflow and a separator; with room
/// for part of the overflow, the overflow cut and its last character closing
/// the run; with no room to spare, the word itself cut short and a single
/// highlighted glyph closing it. Never more cells than the budget.
pub open spec fn word_cells_within(w: MecanoWord, budget: nat) -> Seq<Cell> {
    let len = w.word@.len();
    let total = word_total(w);
    if budget == 0 {
        Seq::empty()
    } else if budget >= total + 1 {
        slot_cells(w) + excess_cells(w) + seq![sep_cell()]
    } else if budget > len + 1 {
        if budget - len > 2 {
            slot_cells(w) + excess_cells(w).take(budget - len - 2) + seq![closing_cell(w)]
                + seq![sep_cell()]
        } else {
            slot_cells(w) + seq![closing_cell(w)] + seq![sep_cell()]
        }
    } else if budget >= len {
        slot_cells(w).take(len - 1) + seq![closing_cell(w)] + (if budget == len + 1 {
            seq![sep_cell()]
        } else {
            Seq::empty()
        })
    } else {
        slot_cells(w).take(budget - 1) + seq![closing_cell(w)]
    }
}

/// Lays one word out within a column budget and never past it, drawing
/// exactly the cells the budget allows.
pub fn print_word(word: &MecanoWord, max_width: Count) -> (r: Vec<Cell>)
    requires
        word.wf(),
        word.word@.len() >= 1,
    ensures
        r@.len() <= max_width,
        r@ == word_cells_within(*word, max_width as nat),
{
    let ul = word.is_selected();
    let len = word.word.len();
    let total = word.total_chars();
    let mut cells: Vec<Cell> = Vec::new();
    if max_width == 0 {
        proof {
            assert(cells@ =~= word_cells_within(*word, max_width as nat));
        }
        return cells;
    }
    if max_width >= total + 1 {
        push_slots(&mut cells, word, len, ul);
        proof {
            assert(slot_cells(*word).take(len as int) =~= slot_cells(*word));
            assert(cells@ =~= slot_cells(*word) + excess_cells(*word).take(0));
        }
        let n_ex = word.excess.len();
        let mut k: usize = 0;
        while k < n_ex
            invariant
                0 <= k <= n_ex,
                n_ex == word.excess@.len(),
                ul == word_underlined(*word),
                cells@ == slot_cells(*word) + excess_cells(*word).take(k as int),
            decreases n_ex - k,
        {
            let ch = word.excess[k];
            cells.push(Cell { c: ch, color: CharState::Wrong, underline: ul });
            proof {
                assert(excess_cells(*word)[k as int] == (Cell {
                    c: word.excess@[k as int],
                    color: CharState::Wrong,
                    underline: ul,
                }));
                assert(cells@ =~= slot_cells(*word) + excess_cells(*word).take(k + 1));
            }
            k += 1;
        }
        cells.push(sep_cell_exec());
        proof {
            assert(excess_cells(*word).take(n_ex as int) =~= excess_cells(*word));
            assert(cells@ =~= slot_cells(*word) + excess_cells(*word) + seq![sep_cell()]);
            assert(cells@ == word_cells_within(*word, max_width as nat));
        }
    } else if max_width > (len as Count) + 1 {
        push_slots(&mut cells, word, len, ul);
        proof {
            assert(slot_cells(*word).take(len as int) =~= slot_cells(*word));
            assert(cells@ =~= slot_cells(*word) + excess_cells(*word).take(0));
        }
        let remaining = max_width - (len as Count);
        if remaining > 2 {
            let upto = (remaining - 2) as usize;
            let mut k: usize = 0;
            while k < upto
                invariant
                    0 <= k <= upto,
                    upto < word.excess@.len(),
                    ul == word_underlined(*word),
                    cells@ == slot_cells(*word) + excess_cells(*word).take(k as int),
                decreases upto - k,
            {
                let ch = word.excess[k];
                cells.push(Cell { c: ch, color: CharState::Wrong, underline: ul });
                proof {
                    assert(excess_cells(*word)[k as int] == (Cell {
                        c: word.excess@[k as int],
                        color: CharState::Wrong,
                        underline: ul,
                    }));
                    assert(cells@ =~= slot_cells(*word) + excess_cells(*word).take(k + 1));
                }
                k += 1;
            }
            let last_idx = word.excess.len() - 1;
            let last = word.excess[last_idx];
            cells.push(Cell { c: last, color: CharState::Wrong, underline: ul });
            cells.push(sep_cell_exec());
            proof {
                assert(cells@ =~= slot_cells(*word) + excess_cells(*word).take(upto as int)
                    + seq![closing_cell(*word)] + seq![sep_cell()]);
                assert(cells@ == word_cells_within(*word, max_width as nat));
            }
        } else {
            let last_idx = word.excess.len() - 1;
            let last = word.excess[last_idx];
            cells.push(Cell { c: last, color: CharState::Wrong, underline: ul });
            cells.push(sep_cell_exec());
            proof {
                assert(cells@ =~= slot_cells(*word) + seq![closing_cell(*word)]
                    + seq![sep_cell()]);
                assert(cells@ == word_cells_within(*word, max_width as nat));
            }
        }
    } else {
        let upto: usize = if max_width >= len as Count {
            len - 1
        } else {
            (max_width - 1) as usize
        };
        push_slots(&mut cells, word, upto, ul);
        let closing = if word.excess.len() > 0 {
            let last_idx = word.excess.len() - 1;
            Cell { c: word.excess[last_idx], color: CharState::Wrong, underline: ul }
        } else {
            Cell { c: word.word[len - 1].c, color: CharState::Right, underline: ul }
        };
        cells.push(closing);
        if max_width == (len as Count) + 1 {
            cells.push(sep_cell_exec());
            proof {
                assert(cells@ =~= slot_cells(*word).take(upto as int) + seq![closing_cell(*word)]
                    + seq![sep_cell()]);
                assert(cells@ == word_cells_within(*word, max_width as nat));
            }
        } else {
            proof {
                assert(cells@ =~= slot_cells(*word).take(upto as int) + seq![closing_cell(*word)]);
                assert(cells@ =~= slot_cells(*word).take(upto as int) + seq![closing_cell(*word)]
                    + Seq::<Cell>::empty());
                assert(cells@ == word_cells_within(*word, max_width as nat));
            }
        }
    }
    cells
}

/// The separator cell, as drawn.
fn sep_cell_exec() -> (r: Cell)
    ensures
        r == sep_cell(),
{
    Cell { c: ' ', color: CharState::Unreached, underline: false }
}

/// Draws the first `upto` character slots of a word into the cell run.
fn push_slots(cells: &mut Vec<Cell>, word: &MecanoWord, upto: usize, ul: bool)
    requires
        upto <= word.word@.len(),
        ul == word_underlined(*word),
        old(cells)@.len() == 0,
    ensures
        final(cells)@ == slot_cells(*word).take(upto as int),
{
    let mut i: usize = 0;
    while i < upto
        invariant
            0 <= i <= upto,
            upto <= word.word@.len(),
            ul == word_underlined(*word),
            cells@ == slot_cells(*word).take(i as int),
        decreases upto - i,
    {
        let mc = word.word[i];
        cells.push(Cell { c: mc.c, color: mc.state, underline: ul });
        proof {
            assert(cells@ =~= slot_cells(*word).take(i + 1));
        }
        i += 1;
    }
}

/// The rows the window renderer owes, walking the words from `idx` with the
/// row `current` open and `remaining` of its columns free: each word is laid
/// on the open row when its slots and a separator still fit, and otherwise
/// the row is closed and the word starts a fresh one, until the words or the
/// row budget run out.
pub open spec fn layout_rows(
    words: Seq<MecanoWord>,
    idx: int,
    row_budget: nat,
    cols: nat,
    current: Seq<Cell>,
    remaining: int,
    done: Seq<Seq<Cell>>,
) -> Seq<Seq<Cell>>
    decreases words.len() - idx,
    when idx >= 0
{
    if idx >= words.len() {
        done.push(current)
    } else {
        let wlen = words[idx].word@.len();
        if remaining < wlen + 1 {
            let closed = done.push(current);
            if closed.len() >= row_budget {
                closed
            } else {
                let cells = word_cells_within(words[idx], cols);
                layout_rows(
                    words,
                    idx + 1,
                    row_budget,
                    cols,
                    cells,
                    cols - cells.len(),
                    closed,
                )
            }
        } else {
            let cells = word_cells_within(words[idx], remaining as nat);
            layout_rows(
                words,
                idx + 1,
                row_budget,
                cols,
                current + cells,
                remaining - cells.len(),
                done,
            )
        }
    }
}

/// The rows of the whole visible window: the words from the first visible
/// one, on fresh rows of the buffer's geometry.
pub open spec fn window_rows(buffer: MecanoBuffer) -> Seq<Seq<Cell>> {
    layout_rows(
        buffer.mecano_words@,
        buffer.idx_print_offset as int,
        buffer.rows(),
        buffer.cols(),
        Seq::empty(),
        buffer.cols() as int,
        Seq::empty(),
    )
}

/// The cell rows a built vector holds.
pub open spec fn row_views(rows: Seq<Vec<Cell>>) -> Seq<Seq<Cell>> {
    Seq::new(rows.len(), |i: int| rows[i]@)
}

/// Renders the visible window: exactly the words from the first visible one
/// onward, laid out row by row, moving to a fresh row when the next word
/// would not fit, and stopping at the viewport's row budget. No row ever
/// exceeds the column budget.
pub fn render(buffer: &MecanoBuffer) -> (r: Vec<Vec<Cell>>)
    requires
        buffer.wf(),
    ensures
        r@.len() <= buffer.rows(),
        forall|i: int| 0 <= i < r@.len() ==> (#[trigger] r@[i])@.len() <= buffer.cols(),
        row_views(r@) == window_rows(*buffer),
{
    let rows = buffer.size.0;
    let cols = buffer.size.1;
    let n = buffer.mecano_words.len();
    let mut out: Vec<Vec<Cell>> = Vec::new();
    let mut current: Vec<Cell> = Vec::new();
    let mut remaining: Count = cols as Count;
    let mut idx: usize = buffer.idx_print_offset;
    let mut full = false;
    proof {
        assert(row_views(out@) =~= Seq::<Seq<Cell>>::empty());
        assert(current@ =~= Seq::<Cell>::empty());
    }
    while idx < n && !full
        invariant
            buffer.wf(),
            n == buffer.mecano_words@.len(),
            rows == buffer.size.0,
            cols == buffer.size.1,
            buffer.idx_print_offset <= idx <= n,
            out@.len() <= rows,
            !full ==> out@.len() < rows,
            current@.len() + remaining == cols as Count,
            forall|i: int| 0 <= i < out@.len() ==> (#[trigger] out@[i])@.len() <= cols as nat,
            !full ==> window_rows(*buffer) == layout_rows(
                buffer.mecano_words@,
                idx as int,
                buffer.rows(),
                buffer.cols(),
                current@,
                remaining as int,
                row_views(out@),
            ),
            full ==> window_rows(*buffer) == row_views(out@),
        decreases n - idx, 1int - (if full { 1int } else { 0int }),
    {
        let wlen = buffer.mecano_words[idx].word.len() as Count;
        if remaining < wlen + 1 {
            let ghost open_row = current@;
            let ghost done_before = row_views(out@);
            out.push(current);
            current = Vec::new();
            remaining = cols as Count;
            proof {
                assert(row_views(out@) =~= done_before.push(open_row));
            }
            if out.len() >= rows as usize {
                full = true;
            } else {
                let mut cells = print_word(&buffer.mecano_words[idx], remaining);
                remaining = remaining - (cells.len() as Count);
                current.append(&mut cells);
                proof {
                    assert(current@ =~= word_cells_within(
                        buffer.mecano_words@[idx as int],
                        cols as nat,
                    ));
                }
                idx += 1;
            }
        } else {
            let ghost open_row = current@;
            let mut cells = print_word(&buffer.mecano_words[idx], remaining);
            remaining = remaining - (cells.len() as Count);
            current.append(&mut cells);
            proof {
                assert(current@ =~= open_row + word_cells_within(
                    buffer.mecano_words@[idx as int],
                    (cols as Count - open_row.len() as Count) as nat,
                ));
            }
            idx += 1;
        }
    }
    if !full {
        proof {
            assert(window_rows(*buffer) == row_views(out@).push(current@));
        }
        let ghost done_before = row_views(out@);
        let ghost last_row = current@;
        out.push(current);
        proof {
            assert(row_views(out@) =~= done_before.push(last_row));
        }
    }
    out
}

} // verus!
