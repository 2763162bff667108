use mecano::buffer::{MecanoBuffer, Redraw};
use mecano::modes::Mode;
use mecano::punctuation::{Punct, Stats};
use mecano::textbox::render;
use mecano::word::{WordPunct, WordState};

fn buffer_over(text: &str, rows: u16, cols: u16) -> MecanoBuffer {
    let mode = Mode::new("file", text, cols).unwrap();
    MecanoBuffer::new(mode, (rows, cols), 60_000)
}

fn type_line(buffer: &mut MecanoBuffer, line: &str, ms_per_key: u64) {
    for c in line.chars() {
        buffer.update_time(ms_per_key);
        buffer.type_char(c);
    }
}

fn finalized_count(buffer: &MecanoBuffer) -> usize {
    buffer
        .mecano_words
        .iter()
        .filter(|w| {
            w.get_punct().state == WordState::Right || w.get_punct().state == WordState::Wrong
        })
        .count()
}

#[test]
fn cyclic_session_counts_every_right_keystroke() {
    // word list ["ab", "cd"], typed perfectly at a uniform pace: three words
    // finalized, six judged characters all right, perfect accuracy
    let mut buffer = buffer_over("ab cd", 2, 10);
    type_line(&mut buffer, "ab cd ab ", 100);

    assert_eq!(finalized_count(&buffer), 3);
    let punct: Punct = buffer.get_punct();
    assert_eq!(punct.chars_right, 6);
    assert_eq!(punct.chars_wrong, 0);
    assert_eq!(punct.chars_extra, 0);
    let (_, _, _, _, raw, wpm, acc) = punct.get_raw_info();
    assert_eq!(acc, 10_000);
    assert_eq!(raw, wpm);
}

#[test]
fn line_chars_accumulate_and_wrap_resets() {
    // viewport of 2 rows and 16 columns, words of width 4: three words fit on
    // the row; the fourth would overrun it, so the first visible word
    // advances to the typed one and the row starts over
    let mut buffer = buffer_over("word", 2, 16);
    assert_eq!(buffer.n_typed_line_chars, 0);

    type_line(&mut buffer, "word ", 10);
    assert_eq!(buffer.n_typed_line_chars, 5);
    assert_eq!(buffer.idx_print_offset, 0);

    type_line(&mut buffer, "word ", 10);
    assert_eq!(buffer.n_typed_line_chars, 10);
    assert_eq!(buffer.idx_print_offset, 0);

    type_line(&mut buffer, "word ", 10);
    assert_eq!(buffer.n_typed_line_chars, 0);
    assert_eq!(buffer.idx_print_offset, buffer.idx_typing_word);
}

#[test]
fn look_ahead_always_covers_the_viewport() {
    let mut buffer = buffer_over("uno dos tres", 3, 12);
    assert!(buffer.n_total_chars_to_show >= 3 * 12);
    buffer.complete_size();
    assert!(buffer.n_total_chars_to_show >= 3 * 12);
    buffer.set_size((5, 20));
    assert!(buffer.n_total_chars_to_show >= 5 * 20);
}

#[test]
fn perfect_session_statistics() {
    // eight right characters in 800 milliseconds: 120 words per minute,
    // accuracy exactly one, raw speed equal to net speed
    let mut punct = Punct::new();
    let word = WordPunct {
        total: 8,
        right: 8,
        wrong: 0,
        excess: 0,
        missed: 0,
        state: WordState::Right,
        key_times: vec![100; 8],
    };
    punct.push_punct_word(&word);

    assert_eq!(punct.total_time, 800);
    let stats: Stats = punct.calc_stats();
    assert_eq!(stats.wpm_milli, 8 * 12_000_000 / 800);
    assert_eq!(stats.wpm_milli, 120_000);
    assert_eq!(stats.raw_milli, stats.wpm_milli);
    assert_eq!(stats.acc_permyriad, 10_000);
}

#[test]
fn snapshot_held_until_defined() {
    // no snapshot is owed before a judged keystroke with elapsed time exists
    let mut punct = Punct::new();
    let untyped = WordPunct {
        total: 4,
        right: 0,
        wrong: 0,
        excess: 0,
        missed: 4,
        state: WordState::Wrong,
        key_times: vec![],
    };
    punct.push_punct_word(&untyped);
    assert!(punct.stats.is_empty());
}

#[test]
fn idle_time_charged_to_next_keystroke() {
    // 300 ms pass before the first keystroke of the word: that time belongs
    // to the first keystroke, not to the void
    let mut buffer = buffer_over("ab", 2, 10);
    buffer.update_time(300);
    buffer.type_char('a');
    buffer.update_time(100);
    buffer.type_char('b');
    let sel = &buffer.mecano_words[buffer.idx_typing_word];
    assert_eq!(sel.get_punct().key_times, vec![300, 100]);
}

#[test]
fn backspace_on_overflow_forces_full_redraw() {
    let mut buffer = buffer_over("ab", 2, 10);
    buffer.type_char('a');
    buffer.type_char('b');
    buffer.type_char('x');
    assert_eq!(buffer.backspace(), Redraw::Full);
    assert_eq!(buffer.backspace(), Redraw::Selected);
}

#[test]
fn countdown_reaches_zero_and_stays() {
    let mut buffer = buffer_over("ab", 2, 10);
    assert!(buffer.update_time(59_999));
    assert_eq!(buffer.get_remaining_time(), 1);
    assert!(!buffer.update_time(5));
    assert_eq!(buffer.get_remaining_time(), 0);
}

#[test]
fn render_streams_words_from_the_first_visible_one() {
    // fresh buffer over the cycle ab, cd: two 10-column rows, three words
    // and their separators on each, the selected first word underlined
    let buffer = buffer_over("ab cd", 2, 10);
    let rows = render(&buffer);
    assert_eq!(rows.len(), 2);
    let row0: String = rows[0].iter().map(|c| c.c).collect();
    let row1: String = rows[1].iter().map(|c| c.c).collect();
    assert_eq!(row0, "ab cd ab ");
    assert_eq!(row1, "cd ab cd ");
    assert!(rows[0][0].underline);
    assert!(!rows[0][2].underline);
    assert!(!rows[1][0].underline);
}

#[test]
fn render_respects_the_viewport_budget() {
    let mut buffer = buffer_over("uno dos tres cuatro", 3, 12);
    type_line(&mut buffer, "uno dxs ", 50);
    let rows = render(&buffer);
    assert!(rows.len() <= 3);
    for row in &rows {
        assert!(row.len() <= 12);
    }
}
