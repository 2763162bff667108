use vstd::prelude::*;

use crate::buffer::{MecanoBuffer, Redraw};
use crate::modes::Mode;
use crate::punctuation::Punct;
use crate::{Count, TermUnit};

verus! {

/// The session's state: waiting for the first keystroke, running, paused,
/// showing the final score, or unable to fit on the terminal.
#[derive(Debug, Clone, Copy, PartialEq, Eq, Structural)]
pub enum Engine {
    Ready,
    Stop,
    Run,
    ShowPunct,
    TooNarrow,
}

/// Which screen one tick must paint.
#[derive(Debug, Clone, Copy, PartialEq, Eq, Structural)]
pub enum Screen {
    Playing,
    Punct,
    TooNarrow,
}

/// A key, as the session reads it.
#[derive(Debug, Clone, Copy, PartialEq, Eq, Structural)]
pub enum KeyCode {
    Char(char),
    Esc,
    Backspace,
    Right,
    Left,
    Up,
    Down,
    Other,
}

/// The modifiers held with a key; only plain and shifted keys type.
#[derive(Debug, Clone, Copy, PartialEq, Eq, Structural)]
pub enum KeyMods {
    Empty,
    Shift,
    Other,
}

/// One key event, as the session reads it.
#[derive(Debug, Clone, Copy, PartialEq, Eq, Structural)]
pub struct KeyEvent {
    pub code: KeyCode,
    pub mods: KeyMods,
}

/// One input event: a key, a terminal resize, or a focus change.
#[derive(Debug, Clone, Copy, PartialEq, Eq, Structural)]
pub enum Event {
    Key(KeyEvent),
    Resize(TermUnit, TermUnit),
    FocusGained,
    FocusLost,
    Other,
}

/// What one handled event obliges the caller to do: keep the session alive
/// or quit, and repaint this much.
#[derive(Debug, Clone, Copy, PartialEq, Eq, Structural)]
pub struct KeyOutcome {
    pub keep_going: bool,
    pub redraw: Redraw,
}

/// The centered box the session draws in: its padding, its inner width, and
/// the terminal size it was computed for.
#[derive(Debug, Clone, Copy, PartialEq, Eq)]
pub struct BoxInfo {
    pub left_padding: TermUnit,
    pub top_padding: TermUnit,
    pub width: TermUnit,
    pub size: (TermUnit, TermUnit),
}

impl BoxInfo {
    /// Centers a box of the given width on a terminal of the given size; a
    /// terminal without one spare column beside the box, or under nine rows,
    /// cannot hold the session's frame.
    pub fn centered(box_width: TermUnit, size: (TermUnit, TermUnit)) -> (r: Result<BoxInfo, ()>)
        ensures
            r is Ok <==> size.0 as int >= box_width as int + 1 && size.1 >= 9,
            r matches Ok(b) ==> {
                &&& b.left_padding == (size.0 - box_width) as int / 2
                &&& b.top_padding == (size.1 - 4) as int / 2
                &&& b.width == box_width
                &&& b.size == size
            },
    {
        if (size.0 as Count) < (box_width as Count) + 1 || size.1 < 9 {
            return Err(());
        }
        let left_padding = (size.0 - box_width) / 2;
        let top_padding = (size.1 - 4) / 2;
        Ok(BoxInfo { left_padding, top_padding, width: box_width, size })
    }
}

impl Default for BoxInfo {
    /// The degenerate box used before any terminal size is known.
    fn default() -> (r: BoxInfo)
        ensures
            r.left_padding == 0,
            r.top_padding == 0,
            r.width == 0,
            r.size == (0u16, 0u16),
    {
        BoxInfo { left_padding: 0, top_padding: 0, width: 0, size: (0, 0) }
    }
}

/// The rows the viewport shows on a terminal this tall: half the terminal
/// less the frame, but never more than asked and never none.
pub open spec fn spec_rows_to_show(term_height: TermUnit, lines: TermUnit) -> TermUnit {
    let avail = if term_height as int / 2 >= 3 {
        (term_height as int / 2 - 2) as TermUnit
    } else {
        1u16
    };
    if lines <= avail {
        lines
    } else {
        avail
    }
}

/// The whole typing session: the word buffer, the echo line under it, the
/// screen geometry, and the state machine that drives every tick.
pub struct Mecano {
    pub input_offset: TermUnit,
    pub typed_word: Vec<char>,
    pub textbox: MecanoBuffer,
    pub box_info: BoxInfo,
    pub width: TermUnit,
    pub lines_to_show: TermUnit,
    pub engine: Engine,
    pub prior_engine: Engine,
    pub punct: Option<Punct>,
}

impl Mecano {
    /// The session's invariant: a sound buffer and workable geometry.
    pub open spec fn wf(self) -> bool {
        &&& self.textbox.wf()
        &&& self.width >= 1
        &&& self.lines_to_show >= 1
    }

    /// Builds a session over a word source, ready for its first keystroke.
    pub fn new(
        words_source: Mode,
        width: TermUnit,
        lines_to_show: TermUnit,
        max_time: Count,
        term_size: (TermUnit, TermUnit),
    ) -> (r: Mecano)
        requires
            words_source.inv(),
            width >= 1,
            lines_to_show >= 1,
        ensures
            r.wf(),
            r.engine == Engine::Ready,
            r.width == width,
            r.lines_to_show == lines_to_show,
            r.typed_word@.len() == 0,
            r.punct is None,
            r.textbox.total_duration == max_time,
            crate::buffer::yields_seq(
                words_source,
                r.textbox.words_source,
                crate::buffer::word_texts(r.textbox.mecano_words@),
            ),
    {
        let box_info = match BoxInfo::centered(width, term_size) {
            Ok(b) => b,
            Err(_) => BoxInfo::default(),
        };
        let rows = rows_to_show_for(box_info.size.1, lines_to_show);
        let buffer = MecanoBuffer::new(words_source, (rows, width), max_time);
        Mecano {
            input_offset: box_info.left_padding,
            typed_word: Vec::new(),
            textbox: buffer,
            box_info,
            width,
            lines_to_show,
            engine: Engine::Ready,
            prior_engine: Engine::Ready,
            punct: Option::None,
        }
    }

    pub fn run(&mut self)
        ensures
            *final(self) == (Mecano { engine: Engine::Run, ..*old(self) }),
    {
        self.engine = Engine::Run;
    }

    pub fn stop(&mut self)
        ensures
            *final(self) == (Mecano { engine: Engine::Stop, ..*old(self) }),
    {
        self.engine = Engine::Stop;
    }

    pub fn end(&mut self)
        ensures
            *final(self) == (Mecano { engine: Engine::ShowPunct, ..*old(self) }),
    {
        self.engine = Engine::ShowPunct;
    }

    /// Remembers the current state and leaves the screen until the terminal
    /// is wide enough again.
    pub fn too_narrow(&mut self)
        ensures
            final(self).engine == Engine::TooNarrow,
            old(self).engine != Engine::TooNarrow ==> final(self).prior_engine == old(
                self,
            ).engine,
            old(self).engine == Engine::TooNarrow ==> *final(self) == *old(self),
            final(self).textbox == old(self).textbox,
            final(self).typed_word == old(self).typed_word,
            final(self).width == old(self).width,
            final(self).lines_to_show == old(self).lines_to_show,
            final(self).box_info == old(self).box_info,
            final(self).input_offset == old(self).input_offset,
            final(self).punct == old(self).punct,
    {
        if !self.is_too_narrow() {
            self.prior_engine = self.engine;
            self.engine = Engine::TooNarrow;
        }
    }

    pub fn is_running(&self) -> (r: bool)
        ensures
            r == (self.engine == Engine::Run),
    {
        match self.engine {
            Engine::Run => true,
            _ => false,
        }
    }

    pub fn is_stopped(&self) -> (r: bool)
        ensures
            r == (self.engine == Engine::Stop),
    {
        match self.engine {
            Engine::Stop => true,
            _ => false,
        }
    }

    pub fn is_ended(&self) -> (r: bool)
        ensures
            r == (self.engine == Engine::ShowPunct),
    {
        match self.engine {
            Engine::ShowPunct => true,
            _ => false,
        }
    }

    pub fn is_too_narrow(&self) -> (r: bool)
        ensures
            r == (self.engine == Engine::TooNarrow),
    {
        match self.engine {
            Engine::TooNarrow => true,
            _ => false,
        }
    }

    pub fn is_ready(&self) -> (r: bool)
        ensures
            r == (self.engine == Engine::Ready),
    {
        match self.engine {
            Engine::Ready => true,
            _ => false,
        }
    }

    /// Advances the countdown by one tick; the session finishes exactly when
    /// the countdown runs out.
    pub fn update_time(&mut self, elapsed: Count)
        requires
            old(self).wf(),
        ensures
            final(self).wf(),
            final(self).textbox.total_duration == if elapsed <= old(self).textbox.total_duration {
                old(self).textbox.total_duration - elapsed
            } else {
                0
            },
            final(self).engine == if final(self).textbox.total_duration == 0 {
                Engine::ShowPunct
            } else {
                old(self).engine
            },
            final(self).typed_word == old(self).typed_word,
            final(self).width == old(self).width,
            final(self).lines_to_show == old(self).lines_to_show,
    {
        let keep_going = self.textbox.update_time(elapsed);
        if !keep_going {
            self.end();
        }
    }

    /// How one key event relates the session before and after, with the
    /// outcome owed to the caller: the score screen honors only a quit; a
    /// too-narrow screen and chorded keys drop the event; the escape key
    /// quits; arrows pause the countdown and resize the viewport; a typed
    /// character reaches the word buffer as one keystroke, echoed under the
    /// text; a backspace takes back one keystroke from both.
    pub open spec fn key_event_rel(pre: Mecano, post: Mecano, key: KeyEvent, r: KeyOutcome) -> bool {
        // on the score screen, quit on the escape key and ignore the rest
        &&& (pre.engine == Engine::ShowPunct ==> post == pre && r.keep_going == (key.code
            != KeyCode::Esc) && r.redraw == Redraw::Nothing)
        // while the terminal cannot hold the frame, keys are dropped
        &&& (pre.engine == Engine::TooNarrow ==> post == pre && r.keep_going && r.redraw
            == Redraw::Nothing)
        // a chorded key is an input anomaly: dropped, nothing corrupted
        &&& (pre.engine != Engine::ShowPunct && pre.engine != Engine::TooNarrow && key.mods
            == KeyMods::Other ==> post == pre && r.keep_going && r.redraw == Redraw::Nothing)
        // the escape key quits
        &&& (pre.engine != Engine::ShowPunct && pre.engine != Engine::TooNarrow && key.mods
            != KeyMods::Other && key.code == KeyCode::Esc ==> post == pre && !r.keep_going)
        // arrows resize the viewport and pause the countdown
        &&& (pre.engine != Engine::ShowPunct && pre.engine != Engine::TooNarrow && key.mods
            != KeyMods::Other && (key.code == KeyCode::Right || key.code == KeyCode::Left
            || key.code == KeyCode::Up || key.code == KeyCode::Down) ==> {
            &&& post.engine == Engine::Stop
            &&& post.textbox == pre.textbox
            &&& post.typed_word == pre.typed_word
            &&& r.keep_going
            &&& r.redraw == Redraw::Full
            &&& (key.code == KeyCode::Right ==> post.width == (if pre.width <= TermUnit::MAX - 4 {
                (pre.width + 4) as TermUnit
            } else {
                TermUnit::MAX
            }))
            &&& (key.code == KeyCode::Left ==> post.width == (if pre.width > 5 {
                (pre.width - 4) as TermUnit
            } else {
                1u16
            }))
            &&& (key.code == KeyCode::Down ==> post.lines_to_show == (if pre.lines_to_show
                < TermUnit::MAX {
                (pre.lines_to_show + 1) as TermUnit
            } else {
                TermUnit::MAX
            }))
            &&& (key.code == KeyCode::Up ==> post.lines_to_show == (if pre.lines_to_show > 1 {
                (pre.lines_to_show - 1) as TermUnit
            } else {
                1u16
            }))
        })
        // a typed character reaches the buffer as one keystroke
        &&& (pre.engine != Engine::ShowPunct && pre.engine != Engine::TooNarrow && key.mods
            != KeyMods::Other && (key.code matches KeyCode::Char(_)) ==> {
            &&& r.keep_going
            &&& MecanoBuffer::type_char_rel(pre.textbox, post.textbox, key.code->Char_0, r.redraw)
            &&& (crate::char_is_separator(key.code->Char_0) ==> post.typed_word@.len() == 0)
            &&& (!crate::char_is_separator(key.code->Char_0) ==> post.typed_word@ == (if r.redraw
                != Redraw::Nothing {
                pre.typed_word@.push(key.code->Char_0)
            } else {
                pre.typed_word@
            }))
        })
        // a backspace takes back one keystroke from the buffer and the echo
        &&& (pre.engine != Engine::ShowPunct && pre.engine != Engine::TooNarrow && key.mods
            != KeyMods::Other && key.code == KeyCode::Backspace ==> {
            &&& r.keep_going
            &&& MecanoBuffer::backspace_rel(pre.textbox, post.textbox, r.redraw)
            &&& post.typed_word@ == (if pre.typed_word@.len() > 0 {
                pre.typed_word@.drop_last()
            } else {
                pre.typed_word@
            })
        })
    }

    /// One key event while the session shows the score screen: only a quit is
    /// honored, every other key is ignored.
    /// Otherwise the key types, erases, or resizes the viewport, and the
    /// result says whether to keep going and how much to repaint.
    pub fn type_key_event(&mut self, key: KeyEvent) -> (r: KeyOutcome)
        requires
            old(self).wf(),
        ensures
            final(self).wf(),
            Mecano::key_event_rel(*old(self), *final(self), key, r),
    {
        if self.is_ended() {
            return match key.code {
                KeyCode::Esc => KeyOutcome { keep_going: false, redraw: Redraw::Nothing },
                _ => KeyOutcome { keep_going: true, redraw: Redraw::Nothing },
            };
        }
        if self.is_too_narrow() {
            return KeyOutcome { keep_going: true, redraw: Redraw::Nothing };
        }
        match key.mods {
            KeyMods::Other => {
                return KeyOutcome { keep_going: true, redraw: Redraw::Nothing };
            },
            _ => {},
        }
        match key.code {
            KeyCode::Char(c) => {
                let redraw = self.textbox.type_char(c);
                if crate::is_word_separator(c) {
                    self.typed_word.clear();
                    self.input_offset = self.box_info.left_padding;
                } else {
                    if redraw != Redraw::Nothing {
                        self.typed_word.push(c);
                    }
                    let shown: Count = if (self.typed_word.len() as Count) <= (self.width
                        as Count) - 1 {
                        self.typed_word.len() as Count
                    } else {
                        (self.width - 1) as Count
                    };
                    let off: Count = (self.box_info.left_padding as Count) + shown;
                    self.input_offset = if off <= TermUnit::MAX as Count {
                        off as TermUnit
                    } else {
                        TermUnit::MAX
                    };
                }
                KeyOutcome { keep_going: true, redraw }
            },
            KeyCode::Esc => KeyOutcome { keep_going: false, redraw: Redraw::Nothing },
            KeyCode::Backspace => {
                let redraw = self.textbox.backspace();
                let popped = self.typed_word.pop();
                if popped.is_some() && self.input_offset > 0 {
                    self.input_offset = self.input_offset - 1;
                }
                KeyOutcome { keep_going: true, redraw }
            },
            KeyCode::Right => {
                self.stop();
                self.width = if self.width <= TermUnit::MAX - 4 {
                    self.width + 4
                } else {
                    TermUnit::MAX
                };
                KeyOutcome { keep_going: true, redraw: Redraw::Full }
            },
            KeyCode::Left => {
                self.stop();
                self.width = if self.width > 5 {
                    self.width - 4
                } else {
                    1
                };
                KeyOutcome { keep_going: true, redraw: Redraw::Full }
            },
            KeyCode::Down => {
                self.stop();
                self.lines_to_show = if self.lines_to_show < TermUnit::MAX {
                    self.lines_to_show + 1
                } else {
                    TermUnit::MAX
                };
                KeyOutcome { keep_going: true, redraw: Redraw::Full }
            },
            KeyCode::Up => {
                self.stop();
                self.lines_to_show = if self.lines_to_show > 1 {
                    self.lines_to_show - 1
                } else {
                    1
                };
                KeyOutcome { keep_going: true, redraw: Redraw::Full }
            },
            KeyCode::Other => KeyOutcome { keep_going: true, redraw: Redraw::Nothing },
        }
    }

    /// One polled event: keys go to the key handler; a resize pauses the
    /// countdown and forces a repaint; focus loss pauses, focus gain resumes.
    pub fn handle_event(&mut self, event: Event) -> (r: KeyOutcome)
        requires
            old(self).wf(),
        ensures
            final(self).wf(),
            event matches Event::Key(k) ==> Mecano::key_event_rel(*old(self), *final(self), k, r),
            event matches Event::Resize(_, _) ==> r.keep_going && r.redraw == Redraw::Full
                && final(self).engine == (if old(self).engine == Engine::ShowPunct {
                Engine::ShowPunct
            } else {
                Engine::Stop
            }),
            event == Event::FocusGained ==> r.keep_going && final(self).engine == (if old(
                self,
            ).engine == Engine::ShowPunct {
                Engine::ShowPunct
            } else {
                Engine::Run
            }),
            event == Event::FocusLost ==> r.keep_going && final(self).engine == (if old(
                self,
            ).engine == Engine::ShowPunct {
                Engine::ShowPunct
            } else {
                Engine::Stop
            }),
            event == Event::Other ==> *final(self) == *old(self) && r.keep_going,
    {
        match event {
            Event::Key(k) => self.type_key_event(k),
            Event::Resize(_, _) => {
                if !self.is_ended() {
                    self.stop();
                }
                KeyOutcome { keep_going: true, redraw: Redraw::Full }
            },
            Event::FocusGained => {
                if !self.is_ended() {
                    self.run();
                }
                KeyOutcome { keep_going: true, redraw: Redraw::Nothing }
            },
            Event::FocusLost => {
                if !self.is_ended() {
                    self.stop();
                }
                KeyOutcome { keep_going: true, redraw: Redraw::Nothing }
            },
            Event::Other => KeyOutcome { keep_going: true, redraw: Redraw::Nothing },
        }
    }

    /// Recomputes the geometry for the real terminal size and decides which
    /// screen to paint: the frame recenters when it fits, and the session
    /// falls back to, or returns from, the too-narrow screen.
    pub fn draw(&mut self, real_size: (TermUnit, TermUnit)) -> (r: Screen)
        requires
            old(self).wf(),
        ensures
            final(self).wf(),
            real_size.0 as int >= old(self).width as int + 1 && real_size.1 >= 9 ==> {
                &&& final(self).box_info.width == old(self).width
                &&& final(self).box_info.size == real_size
                &&& final(self).textbox.size == (
                    spec_rows_to_show(real_size.1, old(self).lines_to_show),
                    old(self).width,
                )
                &&& final(self).engine != Engine::TooNarrow
                // leaving the too-narrow screen returns to the state held
                // when it was entered
                &&& (old(self).engine == Engine::TooNarrow ==> final(self).engine == (if old(
                    self,
                ).prior_engine != Engine::TooNarrow {
                    old(self).prior_engine
                } else {
                    Engine::Stop
                }))
                &&& (old(self).engine != Engine::TooNarrow ==> final(self).engine == old(
                    self,
                ).engine)
                &&& r == (if final(self).engine == Engine::ShowPunct {
                    Screen::Punct
                } else {
                    Screen::Playing
                })
            },
            !(real_size.0 as int >= old(self).width as int + 1 && real_size.1 >= 9) ==> {
                &&& (old(self).engine != Engine::ShowPunct ==> final(self).engine
                    == Engine::TooNarrow && r == Screen::TooNarrow)
                &&& (old(self).engine == Engine::ShowPunct ==> final(self).engine
                    == Engine::ShowPunct && r == Screen::Punct)
            },
    {
        match BoxInfo::centered(self.width, real_size) {
            Ok(box_info) => {
                self.box_info = box_info;
                let rows = rows_to_show_for(self.box_info.size.1, self.lines_to_show);
                self.textbox.set_size((rows, self.width));
                self.textbox.set_column(self.box_info.left_padding);
                if self.is_too_narrow() {
                    self.engine = self.prior_engine;
                    if self.is_too_narrow() {
                        self.engine = Engine::Stop;
                    }
                }
                if self.is_ended() {
                    Screen::Punct
                } else {
                    Screen::Playing
                }
            },
            Err(_) => {
                if self.is_ended() {
                    Screen::Punct
                } else {
                    self.too_narrow();
                    Screen::TooNarrow
                }
            },
        }
    }

    /// The final score, computed once from the buffer and kept.
    pub fn session_punct(&mut self) -> (r: Punct)
        requires
            old(self).wf(),
        ensures
            final(self).wf(),
            final(self).punct is Some,
            old(self).punct is None ==> {
                &&& r.chars_right == crate::buffer::folded_counts(
                    final(self).textbox.mecano_words@,
                ).0
                &&& r.chars_wrong == crate::buffer::folded_counts(
                    final(self).textbox.mecano_words@,
                ).1
                &&& r.chars_extra == crate::buffer::folded_counts(
                    final(self).textbox.mecano_words@,
                ).2
                &&& r.chars_missed == crate::buffer::folded_counts(
                    final(self).textbox.mecano_words@,
                ).3
                &&& r.total_time == crate::buffer::folded_counts(
                    final(self).textbox.mecano_words@,
                ).4
                &&& (r.snapshot_defined() ==> r.stats@.len() > 0 && r.stats@.last()
                    == r.current_stats())
            },
            old(self).punct matches Some(p) ==> r.chars_right == p.chars_right && r.chars_wrong
                == p.chars_wrong && r.chars_extra == p.chars_extra && r.chars_missed
                == p.chars_missed && r.total_time == p.total_time && r.stats@ == p.stats@,
    {
        if self.punct.is_none() {
            let p = self.textbox.get_punct();
            self.punct = Option::Some(p);
        }
        match &self.punct {
            Option::Some(p) => clone_punct(p),
            Option::None => Punct::new(),
        }
    }
}

/// Copies an aggregate for handing out while the session keeps its own.
fn clone_punct(p: &Punct) -> (r: Punct)
    ensures
        r.chars_right == p.chars_right,
        r.chars_wrong == p.chars_wrong,
        r.chars_extra == p.chars_extra,
        r.chars_missed == p.chars_missed,
        r.total_time == p.total_time,
        r.stats@ == p.stats@,
        r.size == p.size,
        r.pos == p.pos,
{
    Punct {
        chars_right: p.chars_right,
        chars_wrong: p.chars_wrong,
        chars_extra: p.chars_extra,
        chars_missed: p.chars_missed,
        stats: p.stats.clone(),
        total_time: p.total_time,
        size: p.size,
        pos: p.pos,
    }
}

/// The rows the viewport shows on a terminal this tall.
fn rows_to_show_for(term_height: TermUnit, lines: TermUnit) -> (r: TermUnit)
    requires
        lines >= 1,
    ensures
        r == spec_rows_to_show(term_height, lines),
        r >= 1,
{
    let half = term_height / 2;
    let avail: TermUnit = if half >= 3 {
        half - 2
    } else {
        1
    };
    if lines <= avail {
        lines
    } else {
        avail
    }
}

} // verus!
