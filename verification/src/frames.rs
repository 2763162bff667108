use vstd::prelude::*;

use crate::{sat_add, saturating_add_count, Count, TermUnit};

verus! {

/// The countdown display: the time it shows and its place on screen.
pub struct Clock {
    pub time: Count,
    pub pos: (TermUnit, TermUnit),
    pub size: (TermUnit, TermUnit),
}

impl Clock {
    /// Puts more time on the clock; a sum past the range is held at the top.
    pub fn add_time(&mut self, time: Count)
        ensures
            final(self).time == sat_add(old(self).time as nat, time as nat),
            final(self).pos == old(self).pos,
            final(self).size == old(self).size,
    {
        self.time = saturating_add_count(self.time, time);
    }

    /// Takes time off the clock, never below zero.
    pub fn sub_time(&mut self, time: Count)
        ensures
            final(self).time == if time <= old(self).time {
                old(self).time - time
            } else {
                0
            },
            final(self).pos == old(self).pos,
            final(self).size == old(self).size,
    {
        if time <= self.time {
            self.time = self.time - time;
        } else {
            self.time = 0;
        }
    }

    /// Sets the clock.
    pub fn set_time(&mut self, time: Count)
        ensures
            *final(self) == (Clock { time, ..*old(self) }),
    {
        self.time = time;
    }
}

/// The echo line showing what is being typed, and its place on screen.
pub struct Input {
    pub input: Vec<char>,
    pub pos: (TermUnit, TermUnit),
    pub size: (TermUnit, TermUnit),
}

impl Input {
    /// Echoes one typed character.
    pub fn push(&mut self, c: char)
        ensures
            final(self).input@ == old(self).input@.push(c),
            final(self).pos == old(self).pos,
            final(self).size == old(self).size,
    {
        self.input.push(c);
    }

    /// Takes back the last echoed character; empty input stays empty.
    pub fn pop(&mut self)
        ensures
            final(self).input@ == if old(self).input@.len() > 0 {
                old(self).input@.drop_last()
            } else {
                old(self).input@
            },
            final(self).pos == old(self).pos,
            final(self).size == old(self).size,
    {
        let _ = self.input.pop();
    }
}

/// The banner art shown over the session, and its place on screen.
pub struct Title {
    pub title: Vec<String>,
    pub pos: (TermUnit, TermUnit),
    pub size: (TermUnit, TermUnit),
}

impl Title {
    /// Builds the banner at the given position and size.
    pub fn new(pos: (TermUnit, TermUnit), size: (TermUnit, TermUnit)) -> (r: Title)
        ensures
            r.pos == pos,
            r.size == size,
            r.title@.len() == 6,
    {
        let mut title: Vec<String> = Vec::new();
        title.push("███╗   ███╗███████╗ ██████╗ █████╗ ███╗   ██╗ ██████╗ ".to_owned());
        title.push("████╗ ████║██╔════╝██╔════╝██╔══██╗████╗  ██║██╔═══██╗".to_owned());
        title.push("██╔████╔██║█████╗  ██║     ███████║██╔██╗ ██║██║   ██║".to_owned());
        title.push("██║╚██╔╝██║██╔══╝  ██║     ██╔══██║██║╚██╗██║██║   ██║".to_owned());
        title.push("██║ ╚═╝ ██║███████╗╚██████╗██║  ██║██║ ╚████║╚██████╔╝".to_owned());
        title.push("╚═╝     ╚═╝╚══════╝ ╚═════╝╚═╝  ╚═╝╚═╝  ╚═══╝ ╚═════╝ ".to_owned());
        Title { title, pos, size }
    }
}

} // verus!
