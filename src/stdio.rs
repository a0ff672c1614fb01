//! The console input line discipline. Characters typed on the console are
//! edited in a line buffer and handed to readers a whole line at a time.
use vstd::prelude::*;

use std::collections::VecDeque;

verus! {

/// Carriage return.
pub const CR: char = '\r';
/// Line feed.
pub const LF: char = '\n';
/// Backspace.
pub const BS: char = '\x08';
/// Delete.
pub const DEL: char = '\x7f';
/// Horizontal tab.
pub const HT: char = '\t';
/// Escape: starts an escape sequence.
pub const ESC: char = '\x1b';
/// Second character of an escape sequence.
pub const ESCAPE_START: char = '[';

/// How the next console character is interpreted.
#[derive(Clone, Copy, Debug, PartialEq, Eq, Structural)]
pub enum InputMode {
    Insert,
    Replace,
    /// An escape character was seen; `[` is expected next.
    EscapeState1,
    /// `ESC [` was seen; the next character ends the sequence.
    EscapeState2,
}

impl InputMode {
    /// The mode a console starts in: Insert.
    pub fn default() -> (r: Self)
        ensures
            r == InputMode::Insert,
    {
        InputMode::Insert
    }
}

/// What `Stdin::push` does to the line discipline's state: the queue ready
/// for readers, the line being edited, and the input mode.
pub open spec fn push_spec(chars: Seq<char>, buffer: Seq<char>, mode: InputMode, c: char) -> (
    Seq<char>,
    Seq<char>,
    InputMode,
) {
    match mode {
        InputMode::EscapeState1 => (
            chars,
            buffer,
            if c == ESCAPE_START {
                InputMode::EscapeState2
            } else {
                InputMode::Insert
            },
        ),
        InputMode::EscapeState2 => (chars, buffer, InputMode::Insert),
        _ => {
            if c == CR || c == LF {
                if buffer.len() > 0 {
                    (chars + buffer.push(LF), Seq::empty(), mode)
                } else {
                    (chars, buffer, mode)
                }
            } else if c == BS || c == DEL {
                if buffer.len() > 0 {
                    (chars, buffer.drop_last(), mode)
                } else {
                    (chars, buffer, mode)
                }
            } else if c == HT {
                (chars, buffer.push(' ').push(' '), mode)
            } else if c == ESC {
                (chars, buffer, InputMode::EscapeState1)
            } else {
                (chars, buffer.push(c), mode)
            }
        },
    }
}

/// Console input: complete lines ready to be read, and the line being typed.
pub struct Stdin {
    /// Characters ready to be read, oldest first.
    pub chars: VecDeque<char>,
    pub state: InputMode,
    /// The line being edited; moved to `chars` at a line end or on `flush`.
    pub buffer: VecDeque<char>,
}

impl Stdin {
    /// Empty queues, in Insert mode.
    pub fn new() -> (r: Self)
        ensures
            r.chars@.len() == 0,
            r.buffer@.len() == 0,
            r.state == InputMode::Insert,
    {
        Stdin { chars: VecDeque::new(), state: InputMode::default(), buffer: VecDeque::new() }
    }

    /// Feed one console character to the line discipline. Returns whether
    /// a character of the line was erased, which the console echoes as
    /// backspace, space, backspace.
    ///
    /// A line end moves the line, with a line feed, to the readers' queue
    /// (an empty line is dropped); backspace and delete erase the last
    /// character; a tab enters two spaces; an escape starts a sequence
    /// `ESC [ x`, whose last character is consumed. A sequence broken after
    /// `ESC` is dropped.
    pub fn push(&mut self, c: char) -> (erased: bool)
        ensures
            (final(self).chars@, final(self).buffer@, final(self).state) == push_spec(
                old(self).chars@,
                old(self).buffer@,
                old(self).state,
                c,
            ),
            erased == ((old(self).state == InputMode::Insert || old(self).state
                == InputMode::Replace) && (c == BS || c == DEL) && old(self).buffer@.len() > 0),
    {
        match self.state {
            InputMode::Insert => self.pushc(c),
            InputMode::Replace => self.pushc(c),
            _ => {
                self.recognize_escape(c);
                false
            },
        }
    }

    /// The second or third character of an escape sequence.
    fn recognize_escape(&mut self, c: char)
        requires
            old(self).state == InputMode::EscapeState1 || old(self).state
                == InputMode::EscapeState2,
        ensures
            (final(self).chars@, final(self).buffer@, final(self).state) == push_spec(
                old(self).chars@,
                old(self).buffer@,
                old(self).state,
                c,
            ),
    {
        match self.state {
            InputMode::EscapeState1 => {
                if c == ESCAPE_START {
                    self.state = InputMode::EscapeState2;
                } else {
                    self.state = InputMode::Insert;
                }
            },
            _ => {
                self.state = InputMode::Insert;
            },
        }
    }

    /// A character in Insert or Replace mode.
    fn pushc(&mut self, c: char) -> (erased: bool)
        requires
            old(self).state == InputMode::Insert || old(self).state == InputMode::Replace,
        ensures
            (final(self).chars@, final(self).buffer@, final(self).state) == push_spec(
                old(self).chars@,
                old(self).buffer@,
                old(self).state,
                c,
            ),
            erased == ((c == BS || c == DEL) && old(self).buffer@.len() > 0),
    {
        if c == CR || c == LF {
            if self.buffer.len() > 0 {
                self.buffer.push_back(LF);
                self.flush();
            }
            false
        } else if c == BS || c == DEL {
            if self.buffer.len() > 0 {
                self.buffer.pop_back();
                proof {
                    assert(self.buffer@ =~= old(self).buffer@.drop_last());
                }
                true
            } else {
                false
            }
        } else if c == HT {
            self.buffer.push_back(' ');
            self.buffer.push_back(' ');
            false
        } else if c == ESC {
            self.state = InputMode::EscapeState1;
            false
        } else {
            self.buffer.push_back(c);
            false
        }
    }

    /// Move the line being edited to the readers' queue.
    pub fn flush(&mut self)
        ensures
            final(self).chars@ == old(self).chars@ + old(self).buffer@,
            final(self).buffer@.len() == 0,
            final(self).state == old(self).state,
    {
        let ghost start = self.chars@;
        while self.buffer.len() > 0
            invariant
                self.chars@ + self.buffer@ == old(self).chars@ + old(self).buffer@,
                self.state == old(self).state,
            decreases self.buffer@.len(),
        {
            let ghost before_c = self.chars@;
            let ghost before_b = self.buffer@;
            match self.buffer.pop_front() {
                Some(c) => {
                    self.chars.push_back(c);
                    proof {
                        assert(before_b =~= seq![c] + self.buffer@);
                        assert(self.chars@ + self.buffer@ =~= before_c + before_b);
                    }
                },
                None => {},
            }
        }
        proof {
            assert(self.chars@ =~= old(self).chars@ + old(self).buffer@);
        }
    }

    /// Take the oldest character ready to be read, if there is one. A
    /// reader that finds none polls again once more input has arrived.
    pub fn pop(&mut self) -> (r: Option<char>)
        ensures
            old(self).chars@.len() == 0 ==> r == None::<char> && final(self).chars@ == old(
                self).chars@,
            old(self).chars@.len() > 0 ==> r == Some(old(self).chars@[0]) && final(self).chars@
                == old(self).chars@.drop_first(),
            final(self).buffer@ == old(self).buffer@,
            final(self).state == old(self).state,
    {
        let r = self.chars.pop_front();
        proof {
            if old(self).chars@.len() > 0 {
                assert(self.chars@ =~= old(self).chars@.drop_first());
            }
        }
        r
    }
}

} // verus!
