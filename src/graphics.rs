//! The console's text grid: a cursor moving over rows of characters, with
//! wrapping at the right edge and scrolling at the bottom. Drawing the grid
//! on a frame buffer is left to the caller.
use vstd::prelude::*;

use crate::stdio::{InputMode, BS, CR, DEL, ESC, ESCAPE_START, HT, LF};

verus! {

/// Width of a glyph in pixels.
pub const CHAR_WIDTH: u32 = 8;
/// Height of a glyph in pixels.
pub const CHAR_HEIGHT: u32 = 16;
/// Columns a tab advances at most.
pub const TAB_WIDTH: u32 = 4;

/// The bitmap font glyphs are drawn with.
#[derive(Clone, Copy, Debug, PartialEq, Eq, Structural)]
pub enum Font {
    SimSun,
    SimHei,
}

/// Number of glyphs in a font: the printable ASCII characters.
pub const ASCII_CNT: usize = 95;

/// The glyph of character `c` in a font: printable ASCII characters from
/// space on, by the low byte of `c`; every other byte shows as a space.
pub open spec fn ascii_index_spec(c: char) -> int {
    let b = (#[verifier::truncate] ((c as u32) as u8)) as int;
    if 0x20 <= b <= 0x7e {
        b - 0x20
    } else {
        0
    }
}

/// Index of the glyph for `c` in a font's bitmap table.
pub fn ascii_to_index(c: char) -> (r: usize)
    ensures
        r == ascii_index_spec(c),
        r < ASCII_CNT,
{
    let b = #[verifier::truncate] ((c as u32) as u8);
    if 0x20 <= b && b <= 0x7e {
        (b - 0x20) as usize
    } else {
        0
    }
}

/// What the grid holds: the characters row by row, the cursor's row and
/// column, and the input mode.
pub struct Screen {
    pub chars: Seq<char>,
    pub row: nat,
    pub col: nat,
    pub mode: InputMode,
}

/// The grid moved up one row: the top row is dropped and a blank row of
/// `n` columns enters at the bottom.
pub open spec fn scrolled(chars: Seq<char>, n: nat) -> Seq<char> {
    chars.subrange(n as int, chars.len() as int) + Seq::new(n, |i: int| ' ')
}

/// The cursor to the start of the next row, scrolling when it is on the
/// last of `m` rows.
pub open spec fn newline_spec(s: Screen, n: nat, m: nat) -> Screen {
    if s.row + 1 >= m {
        Screen { chars: scrolled(s.chars, n), row: s.row, col: 0, mode: s.mode }
    } else {
        Screen { chars: s.chars, row: s.row + 1, col: 0, mode: s.mode }
    }
}

/// Write `c` at the cursor and advance it, first moving to a new row when
/// the cursor is on the last column.
pub open spec fn put_char_spec(s: Screen, c: char, n: nat, m: nat) -> Screen {
    let t = if s.col + 1 >= n {
        newline_spec(s, n, m)
    } else {
        s
    };
    Screen { chars: t.chars.update((t.row * n + t.col) as int, c), row: t.row, col: t.col + 1, mode: t.mode }
}

/// Blank the character before the cursor and step back onto it.
pub open spec fn erase_spec(s: Screen, n: nat) -> Screen {
    if s.col > 0 {
        Screen { chars: s.chars.update(s.row * n + s.col - 1, ' '), row: s.row, col: (s.col - 1) as nat, mode: s.mode }
    } else {
        s
    }
}

/// A tab: spaces up to `TAB_WIDTH - i` more, stopping before the last column.
pub open spec fn tab_spec(s: Screen, i: nat, n: nat, m: nat) -> Screen
    decreases TAB_WIDTH - i,
{
    if i < TAB_WIDTH && s.col + 1 < n {
        tab_spec(put_char_spec(s, ' ', n, m), i + 1, n, m)
    } else {
        s
    }
}

/// A character outside an escape sequence.
pub open spec fn putc_normal_spec(s: Screen, c: char, n: nat, m: nat) -> Screen {
    if c == CR || c == LF {
        newline_spec(s, n, m)
    } else if c == BS || c == DEL {
        erase_spec(s, n)
    } else if c == HT {
        tab_spec(s, 0, n, m)
    } else if c == ESC {
        Screen { mode: InputMode::EscapeState1, ..s }
    } else {
        put_char_spec(s, c, n, m)
    }
}

/// What `TextBuffer::putc` does to the grid.
pub open spec fn putc_spec(s: Screen, c: char, n: nat, m: nat) -> Screen {
    match s.mode {
        InputMode::Insert => putc_normal_spec(s, c, n, m),
        InputMode::Replace => putc_normal_spec(putc_normal_spec(s, DEL, n, m), c, n, m),
        InputMode::EscapeState1 => Screen {
            mode: if c == ESCAPE_START {
                InputMode::EscapeState2
            } else {
                InputMode::Insert
            },
            ..s
        },
        InputMode::EscapeState2 => Screen { mode: InputMode::Insert, ..s },
    }
}

/// The text shown on the console, with its cursor.
pub struct TextBuffer {
    /// Characters row by row.
    pub chars: Vec<char>,
    /// Cursor position: (row, column), both from 0 at the top left.
    pub cursor: (u32, u32),
    /// Columns per row.
    pub line_nchars: u32,
    /// Number of rows.
    pub max_lines: u32,
    pub font: Font,
    pub input_mode: InputMode,
}

/// `row * n + col` lies inside a grid of `m` rows of `n` columns.
proof fn lemma_cell_in_grid(row: nat, col: nat, n: nat, m: nat)
    requires
        row < m,
        col < n,
    ensures
        row * n + col < m * n,
        (row + 1) * n <= m * n,
{
    assert(row * n + col < m * n) by (nonlinear_arith)
        requires
            row < m,
            col < n,
    ;
    assert((row + 1) * n <= m * n) by (nonlinear_arith)
        requires
            row < m,
    ;
}

impl TextBuffer {
    /// At least two rows and two columns, a cell for each, and the cursor
    /// on the grid.
    pub open spec fn wf(&self) -> bool {
        &&& self.line_nchars >= 2
        &&& self.max_lines >= 2
        &&& self.chars@.len() == self.line_nchars * self.max_lines
        &&& self.cursor.0 < self.max_lines
        &&& self.cursor.1 < self.line_nchars
    }

    /// The grid as a `Screen`.
    pub open spec fn screen(&self) -> Screen {
        Screen {
            chars: self.chars@,
            row: self.cursor.0 as nat,
            col: self.cursor.1 as nat,
            mode: self.input_mode,
        }
    }

    /// A blank grid filling a `width` by `height` pixel frame buffer, the
    /// cursor at the top left, in Insert mode.
    pub fn new(font: Font, width: u32, height: u32) -> (r: Self)
        requires
            width >= 2 * CHAR_WIDTH,
            height >= 2 * CHAR_HEIGHT,
            (width / CHAR_WIDTH) as int * (height / CHAR_HEIGHT) as int <= usize::MAX,
        ensures
            r.wf(),
            r.line_nchars == width / CHAR_WIDTH,
            r.max_lines == height / CHAR_HEIGHT,
            r.cursor == (0u32, 0u32),
            r.font == font,
            r.input_mode == InputMode::Insert,
            forall|i: int| 0 <= i < r.chars@.len() ==> r.chars@[i] == ' ',
    {
        let line_nchars = width / CHAR_WIDTH;
        let max_lines = height / CHAR_HEIGHT;
        let total = (line_nchars as usize) * (max_lines as usize);
        let mut chars: Vec<char> = Vec::new();
        let mut k: usize = 0;
        while k < total
            invariant
                k <= total,
                chars@.len() == k,
                forall|i: int| 0 <= i < k ==> chars@[i] == ' ',
            decreases total - k,
        {
            chars.push(' ');
            k = k + 1;
        }
        TextBuffer {
            chars,
            cursor: (0, 0),
            line_nchars,
            max_lines,
            font,
            input_mode: InputMode::default(),
        }
    }

    /// Position of the cursor in `chars`.
    fn index(&self) -> (r: usize)
        requires
            self.wf(),
        ensures
            r == self.cursor.0 * self.line_nchars + self.cursor.1,
            r < self.chars@.len(),
    {
        proof {
            lemma_cell_in_grid(
                self.cursor.0 as nat,
                self.cursor.1 as nat,
                self.line_nchars as nat,
                self.max_lines as nat,
            );
        }
        let len = self.chars.len();
        assert((self.cursor.0 as usize) * (self.line_nchars as usize) + (self.cursor.1 as usize) < len);
        (self.cursor.0 as usize) * (self.line_nchars as usize) + self.cursor.1 as usize
    }

    /// Move every row up by one and blank the last; the cursor goes up too.
    fn scroll(&mut self)
        requires
            old(self).wf(),
            old(self).cursor.0 >= 1,
        ensures
            final(self).wf(),
            final(self).chars@ == scrolled(old(self).chars@, old(self).line_nchars as nat),
            final(self).cursor.0 == old(self).cursor.0 - 1,
            final(self).cursor.1 == old(self).cursor.1,
            final(self).line_nchars == old(self).line_nchars,
            final(self).max_lines == old(self).max_lines,
            final(self).font == old(self).font,
            final(self).input_mode == old(self).input_mode,
    {
        let n = self.line_nchars as usize;
        let total = self.chars.len();
        proof {
            let m = self.max_lines as int;
            assert(n <= total) by (nonlinear_arith)
                requires
                    m >= 1,
                    total == n * m,
            ;
        }
        let keep = total - n;
        let mut p: usize = 0;
        while p < keep
            invariant
                n == old(self).line_nchars,
                total == old(self).chars@.len(),
                keep == total - n,
                n <= total,
                p <= keep,
                self.chars@.len() == total,
                forall|q: int| 0 <= q < p ==> self.chars@[q] == old(self).chars@[q + n],
                forall|q: int| p <= q < total ==> self.chars@[q] == old(self).chars@[q],
                self.cursor == old(self).cursor,
                self.line_nchars == old(self).line_nchars,
                self.max_lines == old(self).max_lines,
                self.font == old(self).font,
                self.input_mode == old(self).input_mode,
            decreases keep - p,
        {
            let c = self.chars[p + n];
            self.chars.set(p, c);
            p = p + 1;
        }
        while p < total
            invariant
                n == old(self).line_nchars,
                total == old(self).chars@.len(),
                keep == total - n,
                keep <= p <= total,
                self.chars@.len() == total,
                forall|q: int| 0 <= q < keep ==> self.chars@[q] == old(self).chars@[q + n],
                forall|q: int| keep <= q < p ==> self.chars@[q] == ' ',
                self.cursor == old(self).cursor,
                self.line_nchars == old(self).line_nchars,
                self.max_lines == old(self).max_lines,
                self.font == old(self).font,
                self.input_mode == old(self).input_mode,
            decreases total - p,
        {
            self.chars.set(p, ' ');
            p = p + 1;
        }
        self.cursor.0 = self.cursor.0 - 1;
        proof {
            assert(self.chars@ =~= scrolled(old(self).chars@, n as nat));
        }
    }

    /// Move the cursor to the start of the next row, scrolling at the bottom.
    fn newline(&mut self)
        requires
            old(self).wf(),
        ensures
            final(self).wf(),
            final(self).line_nchars == old(self).line_nchars,
            final(self).max_lines == old(self).max_lines,
            final(self).font == old(self).font,
            final(self).screen() == newline_spec(old(self).screen(), old(self).line_nchars as nat, old(self).max_lines as nat),
    {
        if self.cursor.0 + 1 >= self.max_lines {
            self.scroll();
        }
        self.cursor.0 = self.cursor.0 + 1;
        self.cursor.1 = 0;
    }

    /// Write a printable character at the cursor and advance it.
    fn put_char(&mut self, c: char)
        requires
            old(self).wf(),
        ensures
            final(self).wf(),
            final(self).line_nchars == old(self).line_nchars,
            final(self).max_lines == old(self).max_lines,
            final(self).font == old(self).font,
            final(self).screen() == put_char_spec(old(self).screen(), c, old(self).line_nchars as nat, old(self).max_lines as nat),
    {
        if self.cursor.1 + 1 >= self.line_nchars {
            self.newline();
        }
        let idx = self.index();
        self.chars.set(idx, c);
        self.cursor.1 = self.cursor.1 + 1;
    }

    /// Blank the character before the cursor and step back onto it.
    fn erase(&mut self)
        requires
            old(self).wf(),
        ensures
            final(self).wf(),
            final(self).line_nchars == old(self).line_nchars,
            final(self).max_lines == old(self).max_lines,
            final(self).font == old(self).font,
            final(self).screen() == erase_spec(old(self).screen(), old(self).line_nchars as nat),
    {
        if self.cursor.1 > 0 {
            self.cursor.1 = self.cursor.1 - 1;
            let idx = self.index();
            self.chars.set(idx, ' ');
        }
    }

    /// A tab: up to `TAB_WIDTH` spaces, never onto the last column.
    fn tab(&mut self)
        requires
            old(self).wf(),
        ensures
            final(self).wf(),
            final(self).line_nchars == old(self).line_nchars,
            final(self).max_lines == old(self).max_lines,
            final(self).font == old(self).font,
            final(self).screen() == tab_spec(old(self).screen(), 0, old(self).line_nchars as nat, old(self).max_lines as nat),
    {
        let mut i: u32 = 0;
        while i < TAB_WIDTH && self.cursor.1 + 1 < self.line_nchars
            invariant
                self.wf(),
                i <= TAB_WIDTH,
                self.line_nchars == old(self).line_nchars,
                self.max_lines == old(self).max_lines,
                self.font == old(self).font,
                tab_spec(old(self).screen(), 0, old(self).line_nchars as nat, old(self).max_lines as nat)
                    == tab_spec(self.screen(), i as nat, self.line_nchars as nat, self.max_lines as nat),
            decreases TAB_WIDTH - i,
        {
            self.put_char(' ');
            i = i + 1;
        }
    }

    /// A character outside an escape sequence.
    fn putc_normal(&mut self, c: char)
        requires
            old(self).wf(),
        ensures
            final(self).wf(),
            final(self).line_nchars == old(self).line_nchars,
            final(self).max_lines == old(self).max_lines,
            final(self).font == old(self).font,
            final(self).screen() == putc_normal_spec(old(self).screen(), c, old(self).line_nchars as nat, old(self).max_lines as nat),
    {
        if c == CR || c == LF {
            self.newline();
        } else if c == BS || c == DEL {
            self.erase();
        } else if c == HT {
            self.tab();
        } else if c == ESC {
            self.input_mode = InputMode::EscapeState1;
        } else {
            self.put_char(c);
        }
    }

    /// The second or third character of an escape sequence: `ESC [` then
    /// one key code, which is consumed. A sequence broken after `ESC` is
    /// dropped.
    fn putc_escape(&mut self, c: char)
        requires
            old(self).wf(),
            old(self).input_mode == InputMode::EscapeState1 || old(self).input_mode == InputMode::EscapeState2,
        ensures
            final(self).wf(),
            final(self).line_nchars == old(self).line_nchars,
            final(self).max_lines == old(self).max_lines,
            final(self).font == old(self).font,
            final(self).screen() == putc_spec(old(self).screen(), c, old(self).line_nchars as nat, old(self).max_lines as nat),
    {
        match self.input_mode {
            InputMode::EscapeState1 => {
                if c == ESCAPE_START {
                    self.input_mode = InputMode::EscapeState2;
                } else {
                    self.input_mode = InputMode::Insert;
                }
            },
            _ => {
                self.input_mode = InputMode::Insert;
            },
        }
    }

    /// Show one character: line ends move to the next row, backspace and
    /// delete erase the previous character, a tab advances up to four
    /// columns, escape sequences are consumed, and anything else is written
    /// at the cursor, wrapping at the right edge and scrolling at the
    /// bottom. In Replace mode the character before the cursor is erased
    /// first.
    pub fn putc(&mut self, c: char)
        requires
            old(self).wf(),
        ensures
            final(self).wf(),
            final(self).line_nchars == old(self).line_nchars,
            final(self).max_lines == old(self).max_lines,
            final(self).font == old(self).font,
            final(self).screen() == putc_spec(old(self).screen(), c, old(self).line_nchars as nat, old(self).max_lines as nat),
    {
        match self.input_mode {
            InputMode::Insert => self.putc_normal(c),
            InputMode::Replace => {
                self.putc_normal(DEL);
                self.putc_normal(c);
            },
            _ => self.putc_escape(c),
        }
    }
}

} // verus!
