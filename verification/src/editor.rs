//! The modal editor state machine: cursor position, current mode and cached
//! terminal size, over a text buffer. Raw input events are translated, under
//! the current mode, into a closed set of actions; applying an action mutates
//! the buffer and the cursor. Every operation is total: out-of-range requests
//! saturate or do nothing, never fail.

use vstd::prelude::*;
use crate::buffer::Buffer;
use crate::buffer::buffer_after_remove;
use crate::buffer::grown_rows;

verus! {

/// How many space characters a tab key stroke inserts. A tab occupies that
/// many storage slots, one column each, so edits and backspace work one
/// column at a time.
pub const TAB_SPACES: usize = 4;

/// The modal-editing state: Normal is navigation and commands, Insert is text
/// entry.
#[derive(Clone, Copy, Debug, PartialEq, Eq)]
pub enum Mode {
    Normal,
    Insert,
}

/// The closed set of edit and navigation commands an input event can
/// translate to under a mode.
#[derive(Clone, Copy, Debug, PartialEq, Eq)]
pub enum Actions {
    MoveUp,
    MoveDown,
    MoveLeft,
    MoveRight,
    NewLine,
    Backspace,
    ModeToNormal,
    ModeToInsert,
    AddChar(char),
    Tab,
    DeleteChar,
    Exit,
}

/// A key code, as the terminal reports it. `Other` stands for every key the
/// editor does not interpret.
#[derive(Clone, Copy, Debug, PartialEq, Eq)]
pub enum Key {
    Up,
    Down,
    Left,
    Right,
    Backspace,
    Enter,
    Tab,
    Delete,
    Char(char),
    Other,
}

/// A raw input event: a key press (with the state of the alt modifier), a
/// terminal resize, or anything else (which the editor ignores).
#[derive(Clone, Copy, Debug, PartialEq, Eq)]
pub enum Event {
    Key { code: Key, alt: bool },
    Resize(u16, u16),
    Other,
}

/// What a raw input event translates to under a mode: a pure function of the
/// two. Arrow keys navigate in either mode; the rest is mode-dependent.
/// Normal: `q` exits, alt+`i` enters Insert, `d` or the delete key deletes
/// under the cursor. Insert: alt+`i` returns to Normal, and backspace, enter,
/// tab and printable characters edit. Everything else, and a resize, maps to
/// no action.
pub open spec fn translated_action(mode: Mode, e: Event) -> Option<Actions> {
    match e {
        Event::Key { code, alt } => match code {
            Key::Up => Some(Actions::MoveUp),
            Key::Down => Some(Actions::MoveDown),
            Key::Left => Some(Actions::MoveLeft),
            Key::Right => Some(Actions::MoveRight),
            _ => match mode {
                Mode::Normal => match code {
                    Key::Char(c) => if c == 'q' {
                        Some(Actions::Exit)
                    } else if c == 'i' && alt {
                        Some(Actions::ModeToInsert)
                    } else if c == 'd' {
                        Some(Actions::DeleteChar)
                    } else {
                        None
                    },
                    Key::Delete => Some(Actions::DeleteChar),
                    _ => None,
                },
                Mode::Insert => match code {
                    Key::Char(c) => if c == 'i' && alt {
                        Some(Actions::ModeToNormal)
                    } else {
                        Some(Actions::AddChar(c))
                    },
                    Key::Backspace => Some(Actions::Backspace),
                    Key::Enter => Some(Actions::NewLine),
                    Key::Tab => Some(Actions::Tab),
                    _ => None,
                },
            },
        },
        _ => None,
    }
}

/// `n` space characters, as a tab key stroke stores them.
pub open spec fn spaces(n: nat) -> Seq<char> {
    Seq::new(n, |i: int| ' ')
}

/// A count decremented by one, stopping at zero.
pub open spec fn saturated_dec(n: int) -> int {
    if n > 0 {
        n - 1
    } else {
        0
    }
}

/// A column clamped so it never exceeds the length of the row it lands on.
pub open spec fn clamped(cx: int, len: int) -> int {
    if cx <= len {
        cx
    } else {
        len
    }
}

/// The column after one MoveRight on a row of length `len`: one step right if
/// a character exists there, unchanged otherwise.
pub open spec fn moved_right(len: int, cx: int) -> int {
    if cx + 1 < len {
        cx + 1
    } else {
        cx
    }
}

/// The column after `n` MoveRight steps on a row of length `len`.
pub open spec fn moved_right_times(len: int, cx: int, n: nat) -> int
    decreases n,
{
    if n == 0 {
        cx
    } else {
        moved_right(len, moved_right_times(len, cx, (n - 1) as nat))
    }
}

/// Law: MoveRight is idempotent at the boundary. Once the cursor stands at
/// (or past) the last character of its row, any number of further MoveRight
/// steps leaves the column unchanged — and since MoveRight never touches the
/// buffer, the row length `len` indeed stays fixed across the steps.
pub proof fn lemma_move_right_bounded(len: int, cx: int, n: nat)
    requires
        cx + 1 >= len,
    ensures
        moved_right_times(len, cx, n) == cx,
    decreases n,
{
    if n > 0 {
        lemma_move_right_bounded(len, cx, (n - 1) as nat);
    }
}

/// The character for one decimal digit.
pub open spec fn digit_char(d: nat) -> char {
    if d == 0 {
        '0'
    } else if d == 1 {
        '1'
    } else if d == 2 {
        '2'
    } else if d == 3 {
        '3'
    } else if d == 4 {
        '4'
    } else if d == 5 {
        '5'
    } else if d == 6 {
        '6'
    } else if d == 7 {
        '7'
    } else if d == 8 {
        '8'
    } else {
        '9'
    }
}

/// The decimal digits of `n`, most significant first, with no sign and no
/// leading zeros (zero itself is the single digit `0`).
pub open spec fn dec_digits(n: nat) -> Seq<char>
    decreases n,
{
    if n < 10 {
        seq![digit_char(n)]
    } else {
        dec_digits(n / 10).push(digit_char(n % 10))
    }
}

/// The name shown for a mode, upper case as the status line prints it.
pub open spec fn mode_label(mode: Mode) -> Seq<char> {
    match mode {
        Mode::Normal => seq!['N', 'O', 'R', 'M', 'A', 'L'],
        Mode::Insert => seq!['I', 'N', 'S', 'E', 'R', 'T'],
    }
}

/// The text of the status line: the mode name, one space, then the cursor as
/// "[column, row]".
pub open spec fn status_text(mode: Mode, cx: nat, cy: nat) -> Seq<char> {
    mode_label(mode) + seq![' ', '['] + dec_digits(cx) + seq![',', ' '] + dec_digits(cy) + seq![']']
}

/// Append the decimal digits of `n` to `out`.
fn push_decimal(out: &mut Vec<char>, n: usize)
    ensures
        final(out)@ == old(out)@ + dec_digits(n as nat),
    decreases n,
{
    if n >= 10 {
        push_decimal(out, n / 10);
    }
    let d: usize = n % 10;
    let c: char = if d == 0 {
        '0'
    } else if d == 1 {
        '1'
    } else if d == 2 {
        '2'
    } else if d == 3 {
        '3'
    } else if d == 4 {
        '4'
    } else if d == 5 {
        '5'
    } else if d == 6 {
        '6'
    } else if d == 7 {
        '7'
    } else if d == 8 {
        '8'
    } else {
        '9'
    };
    out.push(c);
    proof {
        assert(out@ =~= old(out)@ + dec_digits(n as nat));
    }
}

/// The editor: cursor, mode, cached terminal size, and the text buffer it
/// edits.
pub struct Editor {
    /// Cursor column.
    pub cx: usize,
    /// Cursor row.
    pub cy: usize,
    pub mode: Mode,
    /// Cached terminal size (columns, rows), updated on resize events.
    pub size: (u16, u16),
    pub buffer: Buffer,
}

impl Editor {
    /// The editor invariant: the buffer holds at least one line, the cursor
    /// row exists, and the cursor column is at most one past the last
    /// character of its row. Every action preserves it.
    pub open spec fn wf(&self) -> bool {
        &&& self.buffer.wf()
        &&& (self.cy as int) < self.buffer@.len()
        &&& (self.cx as int) <= self.buffer@[self.cy as int].len()
    }

    /// A fresh editor: a single empty line, cursor at the origin, Normal
    /// mode.
    pub fn new(size: (u16, u16)) -> (r: Editor)
        ensures
            r.wf(),
            r.cx == 0,
            r.cy == 0,
            r.mode == Mode::Normal,
            r.size == size,
            r.buffer@ =~= seq![Seq::<char>::empty()],
    {
        Editor { cx: 0, cy: 0, mode: Mode::Normal, size, buffer: Buffer::new() }
    }

    /// The runtime mirror of `wf`, for callers outside verified code.
    pub fn is_wf(&self) -> (r: bool)
        ensures
            r == self.wf(),
    {
        if self.buffer.line_count() >= 1 && self.cy < self.buffer.line_count() {
            self.cx <= self.buffer.line_len(self.cy)
        } else {
            false
        }
    }

    /// Translate one raw input event under the current mode. The editor is
    /// untouched, except that a resize event updates the cached terminal
    /// size.
    pub fn handle_event(&mut self, e: Event) -> (r: Option<Actions>)
        ensures
            r == translated_action(old(self).mode, e),
            final(self).cx == old(self).cx,
            final(self).cy == old(self).cy,
            final(self).mode == old(self).mode,
            final(self).buffer == old(self).buffer,
            match e {
                Event::Resize(x, y) => final(self).size == (x, y),
                _ => final(self).size == old(self).size,
            },
    {
        match e {
            Event::Key { code, alt } => match code {
                Key::Up => Some(Actions::MoveUp),
                Key::Down => Some(Actions::MoveDown),
                Key::Left => Some(Actions::MoveLeft),
                Key::Right => Some(Actions::MoveRight),
                _ => match self.mode {
                    Mode::Normal => match code {
                        Key::Char(c) => if c == 'q' {
                            Some(Actions::Exit)
                        } else if c == 'i' && alt {
                            Some(Actions::ModeToInsert)
                        } else if c == 'd' {
                            Some(Actions::DeleteChar)
                        } else {
                            None
                        },
                        Key::Delete => Some(Actions::DeleteChar),
                        _ => None,
                    },
                    Mode::Insert => match code {
                        Key::Char(c) => if c == 'i' && alt {
                            Some(Actions::ModeToNormal)
                        } else {
                            Some(Actions::AddChar(c))
                        },
                        Key::Backspace => Some(Actions::Backspace),
                        Key::Enter => Some(Actions::NewLine),
                        Key::Tab => Some(Actions::Tab),
                        _ => None,
                    },
                },
            },
            Event::Resize(x, y) => {
                self.size = (x, y);
                None
            },
            Event::Other => None,
        }
    }

    /// Apply one action: mutate the buffer and the cursor as the action asks.
    /// Every action is total — out-of-range requests saturate or do nothing —
    /// and preserves the editor invariant, so in particular the buffer never
    /// loses its last row. `Exit` changes nothing here; the caller's loop
    /// ends on it.
    pub fn apply_action(&mut self, a: Actions)
        requires
            old(self).wf(),
        ensures
            final(self).wf(),
            final(self).size == old(self).size,
            match a {
                Actions::MoveUp => {
                    let cy1 = saturated_dec(old(self).cy as int);
                    &&& final(self).buffer == old(self).buffer
                    &&& final(self).mode == old(self).mode
                    &&& final(self).cy == cy1
                    &&& final(self).cx == clamped(
                        old(self).cx as int,
                        old(self).buffer@[cy1].len() as int,
                    )
                },
                Actions::MoveDown => {
                    &&& final(self).buffer == old(self).buffer
                    &&& final(self).mode == old(self).mode
                    &&& if old(self).cy + 1 < old(self).buffer@.len() {
                        &&& final(self).cy == old(self).cy + 1
                        &&& final(self).cx == old(self).buffer@[old(self).cy + 1].len()
                    } else {
                        &&& final(self).cy == old(self).cy
                        &&& final(self).cx == old(self).cx
                    }
                },
                Actions::MoveLeft => {
                    &&& final(self).buffer == old(self).buffer
                    &&& final(self).mode == old(self).mode
                    &&& final(self).cy == old(self).cy
                    &&& final(self).cx == saturated_dec(old(self).cx as int)
                },
                Actions::MoveRight => {
                    &&& final(self).buffer == old(self).buffer
                    &&& final(self).mode == old(self).mode
                    &&& final(self).cy == old(self).cy
                    &&& final(self).cx == moved_right(
                        old(self).buffer@[old(self).cy as int].len() as int,
                        old(self).cx as int,
                    )
                },
                Actions::NewLine => {
                    &&& final(self).buffer@ == grown_rows(
                        old(self).buffer@,
                        old(self).cy + 1,
                    )
                    &&& final(self).mode == old(self).mode
                    &&& final(self).cy == old(self).cy + 1
                    &&& final(self).cx == 0
                },
                Actions::Backspace => {
                    &&& final(self).mode == old(self).mode
                    &&& if old(self).cx > 0 {
                        &&& final(self).buffer@ == buffer_after_remove(
                            old(self).buffer@,
                            old(self).cx - 1,
                            old(self).cy as int,
                        )
                        &&& final(self).cy == old(self).cy
                        &&& final(self).cx == old(self).cx - 1
                    } else {
                        &&& final(self).buffer == old(self).buffer
                        &&& final(self).cy == saturated_dec(old(self).cy as int)
                        &&& final(self).cx == 0
                    }
                },
                Actions::ModeToNormal => {
                    &&& final(self).buffer == old(self).buffer
                    &&& final(self).mode == Mode::Normal
                    &&& final(self).cy == old(self).cy
                    &&& final(self).cx == old(self).cx
                },
                Actions::ModeToInsert => {
                    &&& final(self).buffer == old(self).buffer
                    &&& final(self).mode == Mode::Insert
                    &&& final(self).cy == old(self).cy
                    &&& final(self).cx == old(self).cx
                },
                Actions::AddChar(ch) => {
                    let cy0 = old(self).cy as int;
                    let cx0 = old(self).cx as int;
                    &&& final(self).mode == old(self).mode
                    &&& final(self).cy == old(self).cy
                    &&& if ch != '\n' {
                        &&& final(self).buffer@ == old(self).buffer@.update(
                            cy0,
                            old(self).buffer@[cy0].insert(cx0, ch),
                        )
                        &&& final(self).cx == old(self).cx + 1
                    } else {
                        &&& final(self).buffer@ == old(self).buffer@
                        &&& final(self).cx == old(self).cx
                    }
                },
                Actions::Tab => {
                    let cy0 = old(self).cy as int;
                    let cx0 = old(self).cx as int;
                    let line0 = old(self).buffer@[cy0];
                    &&& final(self).mode == old(self).mode
                    &&& final(self).cy == old(self).cy
                    &&& final(self).cx == old(self).cx + TAB_SPACES
                    &&& final(self).buffer@ == old(self).buffer@.update(
                        cy0,
                        line0.subrange(0, cx0) + spaces(TAB_SPACES as nat) + line0.subrange(
                            cx0,
                            line0.len() as int,
                        ),
                    )
                },
                Actions::DeleteChar => {
                    &&& final(self).buffer@ == buffer_after_remove(
                        old(self).buffer@,
                        old(self).cx as int,
                        old(self).cy as int,
                    )
                    &&& final(self).mode == old(self).mode
                    &&& final(self).cy == old(self).cy
                    &&& final(self).cx == old(self).cx
                },
                Actions::Exit => {
                    &&& final(self).buffer == old(self).buffer
                    &&& final(self).mode == old(self).mode
                    &&& final(self).cy == old(self).cy
                    &&& final(self).cx == old(self).cx
                },
            },
    {
        match a {
            Actions::MoveUp => {
                if self.cy > 0 {
                    self.cy = self.cy - 1;
                }
                let len = self.buffer.line_len(self.cy);
                if self.cx > len {
                    self.cx = len;
                }
            },
            Actions::MoveDown => {
                let count = self.buffer.line_count();
                if self.cy + 1 < count {
                    self.cy = self.cy + 1;
                    self.cx = self.buffer.line_len(self.cy);
                }
            },
            Actions::MoveLeft => {
                // Under the invariant a character always exists at cx - 1
                // whenever cx > 0, so the move is exactly a saturating step.
                if self.cx > 0 {
                    self.cx = self.cx - 1;
                }
            },
            Actions::MoveRight => {
                let len = self.buffer.line_len(self.cy);
                if self.cx < len && self.cx + 1 < len {
                    self.cx = self.cx + 1;
                }
            },
            Actions::NewLine => {
                // The break character itself is never stored; the new row is
                // made to exist and the cursor starts it. Content after the
                // cursor stays on the old row (no line split).
                // The current row count bounds cy + 1, so the step cannot
                // overflow.
                let _count = self.buffer.line_count();
                self.buffer.ensure_row(self.cy + 1);
                self.cy = self.cy + 1;
                self.cx = 0;
            },
            Actions::Backspace => {
                // At column zero the cursor only moves up; the two rows are
                // not joined.
                if self.cx > 0 {
                    self.buffer.remove(self.cx - 1, self.cy);
                    self.cx = self.cx - 1;
                } else {
                    if self.cy > 0 {
                        self.cy = self.cy - 1;
                    }
                }
            },
            Actions::ModeToNormal => {
                self.mode = Mode::Normal;
            },
            Actions::ModeToInsert => {
                self.mode = Mode::Insert;
            },
            Actions::AddChar(ch) => {
                self.buffer.insert(self.cx, self.cy, ch);
                if ch != '\n' {
                    // The new row length bounds cx + 1, so the step cannot
                    // overflow.
                    let _len = self.buffer.line_len(self.cy);
                    self.cx = self.cx + 1;
                }
            },
            Actions::Tab => {
                let ghost line0 = self.buffer@[self.cy as int];
                let ghost cx0 = self.cx as int;
                let ghost cy0 = self.cy as int;
                proof {
                    assert(line0.subrange(0, cx0) + spaces(0) + line0.subrange(
                        cx0,
                        line0.len() as int,
                    ) =~= line0);
                    assert(old(self).buffer@.update(cy0, line0) =~~= old(self).buffer@);
                }
                let mut i: usize = 0;
                while i < TAB_SPACES
                    invariant
                        self.wf(),
                        i <= TAB_SPACES,
                        self.cy == old(self).cy,
                        self.mode == old(self).mode,
                        self.size == old(self).size,
                        cy0 == old(self).cy as int,
                        0 <= cy0 < old(self).buffer@.len(),
                        self.buffer@.len() == old(self).buffer@.len(),
                        line0 == old(self).buffer@[cy0],
                        cx0 == old(self).cx as int,
                        0 <= cx0 <= line0.len(),
                        self.cx as int == cx0 + i,
                        self.buffer@ == old(self).buffer@.update(
                            cy0,
                            line0.subrange(0, cx0) + spaces(i as nat) + line0.subrange(
                                cx0,
                                line0.len() as int,
                            ),
                        ),
                    decreases TAB_SPACES - i,
                {
                    let ghost cur = self.buffer@[cy0];
                    self.buffer.insert(self.cx, self.cy, ' ');
                    let _len = self.buffer.line_len(self.cy);
                    proof {
                        cur.insert_ensures(cx0 + i, ' ');
                        assert(cur.insert(cx0 + i, ' ') =~= line0.subrange(0, cx0) + spaces(
                            (i + 1) as nat,
                        ) + line0.subrange(cx0, line0.len() as int));
                        assert(self.buffer@ =~~= old(self).buffer@.update(
                            cy0,
                            line0.subrange(0, cx0) + spaces((i + 1) as nat) + line0.subrange(
                                cx0,
                                line0.len() as int,
                            ),
                        ));
                    }
                    self.cx = self.cx + 1;
                    i = i + 1;
                }
            },
            Actions::DeleteChar => {
                self.buffer.remove(self.cx, self.cy);
            },
            Actions::Exit => {},
        }
    }

    /// The status line text: the mode name in upper case, then the cursor
    /// position as "[column, row]". The caller styles and prints it at the
    /// bottom row of the screen.
    pub fn status_line(&self) -> (r: Vec<char>)
        ensures
            r@ == status_text(self.mode, self.cx as nat, self.cy as nat),
    {
        let mut out: Vec<char> = Vec::new();
        match self.mode {
            Mode::Normal => {
                out.push('N');
                out.push('O');
                out.push('R');
                out.push('M');
                out.push('A');
                out.push('L');
            },
            Mode::Insert => {
                out.push('I');
                out.push('N');
                out.push('S');
                out.push('E');
                out.push('R');
                out.push('T');
            },
        }
        proof {
            assert(out@ =~= mode_label(self.mode));
        }
        out.push(' ');
        out.push('[');
        proof {
            assert(out@ =~= mode_label(self.mode) + seq![' ', '[']);
        }
        push_decimal(&mut out, self.cx);
        out.push(',');
        out.push(' ');
        push_decimal(&mut out, self.cy);
        out.push(']');
        proof {
            assert(out@ =~= status_text(self.mode, self.cx as nat, self.cy as nat));
        }
        out
    }
}

} // verus!
