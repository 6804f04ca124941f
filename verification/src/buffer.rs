//! The text buffer: an ordered sequence of lines, each an ordered sequence of
//! character units. Point insertion auto-grows the buffer (appending empty
//! rows, padding short lines with a filler character), so every operation is
//! total; out-of-range removal is a silent no-op.

use vstd::prelude::*;

verus! {

/// Filler written into a line when an insertion lands beyond its current end.
/// A renderer treats it as a blank, never as a visible glyph.
pub const PAD_CHAR: char = '\0';

/// The rows after growing the buffer so that row `y` exists: rows beyond the
/// current last row are appended empty.
pub open spec fn grown_rows(lines: Seq<Seq<char>>, y: int) -> Seq<Seq<char>> {
    if y < lines.len() {
        lines
    } else {
        lines + Seq::new((y + 1 - lines.len()) as nat, |i: int| Seq::<char>::empty())
    }
}

/// A line padded with the filler character so that position `x` can be
/// inserted at (that is, so that its length is at least `x`).
pub open spec fn padded_line(line: Seq<char>, x: int) -> Seq<char> {
    if x <= line.len() {
        line
    } else {
        line + Seq::new((x - line.len()) as nat, |i: int| PAD_CHAR)
    }
}

/// One line after inserting `ch` at position `x`: pad so the position exists,
/// then shift everything from `x` on one place to the right.
pub open spec fn line_after_insert(line: Seq<char>, x: int, ch: char) -> Seq<char> {
    padded_line(line, x).insert(x, ch)
}

/// The whole buffer after `insert(x, y, ch)`. A line break is never stored:
/// inserting `'\n'` changes nothing.
pub open spec fn buffer_after_insert(
    lines: Seq<Seq<char>>,
    x: int,
    y: int,
    ch: char,
) -> Seq<Seq<char>> {
    if ch == '\n' {
        lines
    } else {
        let grown = grown_rows(lines, y);
        grown.update(y, line_after_insert(grown[y], x, ch))
    }
}

/// The whole buffer after `remove(x, y)`: the character at `(x, y)` is taken
/// out if it exists; otherwise nothing changes.
pub open spec fn buffer_after_remove(lines: Seq<Seq<char>>, x: int, y: int) -> Seq<Seq<char>> {
    if 0 <= y < lines.len() && 0 <= x < lines[y].len() {
        lines.update(y, lines[y].remove(x))
    } else {
        lines
    }
}

/// The character stored at `(x, y)`, if any.
pub open spec fn char_at(lines: Seq<Seq<char>>, x: int, y: int) -> Option<char> {
    if 0 <= y < lines.len() && 0 <= x < lines[y].len() {
        Some(lines[y][x])
    } else {
        None
    }
}

/// How a stored character unit is shown on screen: the padding filler is a
/// blank, everything else is itself.
pub open spec fn rendered_char(c: char) -> char {
    if c == PAD_CHAR {
        ' '
    } else {
        c
    }
}

pub struct Buffer {
    lines: Vec<Vec<char>>,
}

impl View for Buffer {
    type V = Seq<Seq<char>>;

    closed spec fn view(&self) -> Seq<Seq<char>> {
        self.lines@.map_values(|l: Vec<char>| l@)
    }
}

impl Buffer {
    /// A buffer is well formed when it holds at least one (possibly empty)
    /// line; every operation preserves this.
    pub open spec fn wf(&self) -> bool {
        self@.len() >= 1
    }

    /// A fresh buffer: a single empty line.
    pub fn new() -> (r: Buffer)
        ensures
            r@ =~= seq![Seq::<char>::empty()],
            r.wf(),
    {
        let mut lines: Vec<Vec<char>> = Vec::new();
        lines.push(Vec::new());
        let r = Buffer { lines };
        proof {
            assert(r@ =~= seq![Seq::<char>::empty()]);
        }
        r
    }

    /// Number of rows.
    pub fn line_count(&self) -> (r: usize)
        ensures
            r == self@.len(),
    {
        self.lines.len()
    }

    /// Length of the row at `y`.
    pub fn line_len(&self, y: usize) -> (r: usize)
        requires
            y < self@.len(),
        ensures
            r == self@[y as int].len(),
    {
        self.lines[y].len()
    }

    /// Grow the buffer so that a row exists at `y`, appending empty rows as
    /// needed; a buffer that already reaches `y` is left alone.
    pub fn ensure_row(&mut self, y: usize)
        ensures
            final(self)@ == grown_rows(old(self)@, y as int),
            old(self).wf() ==> final(self).wf(),
    {
        while self.lines.len() <= y
            invariant
                old(self)@.len() <= self@.len(),
                self@.len() <= y + 1 || self@ == old(self)@,
                forall|i: int| 0 <= i < old(self)@.len() ==> self@[i] == old(self)@[i],
                forall|i: int|
                    old(self)@.len() <= i < self@.len() ==> self@[i] == Seq::<char>::empty(),
            decreases y + 1 - self.lines.len(),
        {
            let ghost prev = self@;
            self.lines.push(Vec::new());
            proof {
                assert(self@ =~= prev.push(Seq::<char>::empty()));
            }
        }
        proof {
            assert(final(self)@ =~= grown_rows(old(self)@, y as int));
        }
    }

    /// Insert `ch` at `(x, y)`: the buffer grows so that row `y` exists, the
    /// row is padded so that position `x` exists, and `ch` is inserted there,
    /// shifting the rest of the row right by one. A line break is filtered
    /// out, never stored. Always succeeds; a well-formed buffer stays so.
    pub fn insert(&mut self, x: usize, y: usize, ch: char)
        ensures
            final(self)@ == buffer_after_insert(old(self)@, x as int, y as int, ch),
            old(self).wf() ==> final(self).wf(),
    {
        if ch != '\n' {
            self.ensure_row(y);
            let ghost grown = self@;
            while self.lines[y].len() < x
                invariant
                    y < self@.len(),
                    self@.len() == grown.len(),
                    grown == grown_rows(old(self)@, y as int),
                    forall|i: int| 0 <= i < grown.len() && i != y ==> self@[i] == grown[i],
                    grown[y as int].len() <= self@[y as int].len(),
                    self@[y as int].len() <= x || self@[y as int] == grown[y as int],
                    self@[y as int] == padded_line(grown[y as int], self@[y as int].len() as int),
                decreases x - self@[y as int].len(),
            {
                let ghost prev = self@;
                self.lines[y].push(PAD_CHAR);
                proof {
                    assert(self@[y as int] =~= padded_line(
                        grown[y as int],
                        self@[y as int].len() as int,
                    ));
                    assert(forall|i: int|
                        0 <= i < grown.len() && i != y ==> self@[i] == prev[i]);
                }
            }
            proof {
                assert(self@[y as int] == padded_line(grown[y as int], x as int)) by {
                    if x <= grown[y as int].len() {
                        assert(self@[y as int] == grown[y as int]);
                    }
                }
            }
            self.lines[y].insert(x, ch);
            proof {
                assert(final(self)@ =~= grown.update(
                    y as int,
                    line_after_insert(grown[y as int], x as int, ch),
                ));
            }
        }
    }

    /// Remove the character at `(x, y)`, shifting the rest of the row left by
    /// one. A position with no existing character is a silent no-op: content
    /// and dimensions are unchanged. A well-formed buffer stays so.
    pub fn remove(&mut self, x: usize, y: usize)
        ensures
            final(self)@ == buffer_after_remove(old(self)@, x as int, y as int),
            old(self).wf() ==> final(self).wf(),
    {
        if y < self.lines.len() {
            if x < self.lines[y].len() {
                self.lines[y].remove(x);
                proof {
                    assert(final(self)@ =~= old(self)@.update(
                        y as int,
                        old(self)@[y as int].remove(x as int),
                    ));
                }
            }
        }
    }

    /// The character stored at `(x, y)`, if that position exists.
    pub fn get(&self, x: usize, y: usize) -> (r: Option<char>)
        ensures
            r == char_at(self@, x as int, y as int),
    {
        if y < self.lines.len() {
            let line = &self.lines[y];
            if x < line.len() {
                Some(line[x])
            } else {
                None
            }
        } else {
            None
        }
    }

    /// The row at `y` as it is shown on screen: padding fillers become
    /// blanks. A row that does not exist renders as an empty line.
    pub fn render_line(&self, y: usize) -> (r: Vec<char>)
        ensures
            y < self@.len() ==> r@ == self@[y as int].map_values(|c: char| rendered_char(c)),
            y >= self@.len() ==> r@ == Seq::<char>::empty(),
    {
        let mut out: Vec<char> = Vec::new();
        if y < self.lines.len() {
            let line = &self.lines[y];
            let ghost target = self@[y as int].map_values(|c: char| rendered_char(c));
            let mut x: usize = 0;
            while x < line.len()
                invariant
                    y < self@.len(),
                    line@ == self@[y as int],
                    x <= line@.len(),
                    target == self@[y as int].map_values(|c: char| rendered_char(c)),
                    out@ == target.subrange(0, x as int),
                decreases line@.len() - x,
            {
                let c = line[x];
                if c == PAD_CHAR {
                    out.push(' ');
                } else {
                    out.push(c);
                }
                x = x + 1;
                proof {
                    assert(out@ =~= target.subrange(0, x as int));
                }
            }
            proof {
                assert(out@ =~= target);
            }
        }
        out
    }
}

/// Law: whatever a removal was asked to take out, a position that holds no
/// character leaves the buffer exactly as it was — content and dimensions
/// alike.
pub proof fn lemma_remove_missing_is_noop(lines: Seq<Seq<char>>, x: int, y: int)
    requires
        char_at(lines, x, y) is None,
    ensures
        buffer_after_remove(lines, x, y) == lines,
{
}

/// Law: an insertion followed immediately by a read of the same position
/// hands back the inserted character, for every position in the quarter
/// plane — the buffer grows as needed. A line break is the one character
/// this cannot hold of, since it is never stored.
pub proof fn lemma_insert_then_read(lines: Seq<Seq<char>>, x: int, y: int, ch: char)
    requires
        0 <= x,
        0 <= y,
        ch != '\n',
    ensures
        char_at(buffer_after_insert(lines, x, y, ch), x, y) == Some(ch),
{
    let grown = grown_rows(lines, y);
    let padded = padded_line(grown[y], x);
    padded.insert_ensures(x, ch);
}

/// Law: inserting a character at a position inside an existing row and then
/// removing it from that same position restores the row — and with it the
/// whole buffer — to its content before the insertion. It cannot hold where
/// the insertion already was a no-op (a line break) or where it grew the
/// buffer first (a row or column beyond the current content), so those inputs
/// are left out.
pub proof fn lemma_insert_remove_round_trip(lines: Seq<Seq<char>>, x: int, y: int, ch: char)
    requires
        0 <= y < lines.len(),
        0 <= x <= lines[y].len(),
        ch != '\n',
    ensures
        buffer_after_remove(buffer_after_insert(lines, x, y, ch), x, y) == lines,
{
    let line = lines[y];
    let inserted = line.insert(x, ch);
    line.insert_ensures(x, ch);
    inserted.remove_ensures(x);
    assert(buffer_after_insert(lines, x, y, ch) == lines.update(y, inserted));
    assert(inserted.remove(x) =~= line);
    assert(buffer_after_remove(lines.update(y, inserted), x, y) =~= lines);
}

} // verus!
