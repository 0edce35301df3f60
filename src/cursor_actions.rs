//! Cursor motion: single steps with clamping, and pattern-driven word motion.
use vstd::math::min;
use vstd::prelude::*;

use crate::editor::Editor;
use crate::pattern::{match_at_start, CRegex};
use crate::position::{CursorDirection, Position};
use crate::text::{copy_span, line_at, line_count, line_span, lines_of};

verus! {

/// `x`, or `len` when `x` lies past it.
pub open spec fn clamp_col(x: u16, len: nat) -> u16 {
    if x as nat > len {
        len as u16
    } else {
        x
    }
}

/// `n` as a column, at most `u16::MAX`.
pub open spec fn capped(n: nat) -> u16 {
    if n > u16::MAX {
        u16::MAX
    } else {
        n as u16
    }
}

/// Where one step in direction `dir` takes cursor `c` in text `t`.
pub open spec fn moved(t: Seq<char>, c: Position, dir: CursorDirection) -> Position {
    match dir {
        CursorDirection::Up => if c.y == 0 {
            c
        } else {
            Position { x: clamp_col(c.x, line_at(t, c.y - 1).len()), y: (c.y - 1) as u16 }
        },
        CursorDirection::Down => if c.y >= lines_of(t).len() + 1 || c.y == u16::MAX {
            c
        } else {
            Position { x: clamp_col(c.x, line_at(t, c.y + 1).len()), y: (c.y + 1) as u16 }
        },
        CursorDirection::Left => if c.x == 0 {
            if c.y == 0 {
                c
            } else {
                Position { x: capped(line_at(t, c.y - 1).len()), y: (c.y - 1) as u16 }
            }
        } else {
            Position { x: (c.x - 1) as u16, y: c.y }
        },
        CursorDirection::Right => if c.x >= line_at(t, c.y as int).len() {
            if c.y == u16::MAX {
                c
            } else {
                Position { x: 0, y: (c.y + 1) as u16 }
            }
        } else if c.x == u16::MAX {
            c
        } else {
            Position { x: (c.x + 1) as u16, y: c.y }
        },
    }
}

/// The characters of `s` in reverse order.
pub open spec fn reversed(s: Seq<char>) -> Seq<char> {
    Seq::new(s.len(), |i: int| s[s.len() - 1 - i])
}

/// The column where cursor `c` points within a line of length `len`: its
/// own, or the line's end when it lies past it.
pub open spec fn col_in(c: Position, len: nat) -> nat {
    if c.x as nat <= len {
        c.x as nat
    } else {
        len
    }
}

/// The cursor after moving over the match of `pat` that begins at the cursor.
pub open spec fn after_pattern(t: Seq<char>, c: Position, pat: Seq<char>) -> Position {
    let line = line_at(t, c.y as int);
    match match_at_start(pat, line.skip(col_in(c, line.len()) as int)) {
        Some(n) => if c.x + n <= u16::MAX {
            Position { x: (c.x + n) as u16, y: c.y }
        } else {
            c
        },
        None => c,
    }
}

/// The cursor after moving back over the match of `pat` that ends at the
/// cursor, found by matching the reversed text before it.
pub open spec fn before_pattern(t: Seq<char>, c: Position, pat: Seq<char>) -> Position {
    let line = line_at(t, c.y as int);
    match match_at_start(pat, reversed(line.take(col_in(c, line.len()) as int))) {
        Some(n) => if n <= c.x {
            Position { x: (c.x - n) as u16, y: c.y }
        } else {
            Position { x: 0, y: c.y }
        },
        None => c,
    }
}

/// Cursor queries and motion over a text.
pub trait CursorAction {
    /// The text the cursor moves in.
    spec fn motion_text(&self) -> Seq<char>;

    /// The cursor.
    spec fn motion_cursor(&self) -> Position;

    /// Whether the cursor is one line or more past the last line.
    fn cursor_at_end_of_file(&self) -> (r: bool)
        ensures
            r == (self.motion_cursor().y >= lines_of(self.motion_text()).len() + 1),
    ;

    /// Whether the cursor is at or past the end of its line.
    fn cursor_at_end_of_line(&self) -> (r: bool)
        ensures
            r == (self.motion_cursor().x >= line_at(
                self.motion_text(),
                self.motion_cursor().y as int,
            ).len()),
    ;

    /// Whether the cursor is on the first line.
    fn cursor_at_start_of_file(&self) -> (r: bool)
        ensures
            r == (self.motion_cursor().y == 0),
    ;

    /// Whether the cursor is in the first column.
    fn cursor_at_start_of_line(&self) -> (r: bool)
        ensures
            r == (self.motion_cursor().x == 0),
    ;

    /// Moves the cursor one step.
    fn move_cursor(&mut self, dir: CursorDirection)
        ensures
            final(self).motion_text() == old(self).motion_text(),
            final(self).motion_cursor() == moved(
                old(self).motion_text(),
                old(self).motion_cursor(),
                dir,
            ),
    ;

    /// Moves the cursor over the match of `pat` that begins at it.
    fn move_to_end_of_pat(&mut self, pat: &CRegex)
        ensures
            final(self).motion_text() == old(self).motion_text(),
            final(self).motion_cursor() == after_pattern(
                old(self).motion_text(),
                old(self).motion_cursor(),
                pat@,
            ),
    ;

    /// Moves the cursor back over the match of `pat` that ends at it.
    fn move_to_start_of_pat(&mut self, pat: &CRegex)
        ensures
            final(self).motion_text() == old(self).motion_text(),
            final(self).motion_cursor() == before_pattern(
                old(self).motion_text(),
                old(self).motion_cursor(),
                pat@,
            ),
    ;

    /// Moves the cursor to the start of the next line.
    fn move_to_next_line(&mut self)
        requires
            old(self).motion_cursor().y < u16::MAX,
        ensures
            final(self).motion_text() == old(self).motion_text(),
            final(self).motion_cursor() == (Position { x: 0, y: (old(self).motion_cursor().y + 1) as u16 }),
    ;

    /// Moves the cursor to the end of the previous line.
    fn move_to_previous_line(&mut self)
        requires
            old(self).motion_cursor().y > 0,
        ensures
            final(self).motion_text() == old(self).motion_text(),
            final(self).motion_cursor() == (Position {
                x: capped(line_at(old(self).motion_text(), old(self).motion_cursor().y - 1).len()),
                y: (old(self).motion_cursor().y - 1) as u16,
            }),
    ;

    /// The text of the cursor's line.
    fn line_at_cursor(&self) -> (r: Vec<char>)
        ensures
            r@ == line_at(self.motion_text(), self.motion_cursor().y as int),
    ;

    /// The text of the line `dy` lines from the cursor's.
    fn line_from_cursor(&self, dy: i16) -> (r: Vec<char>)
        ensures
            r@ == line_at(self.motion_text(), self.motion_cursor().y + dy),
    ;
}

/// Every field of `a` but the cursor is that of `b`.
pub open spec fn same_except_cursor(a: &Editor, b: &Editor) -> bool {
    &&& a.file_text == b.file_text
    &&& a.mode == b.mode
    &&& a.file_path == b.file_path
    &&& a.keyhistory == b.keyhistory
    &&& a.exit == b.exit
    &&& a.command == b.command
    &&& a.frame_area == b.frame_area
    &&& a.scroll == b.scroll
    &&& a.word == b.word
    &&& a.theme_path == b.theme_path
    &&& a.message_queue == b.message_queue
}

/// The length of line `y` of `t`.
fn line_len(t: &Vec<char>, y: usize) -> (r: usize)
    ensures
        r == line_at(t@, y as int).len(),
{
    let (s, e, _) = line_span(t, y);
    e - s
}

impl CursorAction for Editor {
    open spec fn motion_text(&self) -> Seq<char> {
        self.file_text@
    }

    open spec fn motion_cursor(&self) -> Position {
        self.cursor
    }

    fn cursor_at_end_of_file(&self) -> (r: bool) {
        let n = line_count(&self.file_text);
        self.cursor.y as usize > n
    }

    fn cursor_at_end_of_line(&self) -> (r: bool) {
        self.cursor.x as usize >= line_len(&self.file_text, self.cursor.y as usize)
    }

    fn cursor_at_start_of_file(&self) -> (r: bool) {
        self.cursor.y == 0
    }

    fn cursor_at_start_of_line(&self) -> (r: bool) {
        self.cursor.x == 0
    }

    fn move_cursor(&mut self, dir: CursorDirection)
        ensures
            same_except_cursor(final(self), old(self)),
            dir == CursorDirection::Up && old(self).cursor.y == 0 ==> final(self).cursor
                == old(self).cursor,
            dir == CursorDirection::Down && old(self).cursor.y >= lines_of(old(self).file_text@).len()
                + 1 ==> final(self).cursor == old(self).cursor,
            (dir == CursorDirection::Up || dir == CursorDirection::Down) && final(self).cursor.y
                != old(self).cursor.y ==> final(self).cursor.x as nat == min(
                old(self).cursor.x as int,
                line_at(final(self).file_text@, final(self).cursor.y as int).len() as int,
            ),
    {
        match dir {
            CursorDirection::Up => {
                if self.cursor_at_start_of_file() {
                    return ;
                }
                let y = self.cursor.y - 1;
                let n = line_len(&self.file_text, y as usize);
                let x = if self.cursor.x as usize > n {
                    n as u16
                } else {
                    self.cursor.x
                };
                self.cursor = Position { x, y };
            },
            CursorDirection::Down => {
                if self.cursor_at_end_of_file() || self.cursor.y == u16::MAX {
                    return ;
                }
                let y = self.cursor.y + 1;
                let n = line_len(&self.file_text, y as usize);
                let x = if self.cursor.x as usize > n {
                    n as u16
                } else {
                    self.cursor.x
                };
                self.cursor = Position { x, y };
            },
            CursorDirection::Left => {
                if self.cursor_at_start_of_file() && self.cursor_at_start_of_line() {
                    return ;
                }
                if self.cursor_at_start_of_line() {
                    self.move_to_previous_line();
                } else {
                    self.cursor.x = self.cursor.x - 1;
                }
            },
            CursorDirection::Right => {
                if self.cursor_at_end_of_line() {
                    if self.cursor.y < u16::MAX {
                        self.move_to_next_line();
                    }
                } else if self.cursor.x < u16::MAX {
                    self.cursor.x = self.cursor.x + 1;
                }
            },
        }
    }

    fn move_to_end_of_pat(&mut self, pat: &CRegex)
        ensures
            same_except_cursor(final(self), old(self)),
    {
        let (s, e, _) = line_span(&self.file_text, self.cursor.y as usize);
        let x = self.cursor.x as usize;
        let from = if x <= e - s {
            s + x
        } else {
            e
        };
        let rest = copy_span(&self.file_text, from, e);
        proof {
            let line = line_at(self.file_text@, self.cursor.y as int);
            assert(rest@ =~= line.skip(col_in(self.cursor, line.len()) as int));
        }
        match pat.match_len_at_start(rest.as_slice()) {
            Some(n) => {
                if x + n <= u16::MAX as usize {
                    self.cursor.x = (x + n) as u16;
                }
            },
            None => {},
        }
    }

    fn move_to_start_of_pat(&mut self, pat: &CRegex)
        ensures
            same_except_cursor(final(self), old(self)),
    {
        let (s, e, _) = line_span(&self.file_text, self.cursor.y as usize);
        let x = self.cursor.x as usize;
        let upto = if x <= e - s {
            s + x
        } else {
            e
        };
        let mut back: Vec<char> = Vec::new();
        let mut i: usize = upto;
        while i > s
            invariant
                s <= i <= upto,
                upto <= self.file_text@.len(),
                back@ == reversed(self.file_text@.subrange(i as int, upto as int)),
            decreases i,
        {
            i = i - 1;
            back.push(self.file_text[i]);
            assert(back@ =~= reversed(self.file_text@.subrange(i as int, upto as int)));
        }
        proof {
            let line = line_at(self.file_text@, self.cursor.y as int);
            assert(self.file_text@.subrange(s as int, upto as int) =~= line.take(
                col_in(self.cursor, line.len()) as int,
            ));
        }
        match pat.match_len_at_start(back.as_slice()) {
            Some(n) => {
                if n <= x {
                    self.cursor.x = (x - n) as u16;
                } else {
                    self.cursor.x = 0;
                }
            },
            None => {},
        }
    }

    fn move_to_next_line(&mut self)
        ensures
            same_except_cursor(final(self), old(self)),
    {
        self.cursor = Position { x: 0, y: self.cursor.y + 1 };
    }

    fn move_to_previous_line(&mut self)
        ensures
            same_except_cursor(final(self), old(self)),
    {
        let n = self.line_from_cursor(-1).len();
        let x = if n > u16::MAX as usize {
            u16::MAX
        } else {
            n as u16
        };
        self.cursor = Position { x, y: self.cursor.y - 1 };
    }

    fn line_at_cursor(&self) -> (r: Vec<char>) {
        let (s, e, _) = line_span(&self.file_text, self.cursor.y as usize);
        copy_span(&self.file_text, s, e)
    }

    fn line_from_cursor(&self, dy: i16) -> (r: Vec<char>) {
        let y = self.cursor.y as i32 + dy as i32;
        if y < 0 {
            return Vec::new();
        }
        let (s, e, _) = line_span(&self.file_text, y as usize);
        copy_span(&self.file_text, s, e)
    }
}

} // verus!
