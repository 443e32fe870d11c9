use crate::document::doc_deleted;
use crate::document::doc_inserted;
use crate::document::Document;
use crate::row::grapheme_len;
use crate::row::rendered;
use crate::row::Row;
use vstd::prelude::*;

verus! {

/// How many extra quit requests a modified document asks for.
pub const QUIT_TIMES: usize = 3;

/// A place in the buffer: a cluster column `x` on line `y`.
#[derive(Clone, Copy, Debug, PartialEq, Eq, Structural)]
pub struct Position {
    pub x: usize,
    pub y: usize,
}

/// A cursor movement.
#[derive(Clone, Copy, Debug, PartialEq, Eq, Structural)]
pub enum Motion {
    Up,
    Down,
    Left,
    Right,
    PageUp,
    PageDown,
    Home,
    End,
}

/// One decoded key press.
#[derive(Clone, Copy, Debug, PartialEq, Eq, Structural)]
pub enum Command {
    Quit,
    Move(Motion),
    Insert(char),
    Delete,
    Backspace,
    Other,
}

/// Number of clusters on line `y`, or 0 past the end.
pub open spec fn row_width(lines: Seq<Seq<char>>, y: int) -> int {
    if 0 <= y < lines.len() {
        grapheme_len(lines[y]) as int
    } else {
        0
    }
}

/// Where a motion takes the cursor, before the column is fitted to the line.
pub open spec fn motion_target(lines: Seq<Seq<char>>, x: int, y: int, m: Motion, th: int) -> (int, int) {
    let h = lines.len() as int;
    let w = row_width(lines, y);
    match m {
        Motion::Up => (x, if y > 0 { y - 1 } else { 0 }),
        Motion::Down => (x, if y < h { y + 1 } else { y }),
        Motion::Left => if x > 0 {
            (x - 1, y)
        } else if y > 0 {
            (row_width(lines, y - 1), y - 1)
        } else {
            (x, y)
        },
        Motion::Right => if x < w {
            (x + 1, y)
        } else if y < h {
            (0, y + 1)
        } else {
            (x, y)
        },
        Motion::PageUp => (x, if y > th { y - th } else { 0 }),
        Motion::PageDown => (x, if y + th < h { y + th } else { h }),
        Motion::Home => (0, y),
        Motion::End => (w, y),
    }
}

/// The column `x` fitted to line `y`.
pub open spec fn fitted(lines: Seq<Seq<char>>, x: int, y: int) -> int {
    if x < row_width(lines, y) {
        x
    } else {
        row_width(lines, y)
    }
}

/// Where a motion takes the cursor.
pub open spec fn moved(lines: Seq<Seq<char>>, x: int, y: int, m: Motion, th: int) -> (int, int) {
    let t = motion_target(lines, x, y, m, th);
    (fitted(lines, t.0, t.1), t.1)
}

/// The new scroll origin on one axis: moved just enough to show `pos` in a
/// window of `size` cells.
pub open spec fn scrolled(pos: int, off: int, size: int) -> int {
    if pos < off {
        pos
    } else if pos >= off + size {
        pos - size + 1
    } else {
        off
    }
}

/// The quit counter and whether to quit, after one key press.
pub open spec fn quit_step(times: int, dirty: bool, is_quit: bool) -> (int, bool) {
    if !is_quit {
        (QUIT_TIMES as int, false)
    } else if dirty && times > 0 {
        (times - 1, false)
    } else {
        (times, true)
    }
}

/// The counter and decision after `n` quit requests in a row on a modified
/// document, starting from counter `times`.
pub open spec fn quit_presses(times: int, n: nat) -> (int, bool)
    decreases n,
{
    if n == 0 {
        (times, false)
    } else {
        let before = quit_presses(times, (n - 1) as nat);
        if before.1 {
            before
        } else {
            quit_step(before.0, true, true)
        }
    }
}

/// The lines and cursor after a command.
pub open spec fn after_command(lines: Seq<Seq<char>>, x: int, y: int, cmd: Command, th: int) -> (
    Seq<Seq<char>>,
    int,
    int,
) {
    match cmd {
        Command::Move(m) => {
            let p = moved(lines, x, y, m, th);
            (lines, p.0, p.1)
        },
        Command::Insert(c) => {
            let after = doc_inserted(lines, x, y, c);
            let p = moved(after, x, y, Motion::Right, th);
            (after, p.0, p.1)
        },
        Command::Delete => {
            let after = doc_deleted(lines, x, y);
            (after, fitted(after, x, y), y)
        },
        Command::Backspace => if x > 0 || y > 0 {
            let p = moved(lines, x, y, Motion::Left, th);
            let after = doc_deleted(lines, p.0, p.1);
            (after, fitted(after, p.0, p.1), p.1)
        } else {
            (lines, x, y)
        },
        _ => (lines, x, y),
    }
}

/// On a modified document, the first `QUIT_TIMES` quit requests in a row are
/// refused and the next one quits.
pub proof fn lemma_quit_needs_confirmation(n: nat)
    ensures
        quit_presses(QUIT_TIMES as int, n).1 <==> n > QUIT_TIMES,
        n <= QUIT_TIMES ==> quit_presses(QUIT_TIMES as int, n).0 == QUIT_TIMES - n,
    decreases n,
{
    if n > 0 {
        lemma_quit_needs_confirmation((n - 1) as nat);
    }
}

/// Any key press other than a quit request starts the count again.
pub proof fn lemma_other_key_resets(times: int, dirty: bool)
    ensures
        quit_step(times, dirty, false) == (QUIT_TIMES as int, false),
{
}

fn width_of(document: &Document, y: usize) -> (r: usize)
    ensures
        r == row_width(document@, y as int),
{
    match document.row(y) {
        Some(row) => row.len(),
        None => 0,
    }
}

fn fit(document: &Document, x: usize, y: usize) -> (r: usize)
    ensures
        r == fitted(document@, x as int, y as int),
{
    let w = width_of(document, y);
    if x < w {
        x
    } else {
        w
    }
}

/// The cursor after a motion, with pages of `terminal_height` lines.
pub fn move_cursor(document: &Document, at: Position, motion: Motion, terminal_height: usize) -> (r: Position)
    ensures
        (r.x as int, r.y as int) == moved(document@, at.x as int, at.y as int, motion, terminal_height as int),
{
    let height = document.len();
    let width = width_of(document, at.y);
    let mut x = at.x;
    let mut y = at.y;
    match motion {
        Motion::Up => {
            if y > 0 {
                y = y - 1;
            }
        },
        Motion::Down => {
            if y < height {
                y = y + 1;
            }
        },
        Motion::Left => {
            if x > 0 {
                x = x - 1;
            } else if y > 0 {
                y = y - 1;
                x = width_of(document, y);
            }
        },
        Motion::Right => {
            if x < width {
                x = x + 1;
            } else if y < height {
                y = y + 1;
                x = 0;
            }
        },
        Motion::PageUp => {
            y = if y > terminal_height {
                y - terminal_height
            } else {
                0
            };
        },
        Motion::PageDown => {
            y = if terminal_height < height && y < height - terminal_height {
                y + terminal_height
            } else {
                height
            };
        },
        Motion::Home => {
            x = 0;
        },
        Motion::End => {
            x = width;
        },
    }
    Position { x: fit(document, x, y), y }
}

fn scroll_axis(pos: usize, off: usize, size: usize) -> (r: usize)
    requires
        size > 0,
    ensures
        r == scrolled(pos as int, off as int, size as int),
{
    if pos < off {
        pos
    } else if pos - off >= size {
        pos - size + 1
    } else {
        off
    }
}

/// The scroll origin moved just enough to show `cursor` in a window of
/// `width` by `height` cells.
pub fn scroll_offset(cursor: Position, offset: Position, width: usize, height: usize) -> (r: Position)
    requires
        width > 0,
        height > 0,
    ensures
        r.x == scrolled(cursor.x as int, offset.x as int, width as int),
        r.y == scrolled(cursor.y as int, offset.y as int, height as int),
        r.x <= cursor.x < r.x + width,
        r.y <= cursor.y < r.y + height,
{
    Position { x: scroll_axis(cursor.x, offset.x, width), y: scroll_axis(cursor.y, offset.y, height) }
}

/// One editing session: a document, the cursor, the scroll origin and the
/// quit confirmation state.
pub struct Editor {
    pub quit: bool,
    pub quit_times: usize,
    pub cursor_position: Position,
    pub offset: Position,
    pub document: Document,
}

impl Editor {
    /// The cursor stands on a line of the document, or just past the last one,
    /// and within its line.
    pub open spec fn wf(&self) -> bool {
        &&& self.cursor_position.y <= self.document@.len()
        &&& self.cursor_position.x <= row_width(self.document@, self.cursor_position.y as int)
        &&& self.quit_times <= QUIT_TIMES
    }

    pub fn new(document: Document) -> (r: Editor)
        ensures
            r.wf(),
            r.document == document,
            r.cursor_position == (Position { x: 0, y: 0 }),
            r.offset == (Position { x: 0, y: 0 }),
            !r.quit,
            r.quit_times == QUIT_TIMES,
    {
        Editor {
            quit: false,
            quit_times: QUIT_TIMES,
            cursor_position: Position { x: 0, y: 0 },
            offset: Position { x: 0, y: 0 },
            document,
        }
    }

    /// Applies one key press, then scrolls the `width` by `height` window to
    /// the cursor.
    pub fn process_key(&mut self, command: Command, width: usize, height: usize)
        requires
            old(self).wf(),
            width > 0,
            height > 0,
        ensures
            final(self).wf(),
            final(self).quit_times as int == quit_step(
                old(self).quit_times as int,
                old(self).document.modified(),
                command is Quit,
            ).0,
            final(self).quit == (old(self).quit || quit_step(
                old(self).quit_times as int,
                old(self).document.modified(),
                command is Quit,
            ).1),
            after_command(
                old(self).document@,
                old(self).cursor_position.x as int,
                old(self).cursor_position.y as int,
                command,
                height as int,
            ) == (
                final(self).document@,
                final(self).cursor_position.x as int,
                final(self).cursor_position.y as int,
            ),
            command is Insert ==> final(self).document.modified(),
            (command is Quit || command is Move || command is Other) ==> final(self).document.modified()
                == old(self).document.modified(),
            final(self).document.file_name() == old(self).document.file_name(),
            final(self).offset == scroll_offset_spec(final(self).cursor_position, old(self).offset, width, height),
            final(self).offset.x <= final(self).cursor_position.x < final(self).offset.x + width,
            final(self).offset.y <= final(self).cursor_position.y < final(self).offset.y + height,
    {
        let ghost lines = self.document@;
        let is_quit = match command {
            Command::Quit => true,
            _ => false,
        };
        match command {
            Command::Quit => {
                if self.quit_times > 0 && self.document.is_dirty() {
                    self.quit_times = self.quit_times - 1;
                } else {
                    self.quit = true;
                }
            },
            Command::Move(motion) => {
                self.cursor_position = move_cursor(&self.document, self.cursor_position, motion, height);
            },
            Command::Insert(c) => {
                self.document.insert(&self.cursor_position, c);
                self.cursor_position = move_cursor(&self.document, self.cursor_position, Motion::Right, height);
            },
            Command::Delete => {
                self.document.delete(&self.cursor_position);
                let at = self.cursor_position;
                self.cursor_position = Position { x: fit(&self.document, at.x, at.y), y: at.y };
            },
            Command::Backspace => {
                if self.cursor_position.x > 0 || self.cursor_position.y > 0 {
                    let at = move_cursor(&self.document, self.cursor_position, Motion::Left, height);
                    self.document.delete(&at);
                    self.cursor_position = Position { x: fit(&self.document, at.x, at.y), y: at.y };
                }
            },
            Command::Other => {},
        }
        if !is_quit {
            self.quit_times = QUIT_TIMES;
        }
        self.scroll(width, height);
    }

    /// The cursor's place in the window.
    pub fn screen_position(&self) -> (r: Position)
        requires
            self.offset.x <= self.cursor_position.x,
            self.offset.y <= self.cursor_position.y,
        ensures
            r.x == self.cursor_position.x - self.offset.x,
            r.y == self.cursor_position.y - self.offset.y,
    {
        Position { x: self.cursor_position.x - self.offset.x, y: self.cursor_position.y - self.offset.y }
    }

    /// The part of `row` that a window `width` cells wide shows.
    pub fn visible_row(&self, row: &Row, width: usize) -> (r: String)
        ensures
            r@ == rendered(row@, self.offset.x as int, self.offset.x + width),
    {
        let start = self.offset.x;
        let end = if width <= usize::MAX - start {
            start + width
        } else {
            row.len()
        };
        row.render(start, end)
    }

    /// Moves the scroll origin just enough to show the cursor.
    pub fn scroll(&mut self, width: usize, height: usize)
        requires
            width > 0,
            height > 0,
        ensures
            final(self).offset == scroll_offset_spec(old(self).cursor_position, old(self).offset, width, height),
            final(self).cursor_position == old(self).cursor_position,
            final(self).document == old(self).document,
            final(self).quit == old(self).quit,
            final(self).quit_times == old(self).quit_times,
            final(self).offset.x <= final(self).cursor_position.x < final(self).offset.x + width,
            final(self).offset.y <= final(self).cursor_position.y < final(self).offset.y + height,
    {
        self.offset = scroll_offset(self.cursor_position, self.offset, width, height);
    }
}

/// The scroll origin that `scroll_offset` returns.
pub open spec fn scroll_offset_spec(cursor: Position, offset: Position, width: usize, height: usize) -> Position {
    Position {
        x: scrolled(cursor.x as int, offset.x as int, width as int) as usize,
        y: scrolled(cursor.y as int, offset.y as int, height as int) as usize,
    }
}

} // verus!
