//! The editor session: the line buffer, the cursor, the viewport and the mode.
//!
//! The cursor is held relative to the viewport: `cx` and `cy` are the column
//! and row on the screen, `vtop` is the first buffer row that the viewport
//! shows. The buffer row under the cursor is `vtop + cy`, its column is `cx`.
//! The left edge of the viewport is fixed: lines are not scrolled sideways.
//!
//! Every operation is stated over [`EditorView`], the session as a
//! mathematical value, on which each operation is a function.

use crate::config::Config;
use crate::content::{
    lemma_delete_line_text, lemma_insert_char_text, lemma_insert_line_text,
    lemma_join_lines_text, lemma_remove_char_at_cursor_text, lemma_remove_char_text,
    lemma_split_line_text,
};
use crate::syntax::Viewport;
use crate::text::{
    blank, chars_of, cut_at, decimal, decimal_value, digits, glue, insert_at, is_decimal,
    is_space, is_whitespace, join, lines, lines_of, pad_left, parse_decimal, remove_at,
    right_aligned, spaces, str_eq, string_views,
};
use crate::theme::Theme;
use vstd::prelude::*;
use vstd::string::*;

verus! {

/// What the keys mean at the moment.
#[derive(Debug, Clone, Copy, PartialEq, Eq, Structural)]
pub enum Mode {
    /// Keys are motions and commands.
    Normal,
    /// Keys are text.
    Insert,
    /// Keys go to the command line.
    Command,
}

impl Default for Mode {
    fn default() -> (r: Self)
        ensures
            r == Mode::Normal,
    {
        Mode::Normal
    }
}

impl Mode {
    /// Whether this is the command mode.
    pub fn is_command(&self) -> (r: bool)
        ensures
            r == (*self == Mode::Command),
    {
        match self {
            Mode::Command => true,
            _ => false,
        }
    }
}

/// A key of the keyboard.
#[derive(Debug, Clone, Copy, PartialEq, Eq, Structural)]
pub enum Key {
    Char(char),
    Up,
    Down,
    Left,
    Right,
    Esc,
    Enter,
    Backspace,
    Delete,
    Tab,
    /// Any key that the editor has no use for.
    Other,
}

/// What the mouse did.
#[derive(Debug, Clone, Copy, PartialEq, Eq, Structural)]
pub enum MouseKind {
    /// The left button went down.
    LeftDown,
    /// The mouse moved with the left button down.
    LeftDrag,
    ScrollUp,
    ScrollDown,
    /// Anything that the editor has no use for.
    Other,
}

/// What the terminal reports.
#[derive(Debug, Clone, Copy, PartialEq, Eq, Structural)]
pub enum Input {
    /// A key was pressed; `ctrl` says whether the control key was held.
    Key { key: Key, ctrl: bool },
    /// The mouse did something at screen column `column`, screen row `row`.
    Mouse { kind: MouseKind, column: usize, row: usize },
    /// The terminal has a new size.
    Resize { width: usize, height: usize },
    /// Anything that the editor has no use for.
    Other,
}

/// The shape of the cursor.
#[derive(Debug, Clone, Copy, PartialEq, Eq, Structural)]
pub enum CursorShape {
    /// A block on the character: normal mode.
    Block,
    /// A bar before the character: insert mode.
    Bar,
}

/// Where and how the cursor is painted.
#[derive(Debug, Clone, Copy, PartialEq, Eq, Structural)]
pub enum Cursor {
    /// Keys do not act on the buffer: the cursor is not painted there.
    Hidden,
    /// The cursor stands at screen column `x`, screen row `y`.
    At { x: u16, y: u16, shape: CursorShape },
    /// The cursor stands where no terminal has a cell.
    OutOfReach,
}

/// The texts of the status line.
#[derive(Debug)]
pub struct StatusLine {
    /// The screen row of the status line.
    pub y: usize,
    /// The mode, at the left edge.
    pub mode: String,
    /// The name of the file, behind the mode.
    pub file: String,
    /// The row and the column of the cursor.
    pub position: String,
    /// The screen column at which the position begins.
    pub position_x: usize,
}

/// The status line as a mathematical value.
pub struct StatusLineView {
    pub y: nat,
    pub mode: Seq<char>,
    pub file: Seq<char>,
    pub position: Seq<char>,
    pub position_x: nat,
}

impl View for StatusLine {
    type V = StatusLineView;

    open spec fn view(&self) -> StatusLineView {
        StatusLineView {
            y: self.y as nat,
            mode: self.mode@,
            file: self.file@,
            position: self.position@,
            position_x: self.position_x as nat,
        }
    }
}

/// One row of the gutter.
#[derive(Debug)]
pub struct GutterRow {
    /// The number of the line on this row, right-aligned; blank on a row
    /// that shows no line.
    pub text: String,
    /// Whether the row shows a line.
    pub numbered: bool,
    /// Whether the cursor is on this row.
    pub current: bool,
}

/// A row of the gutter as a mathematical value.
pub struct GutterRowView {
    pub text: Seq<char>,
    pub numbered: bool,
    pub current: bool,
}

impl View for GutterRow {
    type V = GutterRowView;

    open spec fn view(&self) -> GutterRowView {
        GutterRowView { text: self.text@, numbered: self.numbered, current: self.current }
    }
}

/// The editor session.
pub struct Editor {
    pub theme: Theme,
    pub config: Config,
    pub mode: Mode,
    /// The text, one string a line.
    pub buffer: Vec<String>,
    /// The name of the file that is edited.
    pub name: String,
    /// The width of the terminal.
    pub width: usize,
    /// The height of the terminal.
    pub height: usize,
    /// The column of the cursor.
    pub cx: usize,
    /// The row of the cursor on the screen.
    pub cy: usize,
    /// The screen column at which the text begins; the gutter is left of it.
    pub vleft: usize,
    /// The first buffer row that the viewport shows.
    pub vtop: usize,
    /// The width of the viewport.
    pub vwidth: usize,
    /// The height of the viewport.
    pub vheight: usize,
    /// The first key of a two-key command, while the second is awaited.
    pub waiting_key: Option<char>,
    /// Whether the screen is to be painted anew at the next occasion.
    pub pending_redraw: bool,
    /// Whether the session is over.
    pub quit: bool,
}

/// The editor session as a mathematical value.
pub struct EditorView {
    pub theme: Theme,
    pub config: Config,
    pub mode: Mode,
    pub lines: Seq<Seq<char>>,
    pub name: Seq<char>,
    pub width: nat,
    pub height: nat,
    pub cx: nat,
    pub cy: nat,
    pub vleft: nat,
    pub vtop: nat,
    pub vwidth: nat,
    pub vheight: nat,
    pub waiting_key: Option<char>,
    pub pending_redraw: bool,
    pub quit: bool,
}

impl View for Editor {
    type V = EditorView;

    open spec fn view(&self) -> EditorView {
        EditorView {
            theme: self.theme,
            config: self.config,
            mode: self.mode,
            lines: string_views(self.buffer@),
            name: self.name@,
            width: self.width as nat,
            height: self.height as nat,
            cx: self.cx as nat,
            cy: self.cy as nat,
            vleft: self.vleft as nat,
            vtop: self.vtop as nat,
            vwidth: self.vwidth as nat,
            vheight: self.vheight as nat,
            waiting_key: self.waiting_key,
            pending_redraw: self.pending_redraw,
            quit: self.quit,
        }
    }
}

/// The lesser of two numbers.
pub open spec fn least(a: nat, b: nat) -> nat {
    if a <= b {
        a
    } else {
        b
    }
}

/// `a - b`, or nothing where `b` is the greater.
pub open spec fn minus(a: nat, b: nat) -> nat {
    if a >= b {
        (a - b) as nat
    } else {
        0
    }
}

impl EditorView {
    /// The buffer row under the cursor.
    pub open spec fn row(self) -> nat {
        self.vtop + self.cy
    }

    /// Whether there is a line under the cursor.
    pub open spec fn has_line(self) -> bool {
        self.row() < self.lines.len()
    }

    /// The line under the cursor; empty where there is none.
    pub open spec fn line(self) -> Seq<char> {
        if self.has_line() {
            self.lines[self.row() as int]
        } else {
            Seq::<char>::empty()
        }
    }

    /// The column at which an edit takes place: that of the cursor, or the
    /// end of the line where the cursor stands beyond it.
    pub open spec fn col(self) -> nat {
        least(self.cx, self.line().len())
    }

    /// The whole text: the lines with a line feed between each two neighbours.
    pub open spec fn text(self) -> Seq<char> {
        join(self.lines, '\n')
    }

    /// What holds of every session. The viewport has at least one cell, the
    /// terminal holds it beside the gutter and above the two bottom rows, the
    /// cursor is inside the viewport, and the row under the cursor is a line
    /// of the buffer unless the buffer is empty.
    pub open spec fn wf(self) -> bool {
        &&& self.vheight >= 1
        &&& self.vwidth >= 1
        &&& self.vleft >= 2
        &&& self.width == self.vleft + self.vwidth
        &&& self.height == self.vheight + 2
        &&& self.cy < self.vheight
        &&& if self.lines.len() == 0 {
            self.vtop == 0 && self.cy == 0
        } else {
            self.vtop + self.cy < self.lines.len()
        }
    }

    /// Whether keys act on the buffer.
    pub open spec fn affects_buffer(self) -> bool {
        self.mode == Mode::Normal || self.mode == Mode::Insert
    }

    /// The column that a normal-mode cursor may at most stand in.
    pub open spec fn last_column(self) -> nat {
        minus(self.line().len(), 1)
    }

    /// The cursor brought back to the line. Where it stands at or beyond the
    /// end of the line, normal mode puts it on the last character and insert
    /// mode behind it. Command mode leaves it alone.
    pub open spec fn adjust_cursor(self) -> EditorView {
        if self.cx >= self.line().len() {
            match self.mode {
                Mode::Normal => EditorView { cx: self.last_column(), ..self },
                Mode::Insert => EditorView { cx: self.line().len(), ..self },
                Mode::Command => self,
            }
        } else {
            self
        }
    }

    /// The viewport moved so that the row under the cursor stands in its
    /// middle, or as near to it as the top of the buffer allows. The row under
    /// the cursor stays the same.
    pub open spec fn move_line_to_center(self) -> EditorView {
        let center = self.vheight / 2;
        if self.cy >= center {
            EditorView { vtop: self.vtop + minus(self.cy, center), cy: center, ..self }
        } else {
            let dist = least(minus(center, self.cy), self.vtop);
            EditorView { vtop: minus(self.vtop, dist), cy: self.cy + dist, ..self }
        }
    }

    /// One row down, if there is a line below: the cursor goes down inside the
    /// viewport, and on its last row the viewport goes down instead.
    pub open spec fn move_down(self) -> EditorView {
        if self.row() + 1 < self.lines.len() {
            if self.cy + 1 >= self.vheight {
                EditorView { vtop: self.vtop + 1, ..self }
            } else {
                EditorView { cy: self.cy + 1, ..self }
            }
        } else {
            self
        }
    }

    /// One row up, if there is a line above: the cursor goes up inside the
    /// viewport, and on its first row the viewport goes up instead.
    pub open spec fn move_up(self) -> EditorView {
        if self.cy > 0 {
            EditorView { cy: minus(self.cy, 1), ..self }
        } else if self.vtop > 0 {
            EditorView { vtop: minus(self.vtop, 1), ..self }
        } else {
            self
        }
    }

    /// One column to the right, as far as the end of the line and the last
    /// column of the viewport.
    pub open spec fn move_right(self) -> EditorView {
        if self.cx + 1 < self.vwidth && self.cx < self.line().len() {
            EditorView { cx: self.cx + 1, ..self }
        } else {
            self
        }
    }

    /// One column to the left, as far as the first.
    pub open spec fn move_left(self) -> EditorView {
        EditorView { cx: minus(self.cx, 1), ..self }
    }

    /// Onto the last character of the line.
    pub open spec fn move_end_of_line(self) -> EditorView {
        EditorView { cx: self.last_column(), ..self }
    }

    /// Onto the first column.
    pub open spec fn move_start_of_line(self) -> EditorView {
        EditorView { cx: 0, ..self }
    }
}

/// The place of the first white space in `line` at or after `from`.
pub open spec fn next_space(line: Seq<char>, from: nat) -> Option<nat>
    decreases line.len() - from,
{
    if from >= line.len() {
        None
    } else if is_space(line[from as int]) {
        Some(from)
    } else {
        next_space(line, from + 1)
    }
}

/// The place of the last white space in `line` at or before `upto`.
pub open spec fn prev_space(line: Seq<char>, upto: int) -> Option<nat>
    decreases upto + 1,
{
    if upto < 0 {
        None
    } else if upto < line.len() && is_space(line[upto]) {
        Some(upto as nat)
    } else {
        prev_space(line, upto - 1)
    }
}

/// `next_space` finds white space, passes over none, and finds none only
/// where there is none from `from` on.
pub proof fn lemma_next_space(line: Seq<char>, from: nat)
    ensures
        match next_space(line, from) {
            Some(w) => {
                &&& from <= w < line.len()
                &&& is_space(line[w as int])
                &&& forall|k: int| from <= k < w ==> !is_space(#[trigger] line[k])
            },
            None => forall|k: int| from <= k < line.len() ==> !is_space(#[trigger] line[k]),
        },
    decreases line.len() - from,
{
    if from < line.len() && !is_space(line[from as int]) {
        lemma_next_space(line, from + 1);
    }
}

/// `prev_space` finds white space, passes over none, and finds none only
/// where there is none up to `upto`.
pub proof fn lemma_prev_space(line: Seq<char>, upto: int)
    ensures
        match prev_space(line, upto) {
            Some(w) => {
                &&& w <= upto
                &&& w < line.len()
                &&& is_space(line[w as int])
                &&& forall|k: int| w < k <= upto && k < line.len() ==> !is_space(#[trigger] line[k])
            },
            None => forall|k: int|
                0 <= k <= upto && k < line.len() ==> !is_space(#[trigger] line[k]),
        },
    decreases upto + 1,
{
    if upto >= 0 && !(upto < line.len() && is_space(line[upto])) {
        lemma_prev_space(line, upto - 1);
    }
}

impl EditorView {
    /// The viewport moved down by the rows that one notch of the mouse wheel
    /// scrolls, the cursor staying on its line while the line stays in sight.
    /// Where that would take the viewport past the end of the buffer, it
    /// shows the last rows of the buffer instead.
    pub open spec fn scroll_down(self) -> EditorView {
        let n = self.config.mouse_scroll_lines as nat;
        if self.vtop + n < self.lines.len() {
            EditorView { vtop: self.vtop + n, cy: minus(self.cy, n), ..self }
        } else {
            EditorView { vtop: minus(self.lines.len(), self.vheight), ..self }
        }
    }

    /// The viewport moved up by the rows that one notch of the mouse wheel
    /// scrolls, the cursor staying on its line while the line stays in sight.
    /// Where fewer rows are above, the viewport goes to the top of the buffer.
    pub open spec fn scroll_up(self) -> EditorView {
        let n = self.config.mouse_scroll_lines as nat;
        if self.vtop == 0 {
            self
        } else if self.vtop >= n {
            EditorView {
                vtop: minus(self.vtop, n),
                cy: least(self.cy + n, minus(self.vheight, 1)),
                ..self
            }
        } else {
            EditorView { vtop: 0, ..self }
        }
    }

    /// The cursor put where the pointer is: at screen column `x` and screen
    /// row `y`. A row below the viewport is not taken. A row below the last
    /// line stands for the last line, a column left of the text for the first
    /// column, and a column beyond the end of the line for its last character.
    pub open spec fn move_to(self, x: nat, y: nat) -> EditorView {
        if y >= self.vheight {
            self
        } else {
            let cy = if self.vtop + y < self.lines.len() {
                y
            } else {
                minus(minus(self.lines.len(), 1), self.vtop)
            };
            let there = EditorView { cx: minus(x, self.vleft), cy: cy, ..self };
            if there.cx > there.line().len() {
                EditorView { cx: there.last_column(), ..there }
            } else {
                there
            }
        }
    }

    /// The viewport moved down by its own height, or onto the last rows of
    /// the buffer where fewer rows follow. The cursor keeps its screen row as
    /// far as the buffer reaches.
    pub open spec fn move_to_next_page(self) -> EditorView {
        if self.lines.len() > self.vtop + self.vheight {
            let vtop = self.vtop + self.vheight;
            EditorView {
                vtop: vtop,
                cy: least(self.cy, minus(minus(self.lines.len(), 1), vtop)),
                ..self
            }
        } else {
            EditorView { vtop: minus(self.lines.len(), self.vheight), ..self }
        }
    }

    /// The viewport moved up by its own height, as far as the top.
    pub open spec fn move_to_previous_page(self) -> EditorView {
        EditorView { vtop: minus(self.vtop, self.vheight), ..self }
    }

    /// The cursor at the start of buffer row `line`, which becomes the first
    /// row of the viewport. A row beyond the last line stands for the last.
    pub open spec fn move_to_line(self, line: nat) -> EditorView {
        EditorView {
            vtop: least(line, minus(self.lines.len(), 1)),
            cy: 0,
            cx: 0,
            ..self
        }
    }

    /// The cursor at the start of the first line.
    pub open spec fn move_to_start_of_buffer(self) -> EditorView {
        EditorView { vtop: 0, cy: 0, cx: 0, ..self }
    }

    /// The cursor on the last row of the viewport that shows a line.
    pub open spec fn move_to_end_of_viewport(self) -> EditorView {
        EditorView {
            cy: minus(least(self.vheight, minus(self.lines.len(), self.vtop)), 1),
            ..self
        }
    }

    /// The viewport on the last rows of the buffer, the cursor on the last
    /// line.
    pub open spec fn move_to_end_of_buffer(self) -> EditorView {
        (EditorView {
            vtop: minus(self.lines.len(), self.vheight),
            ..self
        }).move_to_end_of_viewport()
    }

    /// The cursor behind the first white space at or after it; on the last
    /// character of the line where no white space follows.
    pub open spec fn move_to_next_word(self) -> EditorView {
        if !self.has_line() {
            self
        } else {
            match next_space(self.line(), self.cx) {
                Some(w) => EditorView { cx: w + 1, ..self },
                None => EditorView { cx: self.last_column(), ..self },
            }
        }
    }

    /// The cursor behind the last white space that stands two columns or more
    /// before it; on the first column where there is none.
    pub open spec fn move_to_previous_word(self) -> EditorView {
        if !self.has_line() {
            self
        } else {
            match prev_space(self.line(), self.col() - 2) {
                Some(w) => EditorView { cx: w + 1, ..self },
                None => EditorView { cx: 0, ..self },
            }
        }
    }
}

impl EditorView {
    /// The session with an empty line put into an empty buffer, so that there
    /// is a line under the cursor. A session with lines is left as it is.
    pub open spec fn with_line(self) -> EditorView {
        if self.lines.len() == 0 {
            EditorView { lines: seq![Seq::<char>::empty()], ..self }
        } else {
            self
        }
    }

    /// An empty line put in at the row under the cursor; the line that was
    /// there, and those below, move down by one.
    pub open spec fn insert_line(self) -> EditorView {
        EditorView { lines: self.lines.insert(self.row() as int, Seq::<char>::empty()), ..self }
    }

    /// `c` put into the line under the cursor, before the cursor. An empty
    /// buffer gets a line first.
    pub open spec fn insert_char(self, c: char) -> EditorView {
        let s = self.with_line();
        EditorView {
            lines: s.lines.update(s.row() as int, s.line().insert(s.col() as int, c)),
            ..s
        }
    }

    /// The character before the cursor taken out of its line. Nothing
    /// changes on the first column, or where no character stands there.
    pub open spec fn remove_char(self) -> EditorView {
        if self.has_line() && 0 < self.cx <= self.line().len() {
            EditorView {
                lines: self.lines.update(self.row() as int, self.line().remove(self.cx - 1)),
                ..self
            }
        } else {
            self
        }
    }

    /// The character under the cursor taken out of its line. Nothing changes
    /// where the cursor stands behind the end of the line.
    pub open spec fn remove_char_at_cursor(self) -> EditorView {
        if self.has_line() && self.cx < self.line().len() {
            EditorView {
                lines: self.lines.update(self.row() as int, self.line().remove(self.cx as int)),
                ..self
            }
        } else {
            self
        }
    }

    /// The line under the cursor cut in two at the cursor: what stands before
    /// the cursor stays, what stands from it on becomes a new line below, and
    /// the cursor goes to the start of that line. At the end of a line this
    /// opens an empty line below. An empty buffer gets a line first.
    pub open spec fn split_line_at_cursor(self) -> EditorView {
        let s = self.with_line();
        let row = s.row() as int;
        let col = s.col() as int;
        (EditorView {
            lines: s.lines.update(row, s.line().take(col)).insert(row + 1, s.line().skip(col)),
            cx: 0,
            ..s
        }).move_down()
    }

    /// The line below the cursor's line hung onto it, one space between the
    /// two. Nothing changes where no line is below.
    pub open spec fn join_with_next_line(self) -> EditorView {
        let row = self.row() as int;
        if row + 1 < self.lines.len() {
            EditorView {
                lines: self.lines.update(row, self.line().push(' ') + self.lines[row + 1]).remove(
                    row + 1,
                ),
                ..self
            }
        } else {
            self
        }
    }

    /// The line under the cursor taken out of the buffer. The cursor stays on
    /// its row, where the line that was below now stands; it goes up one row
    /// where the last line was taken and another is left.
    pub open spec fn delete_current_line(self) -> EditorView {
        if !self.has_line() {
            self
        } else {
            let gone = EditorView { lines: self.lines.remove(self.row() as int), ..self };
            if self.row() + 1 == self.lines.len() {
                gone.move_up()
            } else {
                gone
            }
        }
    }
}

/// The width of the gutter: the first screen column of the text.
pub const GUTTER_WIDTH: usize = 8;

impl EditorView {
    /// Whether a terminal of this size holds a viewport beside a gutter of
    /// `vleft` columns and above the two bottom rows.
    pub open spec fn fits(vleft: nat, width: nat, height: nat) -> bool {
        width > vleft && height > 2
    }

    /// The session in a terminal of a new size. The cursor stays on its line;
    /// where the viewport has become too low for its screen row, the viewport
    /// moves down by what is missing. A size that holds no viewport is not
    /// taken.
    pub open spec fn resize(self, width: nat, height: nat) -> EditorView {
        if Self::fits(self.vleft, width, height) {
            let vheight = minus(height, 2);
            let cy = least(self.cy, minus(vheight, 1));
            EditorView {
                width: width,
                height: height,
                vwidth: minus(width, self.vleft),
                vheight: vheight,
                cy: cy,
                vtop: self.vtop + minus(self.cy, cy),
                ..self
            }
        } else {
            self
        }
    }

    /// The session once the command line has given `cmd`, or nothing. The
    /// mode is normal again and the screen is to be painted anew. `q` ends the
    /// session, `$` goes to the end of the buffer, a decimal number goes to
    /// the line of that number, counted from one, with nought for the start
    /// of the buffer. A number beyond the last line, and any other text, does
    /// nothing more.
    pub open spec fn handle_command(self, cmd: Option<Seq<char>>) -> EditorView {
        let s = EditorView { mode: Mode::Normal, pending_redraw: true, ..self };
        match cmd {
            None => s,
            Some(c) => {
                if c == seq!['q'] {
                    EditorView { quit: true, ..s }
                } else if c == seq!['$'] {
                    s.move_to_end_of_buffer()
                } else if is_decimal(c) {
                    let n = decimal_value(c);
                    if n == 0 {
                        s.move_to_start_of_buffer()
                    } else if n <= s.lines.len() {
                        s.move_to_line((n - 1) as nat)
                    } else {
                        s
                    }
                } else {
                    s
                }
            },
        }
    }

    /// Whether the viewport of `after` shows other rows or columns than that
    /// of this session: whether the whole screen is to be painted after a
    /// motion, and not the cursor alone.
    pub open spec fn scrolled_to(self, after: EditorView) -> bool {
        after.vtop != self.vtop || after.vleft != self.vleft
    }

    /// The session after a motion, and the need to repaint: the whole screen
    /// where the viewport moved, the cursor alone where it did not.
    pub open spec fn motion(self, after: EditorView) -> (EditorView, bool) {
        (after, self.scrolled_to(after))
    }

    /// Whether `c` begins a command of two keys.
    pub open spec fn begins_pair(c: char) -> bool {
        c == 'g' || c == 'd' || c == 'z'
    }

    /// The session and the need to repaint after the second key of a
    /// two-key command: `gg` goes to the start of the buffer, `dd` deletes
    /// the line under the cursor, `zz` centres the viewport on it.
    pub open spec fn on_pair(self, c: char) -> (EditorView, bool) {
        if c == 'g' {
            self.motion(self.move_to_start_of_buffer())
        } else if c == 'd' {
            (self.delete_current_line(), true)
        } else {
            self.motion(self.move_line_to_center())
        }
    }

    /// The session and the need to repaint after a character key in normal
    /// mode, no key being awaited.
    pub open spec fn on_normal_char(self, c: char, ctrl: bool) -> (EditorView, bool) {
        if c == 'G' {
            self.motion(self.move_to_end_of_buffer())
        } else if Self::begins_pair(c) {
            (EditorView { waiting_key: Some(c), ..self }, false)
        } else if c == 'f' {
            if ctrl {
                self.motion(self.move_to_next_page())
            } else {
                (self, false)
            }
        } else if c == 'b' {
            if ctrl {
                self.motion(self.move_to_previous_page())
            } else {
                self.motion(self.move_to_previous_word())
            }
        } else if c == 'q' {
            (EditorView { quit: true, ..self }, false)
        } else if c == 'i' {
            (EditorView { mode: Mode::Insert, ..self }, false)
        } else if c == 'a' {
            (EditorView { mode: Mode::Insert, ..self.move_right() }, false)
        } else if c == ':' || c == ';' {
            (EditorView { mode: Mode::Command, ..self }, true)
        } else if c == 'o' {
            (EditorView { mode: Mode::Insert, ..self.move_down().insert_line() }, true)
        } else if c == 'O' {
            (EditorView { mode: Mode::Insert, ..self.insert_line() }, true)
        } else if c == 'x' {
            (self.remove_char_at_cursor(), self.has_line())
        } else if c == 'J' {
            (self.join_with_next_line(), self.has_line())
        } else if c == 'j' {
            self.motion(self.move_down())
        } else if c == 'k' {
            self.motion(self.move_up())
        } else if c == 'h' {
            self.motion(self.move_left())
        } else if c == 'l' {
            self.motion(self.move_right())
        } else if c == '$' {
            self.motion(self.move_end_of_line())
        } else if c == '0' {
            self.motion(self.move_start_of_line())
        } else if c == 'w' {
            self.motion(self.move_to_next_word())
        } else {
            (self, false)
        }
    }

    /// The session and the need to repaint after a key in normal mode. While
    /// the second key of a two-key command is awaited, the key that completes
    /// the command fires it, and any other key does nothing; either way no
    /// key is awaited afterwards.
    pub open spec fn on_normal_key(self, key: Key, ctrl: bool) -> (EditorView, bool) {
        match self.waiting_key {
            Some(w) => {
                let s = EditorView { waiting_key: None, ..self };
                if key == Key::Char(w) && Self::begins_pair(w) {
                    s.on_pair(w)
                } else {
                    (s, false)
                }
            },
            None => match key {
                Key::Char(c) => self.on_normal_char(c, ctrl),
                Key::Down => self.motion(self.move_down()),
                Key::Up => self.motion(self.move_up()),
                Key::Left => self.motion(self.move_left()),
                Key::Right => self.motion(self.move_right()),
                Key::Esc => (EditorView { mode: Mode::Normal, ..self }, false),
                _ => (self, false),
            },
        }
    }

    /// The session and the need to repaint after an input in normal mode.
    pub open spec fn on_normal_input(self, ev: Input) -> (EditorView, bool) {
        match ev {
            Input::Key { key, ctrl } => self.on_normal_key(key, ctrl),
            Input::Mouse { kind, column, row } => match kind {
                MouseKind::LeftDown => self.motion(self.move_to(column as nat, row as nat)),
                MouseKind::ScrollUp => self.motion(self.scroll_up()),
                MouseKind::ScrollDown => self.motion(self.scroll_down()),
                _ => (self, false),
            },
            _ => (self, false),
        }
    }

    /// `n` spaces typed one after the other.
    pub open spec fn insert_spaces(self, n: nat) -> EditorView
        decreases n,
    {
        if n == 0 {
            self
        } else {
            self.insert_char(' ').move_right().insert_spaces((n - 1) as nat)
        }
    }

    /// The session after an input in insert mode.
    pub open spec fn on_insert_input(self, ev: Input) -> EditorView {
        match ev {
            Input::Key { key, ctrl } => match key {
                Key::Char(c) => self.insert_char(c).move_right(),
                Key::Esc => EditorView { mode: Mode::Normal, ..self },
                Key::Left => self.move_left(),
                Key::Backspace => self.remove_char().move_left(),
                Key::Delete => self.remove_char(),
                Key::Enter => self.split_line_at_cursor(),
                Key::Tab => self.insert_spaces(self.config.tab_size as nat),
                _ => self,
            },
            _ => self,
        }
    }

    /// The session after an input that is taken in every mode, and whether
    /// the input was one: a new size of the terminal is.
    pub open spec fn on_event(self, ev: Input) -> (EditorView, bool) {
        match ev {
            Input::Resize { width, height } => (self.resize(width as nat, height as nat), true),
            _ => (self, false),
        }
    }

    /// The session and the need to repaint after an input. A new size of the
    /// terminal is taken in every mode, and the whole screen is painted anew.
    /// Any other input goes by the mode; in command mode it changes nothing.
    pub open spec fn on_input(self, ev: Input) -> (EditorView, bool) {
        if self.on_event(ev).1 {
            self.on_event(ev)
        } else {
            match self.mode {
                Mode::Normal => self.on_normal_input(ev),
                Mode::Insert => (self.on_insert_input(ev), true),
                Mode::Command => (self, true),
            }
        }
    }

    /// The session as it is painted: where the whole screen is painted, the
    /// cursor is first brought back to its line, and nothing is pending any
    /// more.
    pub open spec fn draw(self, redraw: bool) -> EditorView {
        if redraw || self.pending_redraw {
            (EditorView { pending_redraw: false, ..self }).adjust_cursor()
        } else {
            self
        }
    }
}

/// The name of a buffer that was not read from a file.
pub open spec fn no_name() -> Seq<char> {
    "No Name"@
}

/// The mode as the status line shows it.
pub open spec fn mode_label(mode: Mode) -> Seq<char> {
    match mode {
        Mode::Normal => " NORMAL "@,
        Mode::Insert => " INSERT "@,
        Mode::Command => " COMMAND "@,
    }
}

impl EditorView {
    /// The session at its start, in a terminal of the given size. The buffer
    /// holds the lines of the file, or one empty line where no file is
    /// edited; the cursor stands at the start of the first line, in normal
    /// mode; the settings are the default ones.
    pub open spec fn start(
        theme: Theme,
        file: Option<(Seq<char>, Seq<char>)>,
        width: nat,
        height: nat,
    ) -> EditorView {
        EditorView {
            theme: theme,
            config: Config::defaults(),
            mode: Mode::Normal,
            lines: match file {
                Some((_, contents)) => lines(contents),
                None => seq![Seq::<char>::empty()],
            },
            name: match file {
                Some((name, _)) => name,
                None => no_name(),
            },
            width: width,
            height: height,
            cx: 0,
            cy: 0,
            vleft: GUTTER_WIDTH as nat,
            vtop: 0,
            vwidth: minus(width, GUTTER_WIDTH as nat),
            vheight: minus(height, 2),
            waiting_key: None,
            pending_redraw: false,
            quit: false,
        }
    }

    /// Where and how the cursor is painted: nowhere in command mode, else at
    /// its column behind the gutter and at its row, as a block in normal and
    /// as a bar in insert mode.
    pub open spec fn cursor(self) -> Cursor {
        if !self.affects_buffer() {
            Cursor::Hidden
        } else if self.vleft + self.cx <= u16::MAX && self.cy <= u16::MAX {
            Cursor::At {
                x: (self.vleft + self.cx) as u16,
                y: self.cy as u16,
                shape: if self.mode == Mode::Insert {
                    CursorShape::Bar
                } else {
                    CursorShape::Block
                },
            }
        } else {
            Cursor::OutOfReach
        }
    }

    /// The row and the column of the cursor as the status line shows them.
    pub open spec fn position_label(self) -> Seq<char> {
        seq![' '] + digits(self.row()) + seq![':'] + digits(self.cx) + seq![' ']
    }

    /// The status line: on the last row but one, the mode, then the name of
    /// the file between two spaces, and the position, which ends one column
    /// before the right edge.
    pub open spec fn statusline(self) -> StatusLineView {
        StatusLineView {
            y: minus(self.height, 2),
            mode: mode_label(self.mode),
            file: seq![' '] + self.name + seq![' '],
            position: self.position_label(),
            position_x: minus(self.width, self.position_label().len() + 1),
        }
    }

    /// Row `y` of the gutter. A row that shows a line has the number of the
    /// line, counted from one, right-aligned two columns before the text. A
    /// row below the last line is blank.
    pub open spec fn gutter_row(self, y: nat) -> GutterRowView {
        if self.vtop + y < self.lines.len() {
            GutterRowView {
                text: right_aligned(digits(self.vtop + y + 1), minus(self.vleft, 2)),
                numbered: true,
                current: y == self.cy,
            }
        } else {
            GutterRowView { text: spaces(self.vleft), numbered: false, current: y == self.cy }
        }
    }
}

/// The views of the rows of a gutter.
pub open spec fn gutter_views(rows: Seq<GutterRow>) -> Seq<GutterRowView> {
    Seq::new(rows.len(), |i: int| rows[i]@)
}

impl Editor {
    /// Whether the session is as every session is; see [`EditorView::wf`].
    pub open spec fn wf(&self) -> bool {
        self@.wf()
    }

    /// Whether the session is as every session is. Every session that
    /// [`Editor::new`] has made and that only the functions of this type have
    /// changed is.
    pub fn is_wf(&self) -> (r: bool)
        ensures
            r == self.wf(),
    {
        let len = self.buffer.len();
        self.vheight >= 1 && self.vwidth >= 1 && self.vleft >= 2 && self.width >= self.vleft
            && self.width - self.vleft == self.vwidth && self.height >= 2 && self.height - 2
            == self.vheight && self.cy < self.vheight && if len == 0 {
            self.vtop == 0 && self.cy == 0
        } else {
            self.vtop < len && self.cy < len - self.vtop
        }
    }

    /// The number of the line under the cursor, counted from one.
    pub fn line_number(&self) -> (r: usize)
        requires
            self.wf(),
        ensures
            r == self@.row() + 1,
    {
        proof {
            vstd::std_specs::vec::axiom_spec_len(&self.buffer);
        }
        self.by() + 1
    }

    /// The screen row of the command line: the last one.
    pub fn command_y(&self) -> (r: usize)
        requires
            self.wf(),
        ensures
            r == self.height - 1,
    {
        self.height - 1
    }

    /// The column of the cursor in the buffer.
    pub fn bx(&self) -> (r: usize)
        ensures
            r == self.cx,
    {
        self.cx
    }

    /// The row of the cursor in the buffer.
    pub fn by(&self) -> (r: usize)
        requires
            self.wf(),
        ensures
            r == self@.row(),
            r == 0 || r < self.buffer@.len(),
    {
        proof {
            vstd::std_specs::vec::axiom_spec_len(&self.buffer);
        }
        self.vtop + self.cy
    }

    /// The line under the cursor.
    pub fn line(&self) -> (r: Option<&String>)
        requires
            self.wf(),
        ensures
            match r {
                Some(s) => self@.has_line() && s@ == self@.line() && *s
                    == self.buffer@[self@.row() as int],
                None => !self@.has_line(),
            },
    {
        let y = self.by();
        if y < self.buffer.len() {
            Some(&self.buffer[y])
        } else {
            None
        }
    }

    /// The number of characters of the line under the cursor; nothing where
    /// there is no such line.
    pub fn current_line_len(&self) -> (r: usize)
        requires
            self.wf(),
        ensures
            r == self@.line().len(),
    {
        match self.line() {
            Some(s) => s.as_str().unicode_len(),
            None => 0,
        }
    }

    /// Whether keys act on the buffer: they do in normal and in insert mode.
    pub fn affects_buffer(&self) -> (r: bool)
        ensures
            r == self@.affects_buffer(),
    {
        match self.mode {
            Mode::Normal => true,
            Mode::Insert => true,
            Mode::Command => false,
        }
    }

    /// Whether the cursor stands behind the last character of its line.
    pub fn at_end_of_line(&self) -> (r: bool)
        requires
            self.wf(),
        ensures
            r == (self@.cx == self@.line().len()),
    {
        self.bx() == self.current_line_len()
    }

    /// Brings the cursor back to its line; see [`EditorView::adjust_cursor`].
    pub fn adjust_cursor(&mut self)
        requires
            old(self).wf(),
        ensures
            final(self)@ == old(self)@.adjust_cursor(),
            final(self).wf(),
            final(self).buffer == old(self).buffer,
            final(self)@.affects_buffer() ==> final(self)@.cx <= final(self)@.line().len(),
            final(self)@.mode == Mode::Normal && final(self)@.line().len() > 0 ==> final(self)@.cx
                < final(self)@.line().len(),
    {
        if !self.affects_buffer() {
            return ;
        }
        let max_x = self.current_line_len();
        if self.cx >= max_x {
            match self.mode {
                Mode::Normal => {
                    self.cx = if max_x > 0 {
                        max_x - 1
                    } else {
                        0
                    };
                },
                Mode::Insert => {
                    self.cx = max_x;
                },
                Mode::Command => {},
            }
        }
    }

    /// Puts the row under the cursor in the middle of the viewport; see
    /// [`EditorView::move_line_to_center`]. Says whether the viewport moved.
    pub fn move_line_to_center(&mut self) -> (r: bool)
        requires
            old(self).wf(),
        ensures
            final(self)@ == old(self)@.move_line_to_center(),
            final(self).wf(),
            final(self).buffer == old(self).buffer,
            final(self)@.row() == old(self)@.row(),
            r == old(self)@.scrolled_to(final(self)@),
    {
        let top = self.vtop;
        let y = self.cy;
        let center_y = self.vheight / 2;
        if y > center_y {
            let dist = y - center_y;
            let _ = self.by();
            self.vtop += dist;
            self.cy -= dist;
        } else {
            let dist = center_y - y;
            if self.vtop >= dist {
                self.vtop -= dist;
                self.cy += dist;
            } else {
                let dist = self.vtop;
                self.vtop = 0;
                self.cy += dist;
            }
        }
        self.vtop != top
    }

    /// Moves one row down; see [`EditorView::move_down`]. Says whether the
    /// viewport moved; where the cursor alone moved, or nothing, it did not.
    pub fn move_down(&mut self) -> (r: bool)
        requires
            old(self).wf(),
        ensures
            final(self)@ == old(self)@.move_down(),
            final(self).wf(),
            final(self).buffer == old(self).buffer,
            final(self)@.row() == if old(self)@.row() + 1 < old(self)@.lines.len() {
                old(self)@.row() + 1
            } else {
                old(self)@.row()
            },
            r == old(self)@.scrolled_to(final(self)@),
    {
        let top = self.vtop;
        let desired_cy = self.cy + 1;
        if self.buffer.len() - self.vtop > desired_cy {
            if desired_cy > self.vheight - 1 {
                self.vtop += 1;
            } else {
                self.cy = desired_cy;
            }
        }
        self.vtop != top
    }

    /// Moves one row up; see [`EditorView::move_up`]. Says whether the
    /// viewport moved; where the cursor alone moved, or nothing, it did not.
    pub fn move_up(&mut self) -> (r: bool)
        requires
            old(self).wf(),
        ensures
            final(self)@ == old(self)@.move_up(),
            final(self).wf(),
            final(self).buffer == old(self).buffer,
            final(self)@.row() == if old(self)@.row() > 0 {
                old(self)@.row() - 1
            } else {
                0
            },
            r == old(self)@.scrolled_to(final(self)@),
    {
        let top = self.vtop;
        if self.cy > 0 {
            self.cy -= 1;
        } else if self.vtop > 0 {
            self.vtop -= 1;
        }
        self.vtop != top
    }

    /// Moves one column to the right; see [`EditorView::move_right`]. The
    /// viewport stays, so nothing but the cursor is to be painted: `false`.
    pub fn move_right(&mut self) -> (r: bool)
        requires
            old(self).wf(),
        ensures
            final(self)@ == old(self)@.move_right(),
            final(self).wf(),
            final(self).buffer == old(self).buffer,
            r == old(self)@.scrolled_to(final(self)@),
            !r,
    {
        if self.cx < self.vwidth - 1 {
            if self.bx() < self.current_line_len() {
                self.cx += 1;
            }
        }
        false
    }

    /// Moves one column to the left; see [`EditorView::move_left`].
    pub fn move_left(&mut self) -> (r: bool)
        requires
            old(self).wf(),
        ensures
            final(self)@ == old(self)@.move_left(),
            final(self).wf(),
            final(self).buffer == old(self).buffer,
            r == old(self)@.scrolled_to(final(self)@),
            !r,
    {
        if self.cx > 0 {
            self.cx -= 1;
        }
        false
    }

    /// Moves onto the last character of the line.
    pub fn move_end_of_line(&mut self) -> (r: bool)
        requires
            old(self).wf(),
        ensures
            final(self)@ == old(self)@.move_end_of_line(),
            final(self).wf(),
            final(self).buffer == old(self).buffer,
            r == old(self)@.scrolled_to(final(self)@),
            !r,
    {
        let len = self.current_line_len();
        self.cx = if len > 0 {
            len - 1
        } else {
            0
        };
        false
    }

    /// Moves onto the first column.
    pub fn move_start_of_line(&mut self) -> (r: bool)
        requires
            old(self).wf(),
        ensures
            final(self)@ == old(self)@.move_start_of_line(),
            final(self).wf(),
            final(self).buffer == old(self).buffer,
            r == old(self)@.scrolled_to(final(self)@),
            !r,
    {
        self.cx = 0;
        false
    }

    /// Scrolls the viewport down; see [`EditorView::scroll_down`]. Says
    /// whether the viewport moved.
    pub fn scroll_down(&mut self) -> (r: bool)
        requires
            old(self).wf(),
        ensures
            final(self)@ == old(self)@.scroll_down(),
            final(self).wf(),
            final(self).buffer == old(self).buffer,
            r == old(self)@.scrolled_to(final(self)@),
    {
        let top = self.vtop;
        let n = self.config.mouse_scroll_lines as usize;
        let len = self.buffer.len();
        let _ = self.by();
        if len - self.vtop > n {
            self.vtop += n;
            self.cy = if self.cy >= n {
                self.cy - n
            } else {
                0
            };
        } else {
            self.vtop = if len >= self.vheight {
                len - self.vheight
            } else {
                0
            };
        }
        self.vtop != top
    }

    /// Scrolls the viewport up; see [`EditorView::scroll_up`]. Says whether
    /// the viewport moved.
    pub fn scroll_up(&mut self) -> (r: bool)
        requires
            old(self).wf(),
        ensures
            final(self)@ == old(self)@.scroll_up(),
            final(self).wf(),
            final(self).buffer == old(self).buffer,
            r == old(self)@.scrolled_to(final(self)@),
    {
        let top = self.vtop;
        if self.vtop == 0 {
            return false;
        }
        let n = self.config.mouse_scroll_lines as usize;
        if self.vtop >= n {
            self.vtop -= n;
            self.cy = if self.vheight - self.cy > n {
                self.cy + n
            } else {
                self.vheight - 1
            };
        } else {
            self.vtop = 0;
        }
        self.vtop != top
    }

    /// Puts the cursor at screen column `x`, screen row `y`; see
    /// [`EditorView::move_to`]. The viewport stays, so nothing but the cursor
    /// is to be painted: `false`.
    pub fn move_to(&mut self, x: usize, y: usize) -> (r: bool)
        requires
            old(self).wf(),
        ensures
            final(self)@ == old(self)@.move_to(x as nat, y as nat),
            final(self).wf(),
            final(self).buffer == old(self).buffer,
            final(self).vtop == old(self).vtop,
            r == old(self)@.scrolled_to(final(self)@),
            !r,
    {
        if y > self.vheight - 1 {
            return false;
        }
        let len = self.buffer.len();
        let _ = self.by();
        self.cx = if x >= self.vleft {
            x - self.vleft
        } else {
            0
        };
        self.cy = if len - self.vtop > y {
            y
        } else if len > 0 {
            len - 1 - self.vtop
        } else {
            0
        };
        let line_len = self.current_line_len();
        if self.cx > line_len {
            self.cx = if line_len > 0 {
                line_len - 1
            } else {
                0
            };
        }
        false
    }

    /// Shows the next page; see [`EditorView::move_to_next_page`]. Says whether
    /// the viewport moved.
    pub fn move_to_next_page(&mut self) -> (r: bool)
        requires
            old(self).wf(),
        ensures
            final(self)@ == old(self)@.move_to_next_page(),
            final(self).wf(),
            final(self).buffer == old(self).buffer,
            r == old(self)@.scrolled_to(final(self)@),
    {
        let top = self.vtop;
        let len = self.buffer.len();
        let _ = self.by();
        if len - self.vtop > self.vheight {
            self.vtop += self.vheight;
            let below = len - 1 - self.vtop;
            if self.cy > below {
                self.cy = below;
            }
        } else {
            self.vtop = if len >= self.vheight {
                len - self.vheight
            } else {
                0
            };
        }
        self.vtop != top
    }

    /// Shows the page before; see [`EditorView::move_to_previous_page`]. Says
    /// whether the viewport moved.
    pub fn move_to_previous_page(&mut self) -> (r: bool)
        requires
            old(self).wf(),
        ensures
            final(self)@ == old(self)@.move_to_previous_page(),
            final(self).wf(),
            final(self).buffer == old(self).buffer,
            r == old(self)@.scrolled_to(final(self)@),
    {
        let top = self.vtop;
        if self.vtop > self.vheight {
            self.vtop -= self.vheight;
        } else {
            self.vtop = 0;
        }
        self.vtop != top
    }

    /// Puts the cursor at the start of buffer row `line`; see
    /// [`EditorView::move_to_line`]. Says whether the viewport moved.
    pub fn move_to_line(&mut self, line: usize) -> (r: bool)
        requires
            old(self).wf(),
        ensures
            final(self)@ == old(self)@.move_to_line(line as nat),
            final(self).wf(),
            final(self).buffer == old(self).buffer,
            line < old(self).buffer@.len() ==> final(self)@.row() == line,
            r == old(self)@.scrolled_to(final(self)@),
    {
        let top = self.vtop;
        let len = self.buffer.len();
        self.vtop = if line < len {
            line
        } else if len > 0 {
            len - 1
        } else {
            0
        };
        self.cy = 0;
        self.move_to_start_of_line();
        self.vtop != top
    }

    /// Puts the cursor on the first column.
    pub fn move_to_start_of_line(&mut self)
        ensures
            final(self)@ == old(self)@.move_start_of_line(),
            final(self).buffer == old(self).buffer,
    {
        self.cx = 0;
    }

    /// Puts the cursor at the start of the first line. Says whether the
    /// viewport moved.
    pub fn move_to_start_of_buffer(&mut self) -> (r: bool)
        requires
            old(self).wf(),
        ensures
            final(self)@ == old(self)@.move_to_start_of_buffer(),
            final(self).wf(),
            final(self).buffer == old(self).buffer,
            final(self)@.row() == 0,
            r == old(self)@.scrolled_to(final(self)@),
    {
        let top = self.vtop;
        self.vtop = 0;
        self.cy = 0;
        self.move_to_start_of_line();
        self.vtop != top
    }

    /// Shows the end of the buffer and puts the cursor on the last line. Says
    /// whether the viewport moved.
    pub fn move_to_end_of_buffer(&mut self) -> (r: bool)
        requires
            old(self).wf(),
        ensures
            final(self)@ == old(self)@.move_to_end_of_buffer(),
            final(self).wf(),
            final(self).buffer == old(self).buffer,
            final(self)@.row() + 1 == old(self)@.lines.len() || old(self)@.lines.len() == 0,
            r == old(self)@.scrolled_to(final(self)@),
    {
        let top = self.vtop;
        let len = self.buffer.len();
        self.vtop = if len >= self.vheight {
            len - self.vheight
        } else {
            0
        };
        self.cy = 0;
        self.move_to_end_of_viewport();
        self.vtop != top
    }

    /// Puts the cursor on the last row of the viewport that shows a line.
    pub fn move_to_end_of_viewport(&mut self)
        requires
            old(self).wf(),
        ensures
            final(self)@ == old(self)@.move_to_end_of_viewport(),
            final(self).wf(),
            final(self).buffer == old(self).buffer,
    {
        let len = self.buffer.len();
        let _ = self.by();
        let shown = if len - self.vtop > self.vheight {
            self.vheight
        } else {
            len - self.vtop
        };
        self.cy = if shown > 0 {
            shown - 1
        } else {
            0
        };
    }

    /// Moves to the next word; see [`EditorView::move_to_next_word`].
    pub fn move_to_next_word(&mut self) -> (r: bool)
        requires
            old(self).wf(),
        ensures
            final(self)@ == old(self)@.move_to_next_word(),
            final(self).wf(),
            final(self).buffer == old(self).buffer,
            r == old(self)@.scrolled_to(final(self)@),
            !r,
    {
        let y = self.by();
        if y < self.buffer.len() {
            let chars = chars_of(self.buffer[y].as_str());
            let n = chars.len();
            let ghost line = self@.line();
            let mut i: usize = self.cx;
            while i < n && !is_whitespace(chars[i])
                invariant
                    chars@ == line,
                    n == line.len(),
                    self.cx <= i,
                    next_space(line, self.cx as nat) == next_space(line, i as nat),
                decreases n - i,
            {
                i = i + 1;
            }
            if i < n {
                self.cx = i + 1;
            } else {
                self.cx = if n > 0 {
                    n - 1
                } else {
                    0
                };
            }
        }
        false
    }

    /// Moves to the word before; see [`EditorView::move_to_previous_word`].
    /// The viewport stays, so nothing but the cursor is to be painted:
    /// `false`.
    pub fn move_to_previous_word(&mut self) -> (r: bool)
        requires
            old(self).wf(),
        ensures
            final(self)@ == old(self)@.move_to_previous_word(),
            final(self).wf(),
            final(self).buffer == old(self).buffer,
            r == old(self)@.scrolled_to(final(self)@),
            !r,
    {
        let y = self.by();
        if y < self.buffer.len() {
            let chars = chars_of(self.buffer[y].as_str());
            let n = chars.len();
            let ghost line = self@.line();
            let x = if self.cx < n {
                self.cx
            } else {
                n
            };
            // `i` is one more than the column that is looked at next
            let mut i: usize = if x >= 2 {
                x - 1
            } else {
                0
            };
            while i > 0 && !is_whitespace(chars[i - 1])
                invariant
                    chars@ == line,
                    n == line.len(),
                    i <= n,
                    prev_space(line, x - 2) == prev_space(line, i - 1),
                decreases i,
            {
                i = i - 1;
            }
            self.cx = i;
        }
        false
    }

    /// Puts an empty line into an empty buffer; see [`EditorView::with_line`].
    fn ensure_line(&mut self)
        requires
            old(self).wf(),
        ensures
            final(self)@ == old(self)@.with_line(),
            final(self).wf(),
            final(self)@.has_line(),
    {
        if self.buffer.len() == 0 {
            self.buffer.push(String::new());
            proof {
                assert(self@.lines =~= seq![Seq::<char>::empty()]);
            }
        }
    }

    /// Puts an empty line in at the row under the cursor; see
    /// [`EditorView::insert_line`].
    pub fn insert_line(&mut self)
        requires
            old(self).wf(),
        ensures
            final(self)@ == old(self)@.insert_line(),
            final(self).wf(),
            ({
                let before = old(self)@;
                final(self)@.text() == if before.lines.len() > 0 {
                    before.text().insert(before.place(0), '\n')
                } else {
                    before.text()
                }
            }),
    {
        proof {
            lemma_insert_line_text(self@);
        }
        let y = self.by();
        self.buffer.insert(y, String::new());
        proof {
            assert(self@.lines =~= old(self)@.lines.insert(y as int, Seq::<char>::empty()));
        }
    }

    /// Puts `c` into the line under the cursor; see
    /// [`EditorView::insert_char`].
    pub fn insert_char(&mut self, c: char)
        requires
            old(self).wf(),
        ensures
            final(self)@ == old(self)@.insert_char(c),
            final(self).wf(),
            ({
                let before = old(self)@;
                final(self)@.text() == before.text().insert(before.place(before.col()), c)
            }),
    {
        proof {
            lemma_insert_char_text(self@, c);
        }
        self.ensure_line();
        let y = self.by();
        let len = self.current_line_len();
        let x = if self.cx < len {
            self.cx
        } else {
            len
        };
        let ghost before = self@;
        let line = insert_at(self.buffer[y].as_str(), x, c);
        self.buffer[y] = line;
        proof {
            assert(self@.lines =~= before.lines.update(
                y as int,
                before.line().insert(x as int, c),
            ));
        }
    }

    /// Takes the character before the cursor out of its line; see
    /// [`EditorView::remove_char`].
    pub fn remove_char(&mut self)
        requires
            old(self).wf(),
        ensures
            final(self)@ == old(self)@.remove_char(),
            final(self).wf(),
            ({
                let before = old(self)@;
                final(self)@.text() == if before.has_line() && 0 < before.cx
                    <= before.line().len() {
                    before.text().remove(before.place((before.cx - 1) as nat))
                } else {
                    before.text()
                }
            }),
    {
        proof {
            lemma_remove_char_text(self@);
        }
        let x = self.bx();
        let y = self.by();
        if x > 0 && x <= self.current_line_len() {
            let line = remove_at(self.buffer[y].as_str(), x - 1);
            self.buffer[y] = line;
            proof {
                assert(self@.lines =~= old(self)@.lines.update(
                    y as int,
                    old(self)@.line().remove(x - 1),
                ));
            }
        }
    }

    /// Takes the character under the cursor out of its line; see
    /// [`EditorView::remove_char_at_cursor`].
    pub fn remove_char_at_cursor(&mut self)
        requires
            old(self).wf(),
        ensures
            final(self)@ == old(self)@.remove_char_at_cursor(),
            final(self).wf(),
            ({
                let before = old(self)@;
                final(self)@.text() == if before.has_line() && before.cx < before.line().len() {
                    before.text().remove(before.place(before.cx))
                } else {
                    before.text()
                }
            }),
    {
        proof {
            lemma_remove_char_at_cursor_text(self@);
        }
        let x = self.bx();
        let y = self.by();
        if x < self.current_line_len() {
            let line = remove_at(self.buffer[y].as_str(), x);
            self.buffer[y] = line;
            proof {
                assert(self@.lines =~= old(self)@.lines.update(
                    y as int,
                    old(self)@.line().remove(x as int),
                ));
            }
        }
    }

    /// Cuts the line under the cursor in two at the cursor; see
    /// [`EditorView::split_line_at_cursor`].
    pub fn split_line_at_cursor(&mut self)
        requires
            old(self).wf(),
        ensures
            final(self)@ == old(self)@.split_line_at_cursor(),
            final(self).wf(),
            final(self)@.row() == old(self)@.row() + 1,
            final(self)@.cx == 0,
            ({
                let before = old(self)@;
                final(self)@.text() == before.text().insert(before.place(before.col()), '\n')
            }),
    {
        proof {
            lemma_split_line_text(self@);
        }
        self.ensure_line();
        let y = self.by();
        let len = self.current_line_len();
        let x = if self.cx < len {
            self.cx
        } else {
            len
        };
        let ghost before = self@;
        let (left, right) = cut_at(self.buffer[y].as_str(), x);
        proof {
            vstd::std_specs::vec::axiom_spec_len(&self.buffer);
        }
        self.buffer[y] = left;
        self.buffer.insert(y + 1, right);
        self.cx = 0;
        proof {
            assert(self@.lines =~= before.lines.update(
                y as int,
                before.line().take(x as int),
            ).insert(y + 1, before.line().skip(x as int)));
        }
        self.move_down();
    }

    /// Hangs the line below onto the line under the cursor; see
    /// [`EditorView::join_with_next_line`].
    pub fn join_with_next_line(&mut self)
        requires
            old(self).wf(),
        ensures
            final(self)@ == old(self)@.join_with_next_line(),
            final(self).wf(),
            ({
                let before = old(self)@;
                final(self)@.text() == if before.row() + 1 < before.lines.len() {
                    before.text().update(before.place(before.line().len()), ' ')
                } else {
                    before.text()
                }
            }),
    {
        proof {
            lemma_join_lines_text(self@);
        }
        let y = self.by();
        if self.buffer.len() - y > 1 {
            let line = glue(self.buffer[y].as_str(), ' ', self.buffer[y + 1].as_str());
            self.buffer[y] = line;
            self.buffer.remove(y + 1);
            proof {
                assert(self@.lines =~= old(self)@.lines.update(
                    y as int,
                    old(self)@.line().push(' ') + old(self)@.lines[y + 1],
                ).remove(y + 1));
            }
        }
    }

    /// Takes the line under the cursor out of the buffer; see
    /// [`EditorView::delete_current_line`].
    pub fn delete_current_line(&mut self)
        requires
            old(self).wf(),
        ensures
            final(self)@ == old(self)@.delete_current_line(),
            final(self).wf(),
            ({
                let before = old(self)@;
                let text = before.text();
                final(self)@.text() == if !before.has_line() {
                    text
                } else if before.row() + 1 < before.lines.len() {
                    text.take(before.place(0)) + text.skip(before.place(before.line().len()) + 1)
                } else if before.row() > 0 {
                    text.take(before.place(0) - 1)
                } else {
                    Seq::<char>::empty()
                }
            }),
    {
        proof {
            if self@.has_line() {
                lemma_delete_line_text(self@);
            }
        }
        let y = self.by();
        let len = self.buffer.len();
        if y < len {
            self.buffer.remove(y);
            proof {
                assert(self@.lines =~= old(self)@.lines.remove(y as int));
            }
            if y + 1 == len {
                if self.cy > 0 {
                    self.cy -= 1;
                } else if self.vtop > 0 {
                    self.vtop -= 1;
                }
            }
        }
    }

    /// Takes the new size of the terminal; see [`EditorView::resize`]. Says
    /// whether the size holds a viewport.
    pub fn resize(&mut self, width: usize, height: usize) -> (r: bool)
        requires
            old(self).wf(),
        ensures
            final(self)@ == old(self)@.resize(width as nat, height as nat),
            final(self).wf(),
            final(self).buffer == old(self).buffer,
            final(self)@.row() == old(self)@.row(),
            r == EditorView::fits(old(self)@.vleft, width as nat, height as nat),
    {
        if width > self.vleft && height > 2 {
            let _ = self.by();
            let vheight = height - 2;
            self.width = width;
            self.height = height;
            self.vwidth = width - self.vleft;
            self.vheight = vheight;
            if self.cy >= vheight {
                let down = self.cy - (vheight - 1);
                self.cy = vheight - 1;
                self.vtop += down;
            }
            true
        } else {
            false
        }
    }

    /// Acts on what the command line gave; see
    /// [`EditorView::handle_command`].
    pub fn handle_command(&mut self, cmd: Option<&str>)
        requires
            old(self).wf(),
        ensures
            final(self)@ == old(self)@.handle_command(
                match cmd {
                    Some(c) => Some(c@),
                    None => None,
                },
            ),
            final(self).wf(),
            final(self).buffer == old(self).buffer,
            final(self).mode == Mode::Normal,
    {
        self.mode = Mode::Normal;
        self.pending_redraw = true;
        if let Some(cmd) = cmd {
            proof {
                reveal_strlit("q");
                reveal_strlit("$");
                assert("q"@ =~= seq!['q']);
                assert("$"@ =~= seq!['$']);
            }
            if str_eq(cmd, "q") {
                self.quit = true;
            } else if str_eq(cmd, "$") {
                self.move_to_end_of_buffer();
            } else {
                match parse_decimal(cmd) {
                    Some(line) => {
                        if line == 0 {
                            self.move_to_start_of_buffer();
                        } else if line <= self.buffer.len() {
                            self.move_to_line(line - 1);
                        }
                    },
                    None => {
                        proof {
                            vstd::std_specs::vec::axiom_spec_len(&self.buffer);
                        }
                    },
                }
            }
        }
    }

    /// Acts on an input in normal mode and says whether the whole screen is
    /// to be painted; see [`EditorView::on_normal_input`].
    pub fn handle_normal_input(&mut self, ev: Input) -> (r: bool)
        requires
            old(self).wf(),
        ensures
            (final(self)@, r) == old(self)@.on_normal_input(ev),
            final(self).wf(),
    {
        match ev {
            Input::Mouse { kind, column, row } => match kind {
                MouseKind::LeftDown => self.move_to(column, row),
                MouseKind::ScrollUp => self.scroll_up(),
                MouseKind::ScrollDown => self.scroll_down(),
                _ => false,
            },
            Input::Key { key, ctrl } => {
                if let Some(w) = self.waiting_key {
                    self.waiting_key = None;
                    match key {
                        Key::Char(c) => {
                            if c == w && c == 'g' {
                                self.move_to_start_of_buffer()
                            } else if c == w && c == 'd' {
                                self.delete_current_line();
                                true
                            } else if c == w && c == 'z' {
                                self.move_line_to_center()
                            } else {
                                false
                            }
                        },
                        _ => false,
                    }
                } else {
                    match key {
                        Key::Char(c) => self.handle_normal_char(c, ctrl),
                        Key::Down => self.move_down(),
                        Key::Up => self.move_up(),
                        Key::Left => self.move_left(),
                        Key::Right => self.move_right(),
                        Key::Esc => {
                            self.mode = Mode::Normal;
                            false
                        },
                        _ => false,
                    }
                }
            },
            _ => false,
        }
    }

    /// Acts on a character key in normal mode, no key being awaited; see
    /// [`EditorView::on_normal_char`].
    fn handle_normal_char(&mut self, c: char, ctrl: bool) -> (r: bool)
        requires
            old(self).wf(),
        ensures
            (final(self)@, r) == old(self)@.on_normal_char(c, ctrl),
            final(self).wf(),
    {
        match c {
            'G' => self.move_to_end_of_buffer(),
            'g' | 'd' | 'z' => {
                self.waiting_key = Some(c);
                false
            },
            'f' => {
                if ctrl {
                    self.move_to_next_page()
                } else {
                    false
                }
            },
            'b' => {
                if ctrl {
                    self.move_to_previous_page()
                } else {
                    self.move_to_previous_word()
                }
            },
            'q' => {
                self.quit = true;
                false
            },
            'i' => {
                self.mode = Mode::Insert;
                false
            },
            'a' => {
                self.move_right();
                self.mode = Mode::Insert;
                false
            },
            ':' | ';' => {
                self.mode = Mode::Command;
                true
            },
            'o' => {
                self.move_down();
                self.insert_line();
                self.mode = Mode::Insert;
                true
            },
            'O' => {
                self.insert_line();
                self.mode = Mode::Insert;
                true
            },
            'x' => {
                let there = self.line().is_some();
                self.remove_char_at_cursor();
                there
            },
            'J' => {
                let there = self.line().is_some();
                self.join_with_next_line();
                there
            },
            'j' => self.move_down(),
            'k' => self.move_up(),
            'h' => self.move_left(),
            'l' => self.move_right(),
            '$' => self.move_end_of_line(),
            '0' => self.move_start_of_line(),
            'w' => self.move_to_next_word(),
            _ => false,
        }
    }

    /// Acts on an input in insert mode; see [`EditorView::on_insert_input`].
    /// The whole screen is to be painted afterwards: `true`.
    pub fn handle_insert_input(&mut self, ev: Input) -> (r: bool)
        requires
            old(self).wf(),
        ensures
            final(self)@ == old(self)@.on_insert_input(ev),
            final(self).wf(),
            r,
    {
        match ev {
            Input::Key { key, ctrl } => match key {
                Key::Char(c) => {
                    self.insert_char(c);
                    self.move_right();
                },
                Key::Esc => {
                    self.mode = Mode::Normal;
                },
                Key::Left => {
                    self.move_left();
                },
                Key::Backspace => {
                    self.remove_char();
                    self.move_left();
                },
                Key::Delete => {
                    self.remove_char();
                },
                Key::Enter => {
                    self.split_line_at_cursor();
                },
                Key::Tab => {
                    let n = self.config.tab_size;
                    let mut i: u8 = 0;
                    while i < n
                        invariant
                            i <= n,
                            self.wf(),
                            self@.insert_spaces((n - i) as nat) == old(self)@.insert_spaces(
                                n as nat,
                            ),
                        decreases n - i,
                    {
                        self.insert_char(' ');
                        self.move_right();
                        i = i + 1;
                    }
                },
                _ => {},
            },
            _ => {},
        }
        true
    }

    /// Acts on an input that is taken in every mode, and says whether the
    /// input was one; see [`EditorView::on_event`].
    pub fn handle_events(&mut self, ev: Input) -> (r: bool)
        requires
            old(self).wf(),
        ensures
            (final(self)@, r) == old(self)@.on_event(ev),
            final(self).wf(),
            final(self).buffer == old(self).buffer,
    {
        match ev {
            Input::Resize { width, height } => {
                self.resize(width, height);
                true
            },
            _ => false,
        }
    }

    /// Acts on an input and says whether the whole screen is to be painted;
    /// see [`EditorView::on_input`].
    pub fn handle_input(&mut self, ev: Input) -> (r: bool)
        requires
            old(self).wf(),
        ensures
            (final(self)@, r) == old(self)@.on_input(ev),
            final(self).wf(),
    {
        if self.handle_events(ev) {
            return true;
        }
        match self.mode {
            Mode::Normal => self.handle_normal_input(ev),
            Mode::Insert => self.handle_insert_input(ev),
            Mode::Command => true,
        }
    }

    /// Settles what is to be painted; see [`EditorView::draw`]. Says whether
    /// it is the whole screen, as it is where `redraw` asks for it or a
    /// repaint was pending, or the cursor alone.
    pub fn draw(&mut self, redraw: bool) -> (r: bool)
        requires
            old(self).wf(),
        ensures
            final(self)@ == old(self)@.draw(redraw),
            final(self).wf(),
            final(self).buffer == old(self).buffer,
            r == (redraw || old(self).pending_redraw),
            !final(self).pending_redraw || !r,
    {
        if redraw || self.pending_redraw {
            self.pending_redraw = false;
            self.adjust_cursor();
            true
        } else {
            false
        }
    }

    /// The session at its start; see [`EditorView::start`]. `file` is the
    /// name and the contents of the file that is edited, if one is.
    pub fn new(theme: Theme, file: Option<(String, String)>, width: usize, height: usize) -> (r:
        Editor)
        requires
            EditorView::fits(GUTTER_WIDTH as nat, width as nat, height as nat),
        ensures
            r@ == EditorView::start(
                theme,
                match file {
                    Some((name, contents)) => Some((name@, contents@)),
                    None => None,
                },
                width as nat,
                height as nat,
            ),
            r.wf(),
    {
        let (buffer, name) = match file {
            Some((name, contents)) => (lines_of(contents.as_str()), name),
            None => {
                let mut buffer: Vec<String> = Vec::new();
                buffer.push(String::new());
                proof {
                    assert(string_views(buffer@) =~= seq![Seq::<char>::empty()]);
                }
                (buffer, String::from_str("No Name"))
            },
        };
        Editor {
            theme,
            config: Config::default(),
            mode: Mode::Normal,
            buffer,
            name,
            width,
            height,
            cx: 0,
            cy: 0,
            vleft: GUTTER_WIDTH,
            vtop: 0,
            vwidth: width - GUTTER_WIDTH,
            vheight: height - 2,
            waiting_key: None,
            pending_redraw: false,
            quit: false,
        }
    }

    /// The viewport of the session: the rows from `vtop` on, as many as the
    /// viewport is high, painted from screen column `vleft` on.
    pub fn viewport(&self) -> (r: Viewport)
        ensures
            r.top == self.vtop,
            r.left == self.vleft,
            r.width == self.vwidth,
            r.height == self.vheight,
    {
        Viewport::new(self.vtop, self.vleft, self.vwidth, self.vheight)
    }

    /// Where and how the cursor is painted; see [`EditorView::cursor`].
    pub fn cursor(&self) -> (r: Cursor)
        ensures
            r == self@.cursor(),
    {
        if !self.affects_buffer() {
            return Cursor::Hidden;
        }
        let limit: usize = 65535;
        if self.vleft <= limit && self.cx <= limit - self.vleft && self.cy <= limit {
            Cursor::At {
                x: (self.vleft + self.cx) as u16,
                y: self.cy as u16,
                shape: match self.mode {
                    Mode::Insert => CursorShape::Bar,
                    _ => CursorShape::Block,
                },
            }
        } else {
            Cursor::OutOfReach
        }
    }

    /// The texts of the status line; see [`EditorView::statusline`].
    pub fn statusline(&self) -> (r: StatusLine)
        requires
            self.wf(),
        ensures
            r@ == self@.statusline(),
    {
        let mode = match self.mode {
            Mode::Normal => String::from_str(" NORMAL "),
            Mode::Insert => String::from_str(" INSERT "),
            Mode::Command => String::from_str(" COMMAND "),
        };
        let mut position = String::from_str(" ");
        position.append(decimal(self.by()).as_str());
        position.append(":");
        position.append(decimal(self.cx).as_str());
        position.append(" ");
        let mut file = String::from_str(" ");
        file.append(self.name.as_str());
        file.append(" ");
        proof {
            reveal_strlit(" ");
            reveal_strlit(":");
            assert(" "@ =~= seq![' ']);
            assert(":"@ =~= seq![':']);
            assert(position@ =~= self@.position_label());
            assert(file@ =~= seq![' '] + self.name@ + seq![' ']);
        }
        let len = position.as_str().unicode_len();
        let position_x = if len < self.width {
            self.width - len - 1
        } else {
            0
        };
        StatusLine { y: self.height - 2, mode, file, position, position_x }
    }

    /// The rows of the gutter, one for each row of the viewport; see
    /// [`EditorView::gutter_row`].
    pub fn gutter(&self) -> (r: Vec<GutterRow>)
        requires
            self.wf(),
        ensures
            r@.len() == self.vheight,
            forall|y: int|
                0 <= y < self.vheight ==> (#[trigger] r@[y])@ == self@.gutter_row(y as nat),
    {
        let width = self.vleft - 2;
        let len = self.buffer.len();
        let _ = self.by();
        let mut rows: Vec<GutterRow> = Vec::new();
        let mut y: usize = 0;
        while y < self.vheight
            invariant
                y <= self.vheight,
                self.wf(),
                width == self.vleft - 2,
                len == self.buffer@.len(),
                self.vtop <= len,
                rows@.len() == y,
                forall|k: int| 0 <= k < y ==> (#[trigger] rows@[k])@ == self@.gutter_row(k as nat),
            decreases self.vheight - y,
        {
            let row = if len - self.vtop > y {
                let number = decimal(self.vtop + y + 1);
                GutterRow {
                    text: pad_left(number.as_str(), width),
                    numbered: true,
                    current: y == self.cy,
                }
            } else {
                GutterRow { text: blank(self.vleft), numbered: false, current: y == self.cy }
            };
            rows.push(row);
            y = y + 1;
        }
        rows
    }
}

} // verus!
