//! What each edit does to the text as a whole.
//!
//! The text of a session is its lines with a line feed between each two
//! neighbours. Every edit changes it in one place: typing puts one character
//! in, deleting takes one out, splitting a line puts a line feed in, joining
//! two lines turns a line feed into a space, and deleting a line takes the
//! line out with one line feed. Nothing else of the text changes.

use crate::editor::{EditorView, Input, Key, Mode};
use crate::text::{join, join_front, lemma_join_last};
use vstd::prelude::*;

verus! {

/// The lines, each with a line feed before it.
pub open spec fn led(lines: Seq<Seq<char>>) -> Seq<char>
    decreases lines.len(),
{
    if lines.len() == 0 {
        Seq::<char>::empty()
    } else {
        led(lines.drop_last()).push('\n') + lines.last()
    }
}

/// The text that stands before line `row`: the lines above it, each with a
/// line feed behind it. Nothing stands before a line that is not there.
pub open spec fn before(lines: Seq<Seq<char>>, row: int) -> Seq<char> {
    if 0 <= row < lines.len() {
        join_front(lines.take(row + 1), '\n')
    } else {
        Seq::<char>::empty()
    }
}

/// The text that stands behind line `row`: the lines below it, each with a
/// line feed before it.
pub open spec fn behind(lines: Seq<Seq<char>>, row: int) -> Seq<char> {
    led(lines.skip(row + 1))
}

impl EditorView {
    /// The place in the text of column `col` of the line under the cursor.
    pub open spec fn place(self, col: nat) -> int {
        (before(self.lines, self.row() as int).len() + col) as int
    }
}

/// A text is what stands before a line, the line, and what stands behind it.
pub proof fn lemma_text_around(lines: Seq<Seq<char>>, row: int)
    requires
        0 <= row < lines.len(),
    ensures
        join(lines, '\n') == before(lines, row) + lines[row] + behind(lines, row),
    decreases lines.len(),
{
    if row == lines.len() - 1 {
        assert(lines.take(row + 1) =~= lines);
        assert(lines.skip(row + 1) =~= Seq::<Seq<char>>::empty());
        lemma_join_last(lines, '\n');
        assert(before(lines, row) + lines[row] + behind(lines, row) =~= before(lines, row)
            + lines[row]);
    } else {
        let front = lines.drop_last();
        lemma_text_around(front, row);
        assert(front.take(row + 1) =~= lines.take(row + 1));
        assert(lines.skip(row + 1).drop_last() =~= front.skip(row + 1));
        assert(lines.skip(row + 1).last() == lines.last());
        assert(join(lines, '\n') =~= before(lines, row) + lines[row] + behind(lines, row));
    }
}

/// What stands behind a line begins with a line feed and the next line.
pub proof fn lemma_led_first(lines: Seq<Seq<char>>)
    requires
        lines.len() >= 1,
    ensures
        led(lines) == seq!['\n'] + lines[0] + led(lines.drop_first()),
    decreases lines.len(),
{
    if lines.len() == 1 {
        assert(lines.drop_last() =~= Seq::<Seq<char>>::empty());
        assert(lines.drop_first() =~= Seq::<Seq<char>>::empty());
        assert(led(lines) =~= seq!['\n'] + lines[0] + led(lines.drop_first()));
    } else {
        let front = lines.drop_last();
        lemma_led_first(front);
        assert(front.drop_first() =~= lines.drop_first().drop_last());
        assert(lines.drop_first().last() == lines.last());
        assert(led(lines) =~= seq!['\n'] + lines[0] + led(lines.drop_first()));
    }
}

/// The text of a buffer in which one line has been changed.
pub proof fn lemma_text_update(lines: Seq<Seq<char>>, row: int, line: Seq<char>)
    requires
        0 <= row < lines.len(),
    ensures
        join(lines.update(row, line), '\n') == before(lines, row) + line + behind(lines, row),
{
    let changed = lines.update(row, line);
    lemma_text_around(changed, row);
    assert(changed.take(row + 1).drop_last() =~= lines.take(row + 1).drop_last());
    assert(changed.skip(row + 1) =~= lines.skip(row + 1));
}

/// An empty buffer and a buffer of one empty line have the same text: none.
pub proof fn lemma_with_line_text(v: EditorView)
    requires
        v.wf(),
    ensures
        v.with_line().text() == v.text(),
        v.with_line().wf(),
        v.with_line().has_line(),
        v.with_line().place(0) == v.place(0),
{
    if v.lines.len() == 0 {
        let one = seq![Seq::<char>::empty()];
        assert(join(one, '\n') =~= Seq::<char>::empty());
        assert(one.take(1) =~= one);
    }
}

/// Typing a character puts it into the text at the place of the cursor, and
/// changes nothing else.
pub proof fn lemma_insert_char_text(v: EditorView, c: char)
    requires
        v.wf(),
    ensures
        v.insert_char(c).text() == v.text().insert(v.place(v.col()), c),
{
    lemma_with_line_text(v);
    let s = v.with_line();
    let row = s.row() as int;
    let col = s.col() as int;
    lemma_text_around(s.lines, row);
    lemma_text_update(s.lines, row, s.line().insert(col, c));
    let a = before(s.lines, row);
    let b = behind(s.lines, row);
    assert(a + s.line().insert(col, c) + b =~= (a + s.line() + b).insert(a.len() + col, c));
    if v.lines.len() == 0 {
        assert(v.line() =~= Seq::<char>::empty());
    }
}

/// Deleting the character before the cursor takes it out of the text, and
/// changes nothing else; on the first column nothing changes.
pub proof fn lemma_remove_char_text(v: EditorView)
    requires
        v.wf(),
    ensures
        v.remove_char().text() == if v.has_line() && 0 < v.cx <= v.line().len() {
            v.text().remove(v.place((v.cx - 1) as nat))
        } else {
            v.text()
        },
{
    if v.has_line() && 0 < v.cx <= v.line().len() {
        let row = v.row() as int;
        let col = v.cx - 1;
        lemma_text_around(v.lines, row);
        lemma_text_update(v.lines, row, v.line().remove(col));
        let a = before(v.lines, row);
        let b = behind(v.lines, row);
        assert(a + v.line().remove(col) + b =~= (a + v.line() + b).remove(a.len() + col));
    }
}

/// Deleting the character under the cursor takes it out of the text, and
/// changes nothing else; behind the end of the line nothing changes.
pub proof fn lemma_remove_char_at_cursor_text(v: EditorView)
    requires
        v.wf(),
    ensures
        v.remove_char_at_cursor().text() == if v.has_line() && v.cx < v.line().len() {
            v.text().remove(v.place(v.cx))
        } else {
            v.text()
        },
{
    if v.has_line() && v.cx < v.line().len() {
        let row = v.row() as int;
        let col = v.cx as int;
        lemma_text_around(v.lines, row);
        lemma_text_update(v.lines, row, v.line().remove(col));
        let a = before(v.lines, row);
        let b = behind(v.lines, row);
        assert(a + v.line().remove(col) + b =~= (a + v.line() + b).remove(a.len() + col));
    }
}

/// Splitting a line puts a line feed into the text at the place of the
/// cursor, and changes nothing else.
pub proof fn lemma_split_line_text(v: EditorView)
    requires
        v.wf(),
    ensures
        v.split_line_at_cursor().text() == v.text().insert(v.place(v.col()), '\n'),
{
    lemma_with_line_text(v);
    let s = v.with_line();
    let row = s.row() as int;
    let col = s.col() as int;
    let left = s.line().take(col);
    let right = s.line().skip(col);
    let cut = s.lines.update(row, left).insert(row + 1, right);
    lemma_text_around(s.lines, row);
    lemma_text_around(cut, row);
    let a = before(s.lines, row);
    let b = behind(s.lines, row);
    assert(cut.take(row + 1).drop_last() =~= s.lines.take(row + 1).drop_last());
    assert(cut[row] == left);
    lemma_led_first(cut.skip(row + 1));
    assert(cut.skip(row + 1)[0] == right);
    assert(cut.skip(row + 1).drop_first() =~= s.lines.skip(row + 1));
    assert(a + left + (seq!['\n'] + right + b) =~= (a + s.line() + b).insert(a.len() + col, '\n'));
    if v.lines.len() == 0 {
        assert(v.line() =~= Seq::<char>::empty());
    }
}

/// Joining a line with the next turns the line feed between them into a
/// space, and changes nothing else; on the last line nothing changes.
pub proof fn lemma_join_lines_text(v: EditorView)
    requires
        v.wf(),
    ensures
        v.join_with_next_line().text() == if v.row() + 1 < v.lines.len() {
            v.text().update(v.place(v.line().len()), ' ')
        } else {
            v.text()
        },
        v.row() + 1 < v.lines.len() ==> v.text()[v.place(v.line().len())] == '\n',
{
    let row = v.row() as int;
    if row + 1 < v.lines.len() {
        let next = v.lines[row + 1];
        let joined = v.lines.update(row, v.line().push(' ') + next).remove(row + 1);
        lemma_text_around(v.lines, row);
        lemma_text_around(joined, row);
        let a = before(v.lines, row);
        lemma_led_first(v.lines.skip(row + 1));
        assert(v.lines.skip(row + 1)[0] == next);
        assert(v.lines.skip(row + 1).drop_first() =~= joined.skip(row + 1));
        assert(joined.take(row + 1).drop_last() =~= v.lines.take(row + 1).drop_last());
        let b = behind(joined, row);
        let whole = a + v.line() + (seq!['\n'] + next + b);
        assert(a + (v.line().push(' ') + next) + b =~= whole.update(
            (a.len() + v.line().len()) as int,
            ' ',
        ));
        assert((a + v.line() + (seq!['\n'] + next + b))[(a.len() + v.line().len()) as int] == '\n');
    }
}

/// Deleting a line takes it out of the text together with one line feed: the
/// one behind it, or the one before it where it is the last line. Where it
/// is the only line, the text is empty afterwards.
pub proof fn lemma_delete_line_text(v: EditorView)
    requires
        v.wf(),
        v.has_line(),
    ensures
        v.delete_current_line().text() == if v.row() + 1 < v.lines.len() {
            v.text().take(v.place(0)) + v.text().skip(v.place(v.line().len()) + 1)
        } else if v.row() > 0 {
            v.text().take(v.place(0) - 1)
        } else {
            Seq::<char>::empty()
        },
{
    let row = v.row() as int;
    let gone = v.lines.remove(row);
    lemma_text_around(v.lines, row);
    let a = before(v.lines, row);
    if row + 1 < v.lines.len() {
        let next = v.lines[row + 1];
        lemma_text_around(gone, row);
        lemma_led_first(v.lines.skip(row + 1));
        assert(v.lines.skip(row + 1)[0] == next);
        assert(v.lines.skip(row + 1).drop_first() =~= gone.skip(row + 1));
        assert(gone.take(row + 1).drop_last() =~= v.lines.take(row + 1).drop_last());
        let b = behind(gone, row);
        let whole = a + v.line() + (seq!['\n'] + next + b);
        assert(a + next + b =~= whole.take(a.len() as int) + whole.skip(
            (a.len() + v.line().len() + 1) as int,
        ));
    } else {
        assert(v.lines.take(row + 1) =~= v.lines);
        assert(gone =~= v.lines.drop_last());
        assert(v.lines.skip(row + 1) =~= Seq::<Seq<char>>::empty());
        if row > 0 {
            let whole = a + v.line() + behind(v.lines, row);
            assert(join(gone, '\n') =~= whole.take(a.len() - 1));
        } else {
            assert(join(gone, '\n') =~= Seq::<char>::empty());
        }
    }
    assert(v.delete_current_line().lines == gone);
}

/// Opening a line at the cursor's row puts a line feed into the text before
/// the line that was there. An empty buffer gets an empty line, and its
/// text stays empty.
pub proof fn lemma_insert_line_text(v: EditorView)
    requires
        v.wf(),
    ensures
        v.insert_line().text() == if v.lines.len() > 0 {
            v.text().insert(v.place(0), '\n')
        } else {
            v.text()
        },
{
    let row = v.row() as int;
    let opened = v.lines.insert(row, Seq::<char>::empty());
    if v.lines.len() > 0 {
        lemma_text_around(v.lines, row);
        lemma_text_around(opened, row);
        let a = before(v.lines, row);
        let b = behind(v.lines, row);
        assert(opened.take(row + 1).drop_last() =~= v.lines.take(row + 1).drop_last());
        lemma_led_first(opened.skip(row + 1));
        assert(opened.skip(row + 1)[0] == v.line());
        assert(opened.skip(row + 1).drop_first() =~= v.lines.skip(row + 1));
        assert(a + Seq::<char>::empty() + (seq!['\n'] + v.line() + b) =~= (a + v.line() + b).insert(
            a.len() as int,
            '\n',
        ));
    } else {
        assert(opened =~= seq![Seq::<char>::empty()]);
        assert(join(opened, '\n') =~= Seq::<char>::empty());
    }
}

/// No motion changes the text: what changes it is typing, deleting,
/// splitting and joining, as the laws above say.
pub proof fn lemma_motions_keep_text(v: EditorView, x: nat, y: nat, line: nat)
    ensures
        v.adjust_cursor().lines == v.lines,
        v.move_line_to_center().lines == v.lines,
        v.move_down().lines == v.lines,
        v.move_up().lines == v.lines,
        v.move_left().lines == v.lines,
        v.move_right().lines == v.lines,
        v.move_end_of_line().lines == v.lines,
        v.move_start_of_line().lines == v.lines,
        v.scroll_down().lines == v.lines,
        v.scroll_up().lines == v.lines,
        v.move_to(x, y).lines == v.lines,
        v.move_to_next_page().lines == v.lines,
        v.move_to_previous_page().lines == v.lines,
        v.move_to_line(line).lines == v.lines,
        v.move_to_start_of_buffer().lines == v.lines,
        v.move_to_end_of_buffer().lines == v.lines,
        v.move_to_end_of_viewport().lines == v.lines,
        v.move_to_next_word().lines == v.lines,
        v.move_to_previous_word().lines == v.lines,
{
}

/// The row under the cursor is a line of the buffer, in every mode, as long
/// as the buffer has a line.
pub proof fn lemma_cursor_row_valid(v: EditorView)
    requires
        v.wf(),
        v.lines.len() > 0,
    ensures
        0 <= v.row() < v.lines.len(),
        v.has_line(),
{
}

/// Moving by rows keeps the session well formed.
pub proof fn lemma_row_motions_keep_wf(v: EditorView)
    requires
        v.wf(),
    ensures
        v.move_line_to_center().wf(),
        v.move_down().wf(),
        v.move_up().wf(),
        v.scroll_down().wf(),
        v.scroll_up().wf(),
{
}

/// Moving by pages and to the ends of the buffer keeps the session well
/// formed.
pub proof fn lemma_jumps_keep_wf(v: EditorView, line: nat)
    requires
        v.wf(),
    ensures
        v.move_to_next_page().wf(),
        v.move_to_previous_page().wf(),
        v.move_to_line(line).wf(),
        v.move_to_start_of_buffer().wf(),
        v.move_to_end_of_buffer().wf(),
        v.move_to_end_of_viewport().wf(),
{
}

/// Moving by columns keeps the session well formed.
pub proof fn lemma_column_motions_keep_wf(v: EditorView)
    requires
        v.wf(),
    ensures
        v.adjust_cursor().wf(),
        v.move_left().wf(),
        v.move_right().wf(),
        v.move_end_of_line().wf(),
        v.move_start_of_line().wf(),
        v.move_to_next_word().wf(),
        v.move_to_previous_word().wf(),
{
}

/// Putting the cursor where the pointer is keeps the session well formed.
pub proof fn lemma_pointer_keeps_wf(v: EditorView, x: nat, y: nat)
    requires
        v.wf(),
    ensures
        v.move_to(x, y).wf(),
{
}

/// Every motion keeps the session well formed.
pub proof fn lemma_motions_keep_wf(v: EditorView, x: nat, y: nat, line: nat)
    requires
        v.wf(),
    ensures
        v.adjust_cursor().wf(),
        v.move_line_to_center().wf(),
        v.move_down().wf(),
        v.move_up().wf(),
        v.move_left().wf(),
        v.move_right().wf(),
        v.move_end_of_line().wf(),
        v.move_start_of_line().wf(),
        v.scroll_down().wf(),
        v.scroll_up().wf(),
        v.move_to(x, y).wf(),
        v.move_to_next_page().wf(),
        v.move_to_previous_page().wf(),
        v.move_to_line(line).wf(),
        v.move_to_start_of_buffer().wf(),
        v.move_to_end_of_buffer().wf(),
        v.move_to_end_of_viewport().wf(),
        v.move_to_next_word().wf(),
        v.move_to_previous_word().wf(),
{
    lemma_row_motions_keep_wf(v);
    lemma_jumps_keep_wf(v, line);
    lemma_column_motions_keep_wf(v);
    lemma_pointer_keeps_wf(v, x, y);
}

/// Every edit keeps the session well formed.
pub proof fn lemma_edits_keep_wf(v: EditorView, c: char)
    requires
        v.wf(),
    ensures
        v.with_line().wf(),
        v.insert_line().wf(),
        v.insert_char(c).wf(),
        v.remove_char().wf(),
        v.remove_char_at_cursor().wf(),
        v.split_line_at_cursor().wf(),
        v.join_with_next_line().wf(),
        v.delete_current_line().wf(),
{
}

/// Typing spaces keeps the session well formed.
pub proof fn lemma_insert_spaces_keeps_wf(v: EditorView, n: nat)
    requires
        v.wf(),
    ensures
        v.insert_spaces(n).wf(),
    decreases n,
{
    if n > 0 {
        lemma_edits_keep_wf(v, ' ');
        lemma_column_motions_keep_wf(v.insert_char(' '));
        lemma_insert_spaces_keeps_wf(v.insert_char(' ').move_right(), (n - 1) as nat);
    }
}

/// Whether `c` is a key of normal mode that only moves the cursor or the
/// viewport.
pub open spec fn is_motion_key(c: char) -> bool {
    c == 'G' || c == 'f' || c == 'b' || c == 'j' || c == 'k' || c == 'h' || c == 'l' || c == '$'
        || c == '0' || c == 'w'
}

/// Whether `c` is a key of normal mode that changes the buffer.
pub open spec fn is_edit_key(c: char) -> bool {
    c == 'o' || c == 'O' || c == 'x' || c == 'J'
}

/// A motion key keeps the session well formed.
pub proof fn lemma_motion_key_keeps_wf(v: EditorView, c: char, ctrl: bool)
    requires
        v.wf(),
        is_motion_key(c),
    ensures
        v.on_normal_char(c, ctrl).0.wf(),
{
    lemma_motions_keep_wf(v, 0, 0, 0);
}

/// An edit key keeps the session well formed.
pub proof fn lemma_edit_key_keeps_wf(v: EditorView, c: char, ctrl: bool)
    requires
        v.wf(),
        is_edit_key(c),
    ensures
        v.on_normal_char(c, ctrl).0.wf(),
{
    lemma_edits_keep_wf(v, c);
    if c == 'o' {
        lemma_motions_keep_wf(v, 0, 0, 0);
        lemma_edits_keep_wf(v.move_down(), c);
        let opened = v.move_down().insert_line();
        assert((EditorView { mode: Mode::Insert, ..opened }).wf() == opened.wf());
    } else if c == 'O' {
        let opened = v.insert_line();
        assert((EditorView { mode: Mode::Insert, ..opened }).wf() == opened.wf());
    }
}

/// Any other character key keeps the session well formed: it changes the
/// mode, awaits a second key, ends the session, or does nothing.
pub proof fn lemma_other_key_keeps_wf(v: EditorView, c: char, ctrl: bool)
    requires
        v.wf(),
        !is_motion_key(c),
        !is_edit_key(c),
    ensures
        v.on_normal_char(c, ctrl).0.wf(),
{
    if c == 'a' {
        lemma_motions_keep_wf(v, 0, 0, 0);
        let appended = v.move_right();
        assert((EditorView { mode: Mode::Insert, ..appended }).wf() == appended.wf());
    } else {
        assert((EditorView { mode: Mode::Insert, ..v }).wf());
        assert((EditorView { mode: Mode::Command, ..v }).wf());
        assert((EditorView { quit: true, ..v }).wf());
        assert((EditorView { waiting_key: Some(c), ..v }).wf());
    }
}

/// A character key in normal mode keeps the session well formed.
pub proof fn lemma_normal_char_keeps_wf(v: EditorView, c: char, ctrl: bool)
    requires
        v.wf(),
    ensures
        v.on_normal_char(c, ctrl).0.wf(),
{
    if is_motion_key(c) {
        lemma_motion_key_keeps_wf(v, c, ctrl);
    } else if is_edit_key(c) {
        lemma_edit_key_keeps_wf(v, c, ctrl);
    } else {
        lemma_other_key_keeps_wf(v, c, ctrl);
    }
}

/// A key in normal mode keeps the session well formed.
pub proof fn lemma_normal_key_keeps_wf(v: EditorView, key: Key, ctrl: bool)
    requires
        v.wf(),
    ensures
        v.on_normal_key(key, ctrl).0.wf(),
{
    match v.waiting_key {
        Some(w) => {
            let s = EditorView { waiting_key: None, ..v };
            lemma_motions_keep_wf(s, 0, 0, 0);
            lemma_edits_keep_wf(s, w);
        },
        None => {
            lemma_motions_keep_wf(v, 0, 0, 0);
            match key {
                Key::Char(c) => {
                    lemma_normal_char_keeps_wf(v, c, ctrl);
                },
                _ => {},
            }
        },
    }
}

/// A key in insert mode keeps the session well formed.
pub proof fn lemma_insert_key_keeps_wf(v: EditorView, key: Key)
    requires
        v.wf(),
    ensures
        v.on_insert_input(Input::Key { key: key, ctrl: false }).wf(),
{
    match key {
        Key::Char(c) => {
            lemma_edits_keep_wf(v, c);
            lemma_column_motions_keep_wf(v.insert_char(c));
        },
        Key::Esc => {
            assert((EditorView { mode: Mode::Normal, ..v }).wf());
        },
        Key::Left => {
            lemma_column_motions_keep_wf(v);
        },
        Key::Backspace => {
            lemma_edits_keep_wf(v, ' ');
            lemma_column_motions_keep_wf(v.remove_char());
        },
        Key::Delete => {
            lemma_edits_keep_wf(v, ' ');
        },
        Key::Enter => {
            lemma_edits_keep_wf(v, ' ');
        },
        Key::Tab => {
            lemma_insert_spaces_keeps_wf(v, v.config.tab_size as nat);
        },
        _ => {},
    }
}

/// An input in insert mode keeps the session well formed.
pub proof fn lemma_insert_input_keeps_wf(v: EditorView, ev: Input)
    requires
        v.wf(),
    ensures
        v.on_insert_input(ev).wf(),
{
    match ev {
        Input::Key { key, ctrl } => {
            lemma_insert_key_keeps_wf(v, key);
            assert(v.on_insert_input(ev) == v.on_insert_input(
                Input::Key { key: key, ctrl: false },
            ));
        },
        _ => {},
    }
}

/// Whatever the terminal reports, the session stays well formed: the
/// viewport keeps a cell, the cursor stays inside it, and the row under the
/// cursor stays a line of the buffer unless the buffer is empty.
pub proof fn lemma_input_keeps_wf(v: EditorView, ev: Input)
    requires
        v.wf(),
    ensures
        v.on_input(ev).0.wf(),
{
    match ev {
        Input::Resize { width, height } => {},
        Input::Key { key, ctrl } => {
            lemma_normal_key_keeps_wf(v, key, ctrl);
            lemma_insert_input_keeps_wf(v, ev);
        },
        Input::Mouse { kind, column, row } => {
            lemma_motions_keep_wf(v, column as nat, row as nat, 0);
            lemma_insert_input_keeps_wf(v, ev);
        },
        Input::Other => {
            lemma_insert_input_keeps_wf(v, ev);
        },
    }
}

/// What the command line gives keeps the session well formed, and so does
/// getting ready to paint.
pub proof fn lemma_command_keeps_wf(v: EditorView, cmd: Option<Seq<char>>, redraw: bool)
    requires
        v.wf(),
    ensures
        v.handle_command(cmd).wf(),
        v.handle_command(cmd).mode == Mode::Normal,
        v.draw(redraw).wf(),
{
    lemma_motions_keep_wf(EditorView { mode: Mode::Normal, pending_redraw: true, ..v }, 0, 0, 0);
    match cmd {
        Some(c) => {
            if crate::text::is_decimal(c) && crate::text::decimal_value(c) >= 1 {
                lemma_motions_keep_wf(
                    EditorView { mode: Mode::Normal, pending_redraw: true, ..v },
                    0,
                    0,
                    (crate::text::decimal_value(c) - 1) as nat,
                );
            }
        },
        None => {},
    }
    lemma_motions_keep_wf(EditorView { pending_redraw: false, ..v }, 0, 0, 0);
}

} // verus!
