use fed::editor::{Cursor, CursorShape, Editor, Input, Key, Mode, MouseKind};
use fed::theme::Theme;

fn theme() -> Theme {
    let mut theme = Theme::default();
    theme.foreground = "#ffffff".to_string();
    theme.background = "#000000".to_string();
    theme
}

fn editor(contents: &str) -> Editor {
    Editor::new(theme(), Some(("test.rs".to_string(), contents.to_string())), 80, 24)
}

fn numbered(n: usize) -> Editor {
    let lines: Vec<String> = (1..=n).map(|i| format!("line {}", i)).collect();
    editor(&lines.join("\n"))
}

fn key(c: char) -> Input {
    Input::Key { key: Key::Char(c), ctrl: false }
}

fn ctrl(c: char) -> Input {
    Input::Key { key: Key::Char(c), ctrl: true }
}

fn special(key: Key) -> Input {
    Input::Key { key, ctrl: false }
}

fn typed(e: &mut Editor, text: &str) {
    for c in text.chars() {
        assert!(e.handle_input(key(c)));
    }
}

fn row_is_valid(e: &Editor) -> bool {
    if e.buffer.is_empty() {
        e.vtop == 0 && e.cy == 0
    } else {
        e.vtop + e.cy < e.buffer.len() && e.cy < e.vheight
    }
}

#[test]
fn a_session_without_a_file_has_one_empty_line() {
    let e = Editor::new(theme(), None, 80, 24);
    assert_eq!(e.buffer, vec![""]);
    assert_eq!(e.name, "No Name");
    assert_eq!(e.mode, Mode::Normal);
    assert_eq!((e.cx, e.cy, e.vtop), (0, 0, 0));
    assert_eq!((e.width, e.height), (80, 24));
    assert_eq!((e.vleft, e.vwidth, e.vheight), (8, 72, 22));
    assert_eq!(e.waiting_key, None);
    assert!(!e.quit);
    assert!(!e.pending_redraw);
    assert_eq!(e.config.tab_size, 4);
    assert_eq!(e.config.mouse_scroll_lines, 3);
}

#[test]
fn a_session_with_a_file_has_its_lines() {
    let e = editor("abc\r\ndef\n");
    assert_eq!(e.buffer, vec!["abc", "def"]);
    assert_eq!(e.name, "test.rs");
    let e = editor("");
    assert!(e.buffer.is_empty());
    assert_eq!(e.by(), 0);
    assert_eq!(e.line(), None);
    assert_eq!(e.current_line_len(), 0);
}

#[test]
fn enter_at_the_end_of_a_line_opens_a_line_below() {
    let mut e = editor("abc\ndef");
    e.handle_input(key('i'));
    assert_eq!(e.mode, Mode::Insert);
    e.move_right();
    e.move_right();
    e.move_right();
    assert_eq!((e.cx, e.cy), (3, 0));
    assert!(e.at_end_of_line());
    assert!(e.handle_input(special(Key::Enter)));
    assert_eq!(e.buffer, vec!["abc", "", "def"]);
    assert_eq!((e.cx, e.cy), (0, 1));
}

#[test]
fn enter_inside_a_line_cuts_it_in_two() {
    let mut e = editor("hello\nworld");
    e.cx = 2;
    e.split_line_at_cursor();
    assert_eq!(e.buffer, vec!["he", "llo", "world"]);
    assert_eq!((e.cx, e.cy), (0, 1));
    e.split_line_at_cursor();
    assert_eq!(e.buffer, vec!["he", "", "llo", "world"]);
    assert_eq!((e.cx, e.cy), (0, 2));
}

#[test]
fn enter_on_the_last_row_of_the_viewport_scrolls() {
    let mut e = numbered(30);
    for _ in 0..21 {
        e.move_down();
    }
    assert_eq!((e.vtop, e.cy), (0, 21));
    e.split_line_at_cursor();
    assert_eq!((e.vtop, e.cy), (1, 21));
    assert_eq!(e.buffer.len(), 31);
    assert_eq!(e.buffer[21], "");
    assert_eq!(e.buffer[22], "line 22");
    assert_eq!(e.by(), 22);
}

#[test]
fn dd_deletes_the_line_under_the_cursor() {
    let mut e = editor("a\nb\nc");
    e.handle_input(key('j'));
    assert_eq!(e.by(), 1);
    assert!(!e.handle_input(key('d')));
    assert_eq!(e.waiting_key, Some('d'));
    assert_eq!(e.buffer, vec!["a", "b", "c"]);
    assert!(e.handle_input(key('d')));
    assert_eq!(e.waiting_key, None);
    assert_eq!(e.buffer, vec!["a", "c"]);
    assert_eq!(e.by(), 1);
}

#[test]
fn deleting_the_last_line_moves_the_cursor_up() {
    let mut e = editor("a\nb\nc");
    e.move_down();
    e.move_down();
    e.delete_current_line();
    assert_eq!(e.buffer, vec!["a", "b"]);
    assert_eq!(e.by(), 1);
    e.delete_current_line();
    assert_eq!(e.buffer, vec!["a"]);
    assert_eq!(e.by(), 0);
    e.delete_current_line();
    assert!(e.buffer.is_empty());
    assert_eq!((e.vtop, e.cy), (0, 0));
    e.delete_current_line();
    assert!(e.buffer.is_empty());
}

#[test]
fn deleting_the_last_line_at_the_top_of_the_viewport_scrolls_up() {
    let mut e = numbered(5);
    e.move_to_line(4);
    assert_eq!((e.vtop, e.cy), (4, 0));
    e.delete_current_line();
    assert_eq!((e.vtop, e.cy), (3, 0));
    assert_eq!(e.buffer.len(), 4);
}

#[test]
fn a_line_number_on_the_command_line_goes_to_that_line() {
    let mut e = numbered(5);
    e.handle_input(key(':'));
    assert_eq!(e.mode, Mode::Command);
    e.handle_command(Some("2"));
    assert_eq!(e.mode, Mode::Normal);
    assert_eq!(e.by(), 1);
    assert_eq!(e.line_number(), 2);
    assert_eq!((e.vtop, e.cy, e.cx), (1, 0, 0));
    assert!(e.pending_redraw);
}

#[test]
fn the_commands_of_the_command_line() {
    let mut e = numbered(5);
    e.handle_command(Some("$"));
    assert_eq!(e.by(), 4);
    e.handle_command(Some("0"));
    assert_eq!(e.by(), 0);
    e.handle_command(Some("5"));
    assert_eq!(e.by(), 4);
    e.handle_command(Some("6"));
    assert_eq!(e.by(), 4);
    e.handle_command(Some("1"));
    assert_eq!(e.by(), 0);
    e.handle_command(Some("3"));
    for ignored in ["", "x", "+2", "2 ", "-1", "99999999999999999999999", "qq", "Q"] {
        e.mode = Mode::Command;
        e.handle_command(Some(ignored));
        assert_eq!(e.by(), 2, "{:?}", ignored);
        assert!(!e.quit);
        assert_eq!(e.mode, Mode::Normal);
    }
    e.mode = Mode::Command;
    e.handle_command(None);
    assert_eq!(e.mode, Mode::Normal);
    assert!(!e.quit);
    e.handle_command(Some("q"));
    assert!(e.quit);
    assert_eq!(e.buffer.len(), 5);
}

#[test]
fn the_end_of_a_long_buffer_fills_the_viewport() {
    let mut e = numbered(100);
    e.handle_command(Some("$"));
    assert_eq!((e.vtop, e.cy), (78, 21));
    assert_eq!(e.by(), 99);
    e.handle_input(key('g'));
    e.handle_input(key('g'));
    assert_eq!((e.vtop, e.cy, e.cx), (0, 0, 0));
    assert!(e.handle_input(key('G')));
    assert_eq!(e.by(), 99);
}

#[test]
fn typing_puts_characters_before_the_cursor() {
    let mut e = Editor::new(theme(), None, 80, 24);
    e.handle_input(key('i'));
    typed(&mut e, "abc");
    assert_eq!(e.buffer, vec!["abc"]);
    assert_eq!(e.cx, 3);
    e.handle_input(special(Key::Left));
    typed(&mut e, "X");
    assert_eq!(e.buffer, vec!["abXc"]);
    assert_eq!(e.cx, 3);
    e.handle_input(special(Key::Esc));
    assert_eq!(e.mode, Mode::Normal);
}

#[test]
fn typing_into_an_empty_buffer_makes_a_line() {
    let mut e = editor("");
    e.insert_char('x');
    assert_eq!(e.buffer, vec!["x"]);
    let mut e = editor("");
    e.split_line_at_cursor();
    assert_eq!(e.buffer, vec!["", ""]);
    assert_eq!((e.cx, e.cy), (0, 1));
}

#[test]
fn typing_beyond_the_end_of_a_line_appends() {
    let mut e = editor("ab");
    e.cx = 10;
    e.insert_char('c');
    assert_eq!(e.buffer, vec!["abc"]);
}

#[test]
fn backspace_deletes_before_the_cursor() {
    let mut e = editor("abc");
    e.handle_input(key('i'));
    e.cx = 2;
    assert!(e.handle_input(special(Key::Backspace)));
    assert_eq!(e.buffer, vec!["ac"]);
    assert_eq!(e.cx, 1);
    e.handle_input(special(Key::Backspace));
    assert_eq!(e.buffer, vec!["c"]);
    assert_eq!(e.cx, 0);
    e.handle_input(special(Key::Backspace));
    assert_eq!(e.buffer, vec!["c"]);
    assert_eq!(e.cx, 0);
}

#[test]
fn the_delete_key_deletes_before_the_cursor_and_stays() {
    let mut e = editor("abc");
    e.handle_input(key('i'));
    e.cx = 2;
    e.handle_input(special(Key::Delete));
    assert_eq!(e.buffer, vec!["ac"]);
    assert_eq!(e.cx, 2);
    e.cx = 7;
    e.remove_char();
    assert_eq!(e.buffer, vec!["ac"]);
}

#[test]
fn x_deletes_under_the_cursor() {
    let mut e = editor("abc");
    e.cx = 1;
    assert!(e.handle_input(key('x')));
    assert_eq!(e.buffer, vec!["ac"]);
    assert_eq!(e.cx, 1);
    e.cx = 2;
    assert!(e.handle_input(key('x')));
    assert_eq!(e.buffer, vec!["ac"]);
    let mut e = editor("");
    assert!(!e.handle_input(key('x')));
    assert!(e.buffer.is_empty());
}

#[test]
fn joining_puts_one_space_between_the_lines() {
    let mut e = editor("foo\nbar\nbaz");
    assert!(e.handle_input(key('J')));
    assert_eq!(e.buffer, vec!["foo bar", "baz"]);
    e.handle_input(key('J'));
    assert_eq!(e.buffer, vec!["foo bar baz"]);
    e.handle_input(key('J'));
    assert_eq!(e.buffer, vec!["foo bar baz"]);
    assert_eq!(e.by(), 0);
}

#[test]
fn tab_types_spaces() {
    let mut e = editor("x");
    e.handle_input(key('i'));
    e.handle_input(special(Key::Tab));
    assert_eq!(e.buffer, vec!["    x"]);
    assert_eq!(e.cx, 4);
    e.config.tab_size = 2;
    e.handle_input(special(Key::Tab));
    assert_eq!(e.buffer, vec!["      x"]);
    assert_eq!(e.cx, 6);
}

#[test]
fn opening_lines() {
    let mut e = editor("a\nb");
    assert!(e.handle_input(key('o')));
    assert_eq!(e.buffer, vec!["a", "", "b"]);
    assert_eq!(e.by(), 1);
    assert_eq!(e.mode, Mode::Insert);
    e.handle_input(special(Key::Esc));
    assert!(e.handle_input(key('O')));
    assert_eq!(e.buffer, vec!["a", "", "", "b"]);
    assert_eq!(e.by(), 1);
    assert_eq!(e.mode, Mode::Insert);
}

#[test]
fn appending_steps_past_the_character() {
    let mut e = editor("ab");
    e.cx = 1;
    assert!(!e.handle_input(key('a')));
    assert_eq!(e.mode, Mode::Insert);
    assert_eq!(e.cx, 2);
    typed(&mut e, "c");
    assert_eq!(e.buffer, vec!["abc"]);
}

#[test]
fn the_cursor_is_pinned_to_the_bottom_edge() {
    let mut e = numbered(30);
    for i in 1..=21 {
        assert!(!e.move_down());
        assert_eq!((e.vtop, e.cy), (0, i));
    }
    for i in 1..=8 {
        assert!(e.move_down());
        assert_eq!((e.vtop, e.cy), (i, 21));
        assert_eq!(e.by(), 21 + i);
    }
    assert!(!e.move_down());
    assert_eq!((e.vtop, e.cy), (8, 21));
    assert_eq!(e.by(), 29);
}

#[test]
fn the_cursor_is_pinned_to_the_top_edge() {
    let mut e = numbered(30);
    e.move_to_line(10);
    e.move_down();
    e.move_down();
    assert_eq!((e.vtop, e.cy), (10, 2));
    assert!(!e.move_up());
    assert!(!e.move_up());
    assert_eq!((e.vtop, e.cy), (10, 0));
    for i in 1..=10 {
        assert!(e.move_up());
        assert_eq!((e.vtop, e.cy), (10 - i, 0));
    }
    assert!(!e.move_up());
    assert_eq!((e.vtop, e.cy), (0, 0));
}

#[test]
fn moving_down_stops_at_the_last_line_of_a_short_buffer() {
    let mut e = editor("a\nb");
    assert!(!e.move_down());
    assert_eq!(e.by(), 1);
    assert!(!e.move_down());
    assert_eq!(e.by(), 1);
    let mut e = editor("");
    assert!(!e.move_down());
    assert!(!e.move_up());
}

#[test]
fn moving_sideways() {
    let mut e = editor("abc");
    assert!(!e.move_left());
    assert_eq!(e.cx, 0);
    assert!(!e.move_right());
    assert!(!e.move_right());
    assert!(!e.move_right());
    assert_eq!(e.cx, 3);
    e.move_right();
    assert_eq!(e.cx, 3);
    e.move_left();
    assert_eq!(e.cx, 2);
    e.move_start_of_line();
    assert_eq!(e.cx, 0);
    e.move_end_of_line();
    assert_eq!(e.cx, 2);
    let mut e = editor("\nx");
    e.move_end_of_line();
    assert_eq!(e.cx, 0);
}

#[test]
fn moving_right_stops_at_the_edge_of_the_viewport() {
    let long = "x".repeat(200);
    let mut e = editor(&long);
    for _ in 0..100 {
        assert!(!e.move_right());
    }
    assert_eq!(e.cx, 71);
    assert_eq!(e.vleft, 8);
}

#[test]
fn the_cursor_is_brought_back_to_the_line() {
    let mut e = editor("abc\n\nlonger line");
    e.cx = 10;
    e.adjust_cursor();
    assert_eq!(e.cx, 2);
    e.mode = Mode::Insert;
    e.cx = 10;
    e.adjust_cursor();
    assert_eq!(e.cx, 3);
    e.mode = Mode::Command;
    e.cx = 10;
    e.adjust_cursor();
    assert_eq!(e.cx, 10);
    e.mode = Mode::Normal;
    e.move_down();
    e.adjust_cursor();
    assert_eq!(e.cx, 0);
    e.mode = Mode::Normal;
    e.cx = 3;
    e.move_up();
    e.adjust_cursor();
    assert_eq!(e.cx, 2);
    e.cx = 1;
    e.adjust_cursor();
    assert_eq!(e.cx, 1);
}

#[test]
fn words() {
    let mut e = editor("foo bar baz");
    assert!(!e.move_to_next_word());
    assert_eq!(e.cx, 4);
    e.move_to_next_word();
    assert_eq!(e.cx, 8);
    e.move_to_next_word();
    assert_eq!(e.cx, 10);
    e.move_to_next_word();
    assert_eq!(e.cx, 10);
    e.move_to_previous_word();
    assert_eq!(e.cx, 8);
    e.move_to_previous_word();
    assert_eq!(e.cx, 4);
    e.move_to_previous_word();
    assert_eq!(e.cx, 0);
    e.move_to_previous_word();
    assert_eq!(e.cx, 0);
    e.cx = 3;
    e.move_to_next_word();
    assert_eq!(e.cx, 4);
    e.cx = 50;
    e.move_to_previous_word();
    assert_eq!(e.cx, 8);
    e.cx = 50;
    e.move_to_next_word();
    assert_eq!(e.cx, 10);
    let mut e = editor("a.b\tc ");
    e.handle_input(key('w'));
    assert_eq!(e.cx, 4);
    e.handle_input(key('w'));
    assert_eq!(e.cx, 6);
    assert!(!e.handle_input(key('b')));
    assert_eq!(e.cx, 4);
    let mut e = editor("");
    e.move_to_next_word();
    e.move_to_previous_word();
    assert_eq!(e.cx, 0);
}

#[test]
fn any_other_key_forgets_the_first_key_of_a_pair() {
    let mut e = editor("a\nb\nc");
    assert!(!e.handle_input(key('d')));
    assert_eq!(e.waiting_key, Some('d'));
    assert!(!e.handle_input(key('j')));
    assert_eq!(e.waiting_key, None);
    assert_eq!(e.by(), 0);
    assert_eq!(e.buffer, vec!["a", "b", "c"]);
    assert!(!e.handle_input(key('d')));
    assert!(!e.handle_input(key('g')));
    assert_eq!(e.waiting_key, None);
    assert!(!e.handle_input(key('g')));
    assert_eq!(e.waiting_key, Some('g'));
    assert!(!e.handle_input(special(Key::Esc)));
    assert_eq!(e.waiting_key, None);
    assert!(!e.handle_input(key('d')));
    assert!(!e.handle_input(key('q')));
    assert!(!e.quit);
    assert_eq!(e.buffer, vec!["a", "b", "c"]);
}

#[test]
fn the_mouse_does_not_touch_the_awaited_key() {
    let mut e = editor("a\nb\nc");
    e.handle_input(key('d'));
    e.handle_input(Input::Mouse { kind: MouseKind::LeftDown, column: 8, row: 1 });
    assert_eq!(e.waiting_key, Some('d'));
    e.handle_input(key('d'));
    assert_eq!(e.buffer, vec!["a", "c"]);
}

#[test]
fn zz_centres_the_viewport_on_the_cursor() {
    let mut e = numbered(100);
    for _ in 0..20 {
        e.move_down();
    }
    assert_eq!((e.vtop, e.cy), (0, 20));
    e.handle_input(key('z'));
    assert!(e.handle_input(key('z')));
    assert_eq!((e.vtop, e.cy), (9, 11));
    assert_eq!(e.by(), 20);
    e.handle_input(key('z'));
    assert!(!e.handle_input(key('z')));
    assert_eq!((e.vtop, e.cy), (9, 11));
    for _ in 0..5 {
        e.move_up();
    }
    assert!(e.move_line_to_center());
    assert_eq!((e.vtop, e.cy), (4, 11));
    e.move_to_line(2);
    assert!(e.move_line_to_center());
    assert_eq!((e.vtop, e.cy), (0, 2));
    assert!(!e.move_line_to_center());
    assert_eq!((e.vtop, e.cy), (0, 2));
}

#[test]
fn q_ends_the_session() {
    let mut e = editor("a");
    assert!(!e.handle_input(key('q')));
    assert!(e.quit);
}

#[test]
fn modes_change_by_keys() {
    let mut e = editor("a");
    assert!(!e.handle_input(key('i')));
    assert_eq!(e.mode, Mode::Insert);
    assert!(e.handle_input(special(Key::Esc)));
    assert_eq!(e.mode, Mode::Normal);
    assert!(e.handle_input(key(';')));
    assert_eq!(e.mode, Mode::Command);
    assert!(e.mode.is_command());
    assert!(!e.affects_buffer());
    assert!(e.handle_input(key('i')));
    assert_eq!(e.mode, Mode::Command);
    assert_eq!(e.buffer, vec!["a"]);
    e.handle_command(Some("nothing"));
    assert_eq!(e.mode, Mode::Normal);
    assert!(e.affects_buffer());
    assert!(!Mode::Normal.is_command());
    assert_eq!(Mode::default(), Mode::Normal);
}

#[test]
fn keys_without_a_meaning_do_nothing() {
    let mut e = editor("abc\ndef");
    e.cx = 1;
    for input in [
        key('y'),
        key('f'),
        special(Key::Enter),
        special(Key::Tab),
        special(Key::Backspace),
        special(Key::Other),
        Input::Other,
        Input::Mouse { kind: MouseKind::LeftDrag, column: 30, row: 1 },
        Input::Mouse { kind: MouseKind::Other, column: 30, row: 1 },
    ] {
        assert!(!e.handle_input(input));
        assert_eq!((e.cx, e.cy, e.vtop), (1, 0, 0));
        assert_eq!(e.buffer, vec!["abc", "def"]);
        assert_eq!(e.mode, Mode::Normal);
    }
}

#[test]
fn arrows_in_normal_mode() {
    let mut e = editor("abc\ndef");
    assert!(!e.handle_input(special(Key::Down)));
    assert_eq!(e.by(), 1);
    assert!(!e.handle_input(special(Key::Down)));
    assert!(!e.handle_input(special(Key::Right)));
    assert_eq!(e.cx, 1);
    assert!(!e.handle_input(special(Key::Left)));
    assert_eq!(e.cx, 0);
    assert!(!e.handle_input(special(Key::Up)));
    assert_eq!(e.by(), 0);
    assert!(!e.handle_input(key('j')));
    assert_eq!(e.by(), 1);
    assert!(!e.handle_input(key('k')));
    assert_eq!(e.by(), 0);
    assert!(!e.handle_input(key('k')));
    assert!(!e.handle_input(key('l')));
    assert!(!e.handle_input(key('$')));
    assert_eq!(e.cx, 2);
    assert!(!e.handle_input(key('h')));
    assert_eq!(e.cx, 1);
    assert!(!e.handle_input(key('0')));
    assert_eq!(e.cx, 0);
}

#[test]
fn pages() {
    let mut e = numbered(100);
    assert!(e.handle_input(ctrl('f')));
    assert_eq!((e.vtop, e.cy), (22, 0));
    e.move_to_next_page();
    e.move_to_next_page();
    assert_eq!(e.vtop, 66);
    e.move_to_next_page();
    assert_eq!(e.vtop, 88);
    e.move_to_next_page();
    assert_eq!(e.vtop, 78);
    assert!(e.handle_input(ctrl('b')));
    assert_eq!(e.vtop, 56);
    e.move_to_previous_page();
    e.move_to_previous_page();
    assert_eq!(e.vtop, 12);
    e.move_to_previous_page();
    assert_eq!(e.vtop, 0);
    e.move_to_previous_page();
    assert_eq!(e.vtop, 0);
}

#[test]
fn the_next_page_keeps_the_cursor_on_a_line() {
    let mut e = numbered(30);
    for _ in 0..15 {
        e.move_down();
    }
    e.move_to_next_page();
    assert_eq!((e.vtop, e.cy), (22, 7));
    assert_eq!(e.by(), 29);
    let mut e = numbered(5);
    e.move_down();
    e.move_to_next_page();
    assert_eq!((e.vtop, e.cy), (0, 1));
    let mut e = editor("");
    e.move_to_next_page();
    assert_eq!((e.vtop, e.cy), (0, 0));
}

#[test]
fn the_wheel_scrolls_three_rows() {
    let mut e = numbered(100);
    for _ in 0..5 {
        e.move_down();
    }
    assert!(e.handle_input(Input::Mouse { kind: MouseKind::ScrollDown, column: 0, row: 0 }));
    assert_eq!((e.vtop, e.cy), (3, 2));
    assert_eq!(e.by(), 5);
    e.scroll_down();
    assert_eq!((e.vtop, e.cy), (6, 0));
    e.scroll_down();
    assert_eq!((e.vtop, e.cy), (9, 0));
    assert!(e.handle_input(Input::Mouse { kind: MouseKind::ScrollUp, column: 0, row: 0 }));
    assert_eq!((e.vtop, e.cy), (6, 3));
    assert_eq!(e.by(), 9);
    assert!(e.scroll_up());
    assert!(e.scroll_up());
    assert_eq!((e.vtop, e.cy), (0, 9));
    assert!(!e.scroll_up());
    e.vtop = 2;
    e.cy = 20;
    assert!(e.scroll_up());
    assert_eq!((e.vtop, e.cy), (0, 20));
    e.vtop = 5;
    assert!(e.scroll_up());
    assert_eq!((e.vtop, e.cy), (2, 21));
}

#[test]
fn scrolling_down_ends_on_the_last_rows() {
    let mut e = numbered(100);
    e.move_to_line(98);
    e.scroll_down();
    assert_eq!((e.vtop, e.cy), (78, 0));
    let mut e = numbered(5);
    e.move_down();
    e.scroll_down();
    assert_eq!((e.vtop, e.cy), (3, 0));
    e.scroll_down();
    assert_eq!((e.vtop, e.cy), (0, 0));
    let mut e = editor("");
    e.scroll_down();
    assert_eq!((e.vtop, e.cy), (0, 0));
}

#[test]
fn the_pointer_places_the_cursor() {
    let mut e = editor("hello\nhi\n\nworld");
    assert!(!e.handle_input(Input::Mouse { kind: MouseKind::LeftDown, column: 10, row: 0 }));
    assert_eq!((e.cx, e.cy), (2, 0));
    assert!(!e.move_to(13, 3));
    assert_eq!((e.cx, e.cy), (5, 3));
    assert!(!e.move_to(14, 3));
    assert_eq!((e.cx, e.cy), (4, 3));
    assert!(!e.move_to(30, 1));
    assert_eq!((e.cx, e.cy), (1, 1));
    assert!(!e.move_to(30, 2));
    assert_eq!((e.cx, e.cy), (0, 2));
    assert!(!e.move_to(3, 0));
    assert_eq!((e.cx, e.cy), (0, 0));
    assert!(!e.move_to(8, 10));
    assert_eq!((e.cx, e.cy), (0, 3));
    assert!(!e.move_to(9, 21));
    assert_eq!((e.cx, e.cy), (1, 3));
    assert!(!e.move_to(9, 22));
    assert_eq!((e.cx, e.cy), (1, 3));
    let mut e = editor("");
    assert!(!e.move_to(20, 5));
    assert_eq!((e.cx, e.cy), (0, 0));
}

#[test]
fn lines_by_number() {
    let mut e = numbered(10);
    e.cx = 3;
    e.move_to_line(4);
    assert_eq!((e.vtop, e.cy, e.cx), (4, 0, 0));
    e.move_to_line(50);
    assert_eq!((e.vtop, e.cy), (9, 0));
    e.cx = 2;
    e.move_to_start_of_line();
    assert_eq!(e.cx, 0);
    e.cx = 2;
    e.move_to_start_of_buffer();
    assert_eq!((e.vtop, e.cy, e.cx), (0, 0, 0));
    e.move_to_end_of_viewport();
    assert_eq!((e.vtop, e.cy), (0, 9));
    let mut e = numbered(100);
    e.move_to_line(90);
    e.move_to_end_of_viewport();
    assert_eq!((e.vtop, e.cy), (90, 9));
    e.move_to_line(10);
    e.move_to_end_of_viewport();
    assert_eq!((e.vtop, e.cy), (10, 21));
    e.move_to_end_of_buffer();
    assert_eq!((e.vtop, e.cy), (78, 21));
    let mut e = editor("");
    e.move_to_end_of_buffer();
    assert_eq!((e.vtop, e.cy), (0, 0));
    e.move_to_line(3);
    assert_eq!((e.vtop, e.cy), (0, 0));
}

#[test]
fn a_new_size_keeps_the_cursor_on_its_line() {
    let mut e = numbered(100);
    for _ in 0..20 {
        e.move_down();
    }
    assert!(e.handle_input(Input::Resize { width: 100, height: 12 }));
    assert_eq!((e.width, e.height, e.vwidth, e.vheight), (100, 12, 92, 10));
    assert_eq!((e.vtop, e.cy), (11, 9));
    assert_eq!(e.by(), 20);
    assert!(e.resize(120, 40));
    assert_eq!((e.vwidth, e.vheight), (112, 38));
    assert_eq!((e.vtop, e.cy), (11, 9));
}

#[test]
fn a_size_that_holds_no_viewport_is_not_taken() {
    let mut e = numbered(10);
    for (width, height) in [(8, 24), (80, 2), (0, 0), (7, 1)] {
        assert!(!e.resize(width, height));
        assert_eq!((e.width, e.height, e.vwidth, e.vheight), (80, 24, 72, 22));
    }
    assert!(e.handle_input(Input::Resize { width: 0, height: 0 }));
    assert_eq!((e.width, e.height), (80, 24));
    assert!(e.resize(9, 3));
    assert_eq!((e.vwidth, e.vheight), (1, 1));
    e.mode = Mode::Command;
    assert!(e.handle_input(Input::Resize { width: 60, height: 20 }));
    assert_eq!((e.vwidth, e.vheight), (52, 18));
}

#[test]
fn the_status_line() {
    let mut e = editor("abc\ndef");
    let status = e.statusline();
    assert_eq!(status.y, 22);
    assert_eq!(status.mode, " NORMAL ");
    assert_eq!(status.file, " test.rs ");
    assert_eq!(status.position, " 0:0 ");
    assert_eq!(status.position_x, 74);
    e.move_down();
    e.move_right();
    e.move_right();
    e.mode = Mode::Insert;
    let status = e.statusline();
    assert_eq!(status.mode, " INSERT ");
    assert_eq!(status.position, " 1:2 ");
    e.mode = Mode::Command;
    assert_eq!(e.statusline().mode, " COMMAND ");
    let mut e = numbered(2000);
    e.move_to_line(1234);
    e.cx = 10;
    let status = e.statusline();
    assert_eq!(status.position, " 1234:10 ");
    assert_eq!(status.position_x, 70);
    assert_eq!(e.command_y(), 23);
}

#[test]
fn the_gutter() {
    let mut e = numbered(12);
    e.move_to_line(8);
    e.move_down();
    let rows = e.gutter();
    assert_eq!(rows.len(), 22);
    assert_eq!(rows[0].text, "     9");
    assert_eq!(rows[1].text, "    10");
    assert_eq!(rows[3].text, "    12");
    assert!(rows[0].numbered && rows[3].numbered);
    assert_eq!(rows[4].text, "        ");
    assert!(!rows[4].numbered);
    assert!(!rows[21].numbered);
    for (y, row) in rows.iter().enumerate() {
        assert_eq!(row.current, y == 1);
    }
    let e = editor("");
    let rows = e.gutter();
    assert!(rows.iter().all(|r| !r.numbered && r.text == "        "));
    assert!(rows[0].current);
}

#[test]
fn the_cursor_on_the_screen() {
    let mut e = editor("abc\ndef");
    assert_eq!(e.cursor(), Cursor::At { x: 8, y: 0, shape: CursorShape::Block });
    e.move_down();
    e.move_right();
    e.mode = Mode::Insert;
    assert_eq!(e.cursor(), Cursor::At { x: 9, y: 1, shape: CursorShape::Bar });
    e.mode = Mode::Command;
    assert_eq!(e.cursor(), Cursor::Hidden);
    e.mode = Mode::Normal;
    e.cx = 65535 - 8;
    assert_eq!(e.cursor(), Cursor::At { x: 65535, y: 1, shape: CursorShape::Block });
    e.cx = 65535 - 7;
    assert_eq!(e.cursor(), Cursor::OutOfReach);
    e.cx = usize::MAX;
    assert_eq!(e.cursor(), Cursor::OutOfReach);
}

#[test]
fn the_viewport_of_the_session() {
    let mut e = numbered(100);
    e.move_to_line(30);
    let viewport = e.viewport();
    assert_eq!(
        (viewport.top, viewport.left, viewport.width, viewport.height),
        (30, 8, 72, 22)
    );
    let rows = viewport.clamp_lines(&e.buffer);
    assert_eq!(rows.len(), 22);
    assert_eq!(rows[0], "line 31");
}

#[test]
fn painting_the_whole_screen_brings_the_cursor_back() {
    let mut e = editor("abc\nx");
    e.cx = 2;
    e.move_down();
    assert!(!e.draw(false));
    assert_eq!(e.cx, 2);
    assert!(e.draw(true));
    assert_eq!(e.cx, 0);
    e.cx = 9;
    e.pending_redraw = true;
    assert!(e.draw(false));
    assert!(!e.pending_redraw);
    assert_eq!(e.cx, 0);
    assert!(!e.draw(false));
}

#[test]
fn the_text_changes_only_where_an_edit_is_made() {
    let mut e = editor("one\ntwo\nthree");
    let text = |e: &Editor| e.buffer.join("\n");
    let mut want = text(&e);
    e.move_down();
    e.cx = 1;
    // typing puts one character in
    e.insert_char('X');
    want.insert(5, 'X');
    assert_eq!(text(&e), want);
    // deleting takes one out
    e.cx = 3;
    e.remove_char();
    want.remove(6);
    assert_eq!(text(&e), want);
    e.cx = 0;
    e.remove_char_at_cursor();
    want.remove(4);
    assert_eq!(text(&e), want);
    // splitting puts a line feed in
    e.cx = 1;
    e.split_line_at_cursor();
    want.insert(5, '\n');
    assert_eq!(text(&e), want);
    assert_eq!(e.buffer, vec!["one", "X", "o", "three"]);
    // joining turns a line feed into a space
    e.move_up();
    e.join_with_next_line();
    want.replace_range(5..6, " ");
    assert_eq!(text(&e), want);
    assert_eq!(e.buffer, vec!["one", "X o", "three"]);
    // deleting a line takes it out with its line feed
    e.delete_current_line();
    want.replace_range(4..8, "");
    assert_eq!(text(&e), want);
    assert_eq!(want, "one\nthree");
    // opening a line puts a line feed in before it
    e.insert_line();
    want.insert(4, '\n');
    assert_eq!(text(&e), want);
    // no motion changes it
    e.move_up();
    e.move_to_end_of_buffer();
    e.move_to_next_word();
    e.scroll_down();
    e.move_to(10, 1);
    assert_eq!(text(&e), want);
}

#[test]
fn the_row_under_the_cursor_stays_a_line_of_the_buffer() {
    let mut e = numbered(40);
    let inputs = vec![
        key('G'),
        key('d'),
        key('d'),
        key('j'),
        ctrl('f'),
        ctrl('f'),
        key('J'),
        key('d'),
        key('d'),
        Input::Mouse { kind: MouseKind::ScrollDown, column: 0, row: 0 },
        Input::Mouse { kind: MouseKind::ScrollDown, column: 0, row: 0 },
        Input::Mouse { kind: MouseKind::LeftDown, column: 40, row: 21 },
        Input::Resize { width: 30, height: 5 },
        key('G'),
        key('o'),
        special(Key::Enter),
        special(Key::Enter),
        key('x'),
        special(Key::Backspace),
        special(Key::Esc),
        key('g'),
        key('g'),
        key('O'),
        special(Key::Esc),
        ctrl('b'),
        key('z'),
        key('z'),
        Input::Mouse { kind: MouseKind::ScrollUp, column: 0, row: 0 },
        Input::Resize { width: 200, height: 60 },
        key('G'),
        key('k'),
        key('w'),
        key('b'),
        key('$'),
    ];
    for input in inputs {
        e.handle_input(input);
        assert!(row_is_valid(&e), "{:?}", input);
        e.draw(true);
        assert!(row_is_valid(&e), "{:?}", input);
        if e.mode == Mode::Normal && !e.buffer.is_empty() {
            let len = e.current_line_len();
            assert!(e.cx < len || (len == 0 && e.cx == 0));
        }
    }
    for _ in 0..60 {
        e.handle_input(special(Key::Esc));
        e.handle_input(key('d'));
        e.handle_input(key('d'));
        assert!(row_is_valid(&e));
    }
    assert!(e.buffer.is_empty());
}

#[test]
fn a_session_is_in_order_until_it_is_tampered_with() {
    let mut e = numbered(10);
    assert!(e.is_wf());
    e.handle_input(key('G'));
    assert!(e.is_wf());
    e.cy = 22;
    assert!(!e.is_wf());
    e.cy = 9;
    e.vtop = 1;
    assert!(!e.is_wf());
    e.vtop = 0;
    assert!(e.is_wf());
    e.vwidth = 71;
    assert!(!e.is_wf());
    e.vwidth = 72;
    e.height = 25;
    assert!(!e.is_wf());
    e.height = 24;
    e.buffer.clear();
    assert!(!e.is_wf());
    e.cy = 0;
    assert!(e.is_wf());
    e.vleft = 1;
    e.vwidth = 79;
    assert!(!e.is_wf());
}

#[test]
fn a_new_size_is_taken_in_every_mode() {
    let mut e = numbered(10);
    assert!(!e.handle_events(key('j')));
    assert_eq!(e.by(), 0);
    assert!(!e.handle_events(Input::Mouse { kind: MouseKind::ScrollDown, column: 0, row: 0 }));
    assert!(!e.handle_events(Input::Other));
    assert!(e.handle_events(Input::Resize { width: 40, height: 10 }));
    assert_eq!((e.vwidth, e.vheight), (32, 8));
    assert!(e.handle_events(Input::Resize { width: 4, height: 10 }));
    assert_eq!((e.vwidth, e.vheight), (32, 8));
}

#[test]
fn motions_ask_for_the_whole_screen_where_the_viewport_moves() {
    let mut e = numbered(100);
    assert!(e.scroll_down());
    assert!(e.move_to_next_page());
    assert!(e.move_to_previous_page());
    assert!(e.move_to_line(5));
    assert!(e.move_to_end_of_buffer());
    assert!(e.move_to_start_of_buffer());
    assert!(!e.move_to_previous_word());
    assert!(!e.move_to_next_word());
    assert!(!e.move_end_of_line());
    assert!(!e.move_start_of_line());
    assert_eq!(e.bx(), 0);
}

#[test]
fn a_motion_asks_for_the_whole_screen_only_where_the_viewport_moves() {
    let mut e = editor("a\nb\nc");
    e.resize(80, 12);
    assert_eq!(e.vheight, 10);
    assert!(!e.move_down());
    assert_eq!((e.vtop, e.cy), (0, 1));
    let mut e = numbered(100);
    // nothing moves the viewport of a session that is where the motion leads
    assert!(!e.move_to_start_of_buffer());
    assert!(!e.move_to_previous_page());
    assert!(!e.move_to_line(0));
    assert!(!e.scroll_up());
    assert!(!e.handle_input(key('g')));
    assert!(!e.handle_input(key('g')));
    assert!(e.handle_input(key('G')));
    assert_eq!(e.vtop, 78);
    assert!(!e.handle_input(key('G')));
    assert!(!e.move_to_end_of_buffer());
    assert!(!e.move_to_next_page());
    assert!(e.scroll_down());
    assert_eq!((e.vtop, e.cy), (81, 18));
    assert!(e.handle_input(ctrl('f')));
    assert_eq!(e.vtop, 78);
    // at the top edge the arrow scrolls, below it the cursor alone moves
    assert!(!e.handle_input(key('g')));
    assert!(e.handle_input(key('g')));
    e.move_to_line(5);
    assert!(e.handle_input(special(Key::Up)));
    assert_eq!((e.vtop, e.cy), (4, 0));
    assert!(e.handle_input(key('k')));
    assert_eq!((e.vtop, e.cy), (3, 0));
    assert!(!e.handle_input(special(Key::Down)));
    assert!(!e.handle_input(special(Key::Up)));
    assert_eq!((e.vtop, e.cy), (3, 0));
    // a wheel that scrolls by nothing moves nothing
    e.config.mouse_scroll_lines = 0;
    assert!(!e.handle_input(Input::Mouse { kind: MouseKind::ScrollUp, column: 0, row: 0 }));
    assert!(!e.handle_input(Input::Mouse { kind: MouseKind::ScrollDown, column: 0, row: 0 }));
    assert_eq!((e.vtop, e.cy), (3, 0));
    // on a short buffer the end is in sight already
    let mut e = numbered(5);
    assert!(!e.handle_input(key('G')));
    assert_eq!(e.by(), 4);
    assert!(!e.handle_input(key('z')));
    assert!(!e.handle_input(key('z')));
    assert_eq!((e.vtop, e.cy), (0, 4));
}
