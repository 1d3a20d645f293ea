use fed::command::{command_key, prompt};
use fed::editor::Key;

#[test]
fn a_command_is_typed_key_by_key() {
    let mut command = String::new();
    assert!(!command_key(&mut command, Key::Char('1')));
    assert!(!command_key(&mut command, Key::Char('2')));
    assert_eq!(command, "12");
    assert!(!command_key(&mut command, Key::Backspace));
    assert_eq!(command, "1");
    assert!(!command_key(&mut command, Key::Left));
    assert!(!command_key(&mut command, Key::Tab));
    assert_eq!(command, "1");
    assert!(command_key(&mut command, Key::Enter));
    assert_eq!(command, "1");
}

#[test]
fn escape_ends_the_command_line_with_the_command() {
    let mut command = "q".to_string();
    assert!(command_key(&mut command, Key::Esc));
    assert_eq!(command, "q");
}

#[test]
fn backspace_on_an_empty_command_does_nothing() {
    let mut command = String::new();
    assert!(!command_key(&mut command, Key::Backspace));
    assert_eq!(command, "");
    let mut command = "é".to_string();
    assert!(!command_key(&mut command, Key::Backspace));
    assert_eq!(command, "");
}

#[test]
fn the_prompt_is_a_colon_and_the_command() {
    assert_eq!(prompt(""), ":");
    assert_eq!(prompt("42"), ":42");
}
