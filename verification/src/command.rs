//! The command line: the text that is typed after `:`, key by key.

use crate::editor::Key;
use crate::text::{chars_of, push_char, string_of};
use vstd::prelude::*;
use vstd::string::*;

verus! {

/// The command after one more key, and whether the command line is done.
/// Escape and enter end it with the command as it stands, backspace takes
/// the last character away, a character is added at the end, and any other
/// key does nothing.
pub open spec fn after_key(command: Seq<char>, key: Key) -> (Seq<char>, bool) {
    match key {
        Key::Esc => (command, true),
        Key::Enter => (command, true),
        Key::Backspace => (
            if command.len() > 0 {
                command.drop_last()
            } else {
                command
            },
            false,
        ),
        Key::Char(c) => (command.push(c), false),
        _ => (command, false),
    }
}

/// Takes one more key on the command line and says whether the command line
/// is done; see [`after_key`].
pub fn command_key(command: &mut String, key: Key) -> (done: bool)
    ensures
        (final(command)@, done) == after_key(old(command)@, key),
{
    match key {
        Key::Esc => true,
        Key::Enter => true,
        Key::Backspace => {
            let chars = chars_of(command.as_str());
            let n = chars.len();
            if n > 0 {
                *command = string_of(chars.as_slice(), 0, n - 1);
                proof {
                    assert(chars@.subrange(0, n - 1) =~= old(command)@.drop_last());
                }
            }
            false
        },
        Key::Char(c) => {
            push_char(command, c);
            false
        },
        _ => false,
    }
}

/// The command line as it is shown: a colon, then the command.
pub fn prompt(command: &str) -> (r: String)
    ensures
        r@ == seq![':'] + command@,
{
    let mut out = String::from_str(":");
    out.append(command);
    proof {
        reveal_strlit(":");
        assert(":"@ =~= seq![':']);
    }
    out
}

} // verus!
