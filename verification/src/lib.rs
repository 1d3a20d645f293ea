//! The core of a modal, keyboard-driven text editor for the terminal.
//!
//! - [`editor`] holds the session: the line buffer, the cursor, the viewport
//!   and the mode, with every motion and every edit, and the meaning of the
//!   keys in each mode. [`content`] says what each edit does to the text as a
//!   whole, and that the cursor stays on a line of the buffer.
//! - [`command`] is the command line, key by key.
//! - [`syntax`] has the kinds of text that a highlighter tells apart, the
//!   chunks of a text, their layout in lines, and the viewport.
//! - [`highlight`] runs the tokenizer over a text and gives the rows of the
//!   screen in the colours of a theme.
//! - [`theme`] is a colour theme and its lookup; [`textmate`] and [`vscode`]
//!   read themes of the two formats, from what stands in a file or from a
//!   [`tree`] of values.
//! - [`color`], [`text`], [`config`] and [`error`] are what the others stand
//!   on.
//!
//! Everything here works on plain values. Reading keys, reading files and
//! painting the terminal are left to the program that uses this library.

pub mod color;
pub mod command;
pub mod config;
pub mod content;
pub mod editor;
pub mod error;
pub mod highlight;
pub mod syntax;
pub mod text;
pub mod textmate;
pub mod theme;
pub mod tree;
pub mod vscode;
