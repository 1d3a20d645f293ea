//! What is wrong with a theme file.

use crate::text::string_views;
use vstd::prelude::*;

verus! {

/// Why a theme file gives no theme.
#[derive(Debug)]
pub enum ThemeParseError {
    /// The file lacks the part of this name.
    MissingField(String),
    /// A dictionary of the file, told by its keys, lacks the entry of this
    /// name.
    MissingDictionaryField(Vec<String>, String),
}

/// The error as a mathematical value.
pub enum ThemeParseErrorView {
    MissingField(Seq<char>),
    MissingDictionaryField(Seq<Seq<char>>, Seq<char>),
}

impl View for ThemeParseError {
    type V = ThemeParseErrorView;

    open spec fn view(&self) -> ThemeParseErrorView {
        match self {
            ThemeParseError::MissingField(name) => ThemeParseErrorView::MissingField(name@),
            ThemeParseError::MissingDictionaryField(keys, name) => {
                ThemeParseErrorView::MissingDictionaryField(string_views(keys@), name@)
            },
        }
    }
}

/// Why the text of a theme file gives no theme.
#[derive(Debug)]
pub enum ThemeFileError {
    /// The text is no JSON.
    Json(serde_jsonrc::Error),
    /// The text is no property list.
    Plist(plist::Error),
    /// What the text holds is no theme.
    Format(ThemeParseError),
}

} // verus!
