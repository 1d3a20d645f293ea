//! The editor's settings.

use vstd::prelude::*;
use vstd::std_specs::convert::FromSpecImpl;

verus! {

/// The settings as a settings file holds them: each may be left out.
#[derive(Debug)]
pub struct ConfigFile {
    pub faded_line_numbers: Option<bool>,
    pub tab_size: Option<u8>,
    pub tab_to_spaces: Option<bool>,
    pub mouse_scroll_lines: Option<u8>,
    pub theme: Option<String>,
}

/// The settings in force.
#[derive(Debug)]
pub struct Config {
    /// Whether the line numbers in the gutter are drawn darker than the text.
    pub faded_line_numbers: bool,
    /// How many spaces the tab key inserts.
    pub tab_size: u8,
    pub tab_to_spaces: bool,
    /// How many rows one notch of the mouse wheel scrolls.
    pub mouse_scroll_lines: u8,
    /// The path of the theme file, if one was chosen.
    pub theme: Option<String>,
}

impl Config {
    /// What holds where the settings file says nothing.
    pub open spec fn defaults() -> Config {
        Config {
            faded_line_numbers: true,
            tab_size: 4,
            tab_to_spaces: true,
            mouse_scroll_lines: 3,
            theme: None,
        }
    }

    /// The settings that `file` asks for: each setting that it leaves out has
    /// its default.
    pub open spec fn of_file(file: ConfigFile) -> Config {
        Config {
            faded_line_numbers: match file.faded_line_numbers {
                Some(v) => v,
                None => true,
            },
            tab_size: match file.tab_size {
                Some(v) => v,
                None => 4,
            },
            tab_to_spaces: match file.tab_to_spaces {
                Some(v) => v,
                None => true,
            },
            mouse_scroll_lines: match file.mouse_scroll_lines {
                Some(v) => v,
                None => 3,
            },
            theme: file.theme,
        }
    }
}

impl Default for Config {
    fn default() -> (r: Self)
        ensures
            r == Config::defaults(),
    {
        Config {
            faded_line_numbers: true,
            tab_size: 4,
            tab_to_spaces: true,
            mouse_scroll_lines: 3,
            theme: None,
        }
    }
}

impl From<ConfigFile> for Config {
    fn from(config: ConfigFile) -> (r: Self) {
        Config {
            faded_line_numbers: match config.faded_line_numbers {
                Some(v) => v,
                None => true,
            },
            tab_size: match config.tab_size {
                Some(v) => v,
                None => 4,
            },
            tab_to_spaces: match config.tab_to_spaces {
                Some(v) => v,
                None => true,
            },
            mouse_scroll_lines: match config.mouse_scroll_lines {
                Some(v) => v,
                None => 3,
            },
            theme: config.theme,
        }
    }
}

impl FromSpecImpl<ConfigFile> for Config {
    open spec fn obeys_from_spec() -> bool {
        true
    }

    open spec fn from_spec(config: ConfigFile) -> Config {
        Config::of_file(config)
    }
}

/// A settings file that says nothing leaves every setting at its default.
pub proof fn lemma_empty_file_gives_defaults()
    ensures
        Config::of_file(
            ConfigFile {
                faded_line_numbers: None,
                tab_size: None,
                tab_to_spaces: None,
                mouse_scroll_lines: None,
                theme: None,
            },
        ) == Config::defaults(),
{
}

} // verus!
