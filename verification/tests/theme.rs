use fed::color::{ParseColorError, Rgb};
use fed::error::{ThemeFileError, ThemeParseError};
use fed::theme::{scopes_of, FontStyle, SettingAttributes, Theme, ThemeSetting};
use fed::tree::Node;

fn text(s: &str) -> Node {
    Node::Text(s.to_string())
}

fn dict(entries: Vec<(&str, Node)>) -> Node {
    Node::Dict(entries.into_iter().map(|(k, v)| (k.to_string(), v)).collect())
}

fn rule(scopes: &[&str], foreground: Option<&str>, background: Option<&str>) -> ThemeSetting {
    ThemeSetting {
        scopes: scopes.iter().map(|s| s.to_string()).collect(),
        settings: SettingAttributes {
            background: background.map(|s| s.to_string()),
            foreground: foreground.map(|s| s.to_string()),
            font_style: Some(FontStyle::Italic),
        },
    }
}

fn sample() -> Theme {
    let mut theme = Theme::default();
    theme.name = "sample".to_string();
    theme.foreground = "#111111".to_string();
    theme.background = "#eeeeee".to_string();
    theme.settings = vec![
        rule(&["comment", "string"], Some("#00ff00"), None),
        rule(&["string", "constant"], Some("#0000ff"), Some("#222222")),
        rule(&["variable"], None, None),
    ];
    theme
}

#[test]
fn an_empty_theme() {
    let theme = Theme::default();
    assert_eq!(theme.name, "");
    assert_eq!(theme.foreground, "");
    assert!(theme.settings.is_empty());
    assert_eq!(theme.author, None);
    assert!(!theme.has_valid_defaults());
    let attributes = SettingAttributes::default();
    assert_eq!(attributes.foreground, None);
    assert_eq!(attributes.background, None);
    assert_eq!(attributes.font_style, None);
}

#[test]
fn the_first_rule_for_a_scope_is_found() {
    let theme = sample();
    assert_eq!(theme.get_scope("comment").unwrap().scopes, vec!["comment", "string"]);
    assert_eq!(theme.get_scope("string").unwrap().scopes, vec!["comment", "string"]);
    assert_eq!(theme.get_scope("constant").unwrap().scopes, vec!["string", "constant"]);
    assert_eq!(theme.get_scope("variable").unwrap().scopes, vec!["variable"]);
    assert!(theme.get_scope("keyword").is_none());
    assert!(theme.get_scope("").is_none());
    assert!(theme.get_scope("comm").is_none());
    assert!(theme.settings[0].has_scope("string"));
    assert!(!theme.settings[0].has_scope("constant"));
}

#[test]
fn a_scope_without_a_rule_has_the_default_colours() {
    let theme = sample();
    let style = theme.resolve("keyword");
    assert_eq!(style.foreground, "#111111");
    assert_eq!(style.background, "#eeeeee");
    assert_eq!(style.font_style, None);
    assert_eq!(
        theme.scope_color("keyword"),
        Ok((Rgb { r: 0x11, g: 0x11, b: 0x11 }, Rgb { r: 0xee, g: 0xee, b: 0xee }))
    );
    assert_eq!(theme.scope_color("keyword"), Ok(theme.default_colors()));
    let bare = Theme::default();
    let style = bare.resolve("keyword");
    assert_eq!(style.foreground, "");
    assert_eq!(style.background, "");
    assert_eq!(bare.scope_color("keyword"), Err(ParseColorError::TooShort));
}

#[test]
fn what_a_rule_leaves_out_comes_from_the_theme() {
    let theme = sample();
    let style = theme.resolve("comment");
    assert_eq!(style.foreground, "#00ff00");
    assert_eq!(style.background, "#eeeeee");
    assert_eq!(style.font_style, Some(FontStyle::Italic));
    let style = theme.resolve("constant");
    assert_eq!(style.foreground, "#0000ff");
    assert_eq!(style.background, "#222222");
    let style = theme.resolve("variable");
    assert_eq!(style.foreground, "#111111");
    assert_eq!(style.background, "#eeeeee");
    assert_eq!(style.font_style, Some(FontStyle::Italic));
}

#[test]
fn the_colours_of_a_scope_come_foreground_first() {
    let theme = sample();
    assert_eq!(
        theme.scope_color("constant"),
        Ok((Rgb { r: 0, g: 0, b: 255 }, Rgb { r: 0x22, g: 0x22, b: 0x22 }))
    );
    assert_eq!(
        theme.scope_color("string"),
        Ok((Rgb { r: 0, g: 255, b: 0 }, Rgb { r: 0xee, g: 0xee, b: 0xee }))
    );
    let mut theme = Theme::default();
    theme.foreground = "#c0caf5".to_string();
    theme.background = "#1a1b26".to_string();
    assert_eq!(
        theme.scope_color("keyword"),
        Ok((Rgb { r: 192, g: 202, b: 245 }, Rgb { r: 26, g: 27, b: 38 }))
    );
    assert_eq!(theme.scope_color("keyword"), Ok(theme.default_colors()));
    let mut theme = Theme::default();
    theme.foreground = "#ffffff".to_string();
    theme.background = "#000000".to_string();
    theme.settings = vec![ThemeSetting {
        scopes: vec!["keyword".to_string()],
        settings: SettingAttributes {
            background: None,
            foreground: Some("#ff0000".to_string()),
            font_style: None,
        },
    }];
    assert_eq!(
        theme.scope_color("keyword"),
        Ok((Rgb { r: 255, g: 0, b: 0 }, Rgb { r: 0, g: 0, b: 0 }))
    );
}

#[test]
fn a_colour_that_is_not_well_written_is_an_error() {
    let mut theme = sample();
    theme.settings[1].settings.background = Some("#12".to_string());
    theme.settings[1].settings.foreground = Some("#xyzxyz".to_string());
    assert_eq!(theme.scope_color("constant"), Err(ParseColorError::InvalidDigit));
    theme.settings[1].settings.foreground = None;
    assert_eq!(theme.scope_color("constant"), Err(ParseColorError::TooShort));
    theme.settings[1].settings.background = None;
    assert!(theme.scope_color("constant").is_ok());
    assert!(theme.scope_color("comment").is_ok());
}

#[test]
fn the_default_colours_come_foreground_first() {
    let theme = sample();
    assert!(theme.has_valid_defaults());
    assert_eq!(
        theme.default_colors(),
        (Rgb { r: 0x11, g: 0x11, b: 0x11 }, Rgb { r: 0xee, g: 0xee, b: 0xee })
    );
    let mut theme = sample();
    theme.background = "white".to_string();
    assert!(!theme.has_valid_defaults());
}

#[test]
fn font_styles_by_name() {
    assert_eq!(FontStyle::from_name("bold"), Some(FontStyle::Bold));
    assert_eq!(FontStyle::from_name("italic"), Some(FontStyle::Italic));
    assert_eq!(FontStyle::from_name("bold italic"), Some(FontStyle::BoldItalic));
    assert_eq!(FontStyle::from_name("underline"), Some(FontStyle::Underline));
    assert_eq!(FontStyle::from_name("normal"), None);
    assert_eq!(FontStyle::from_name("Bold"), None);
    assert_eq!(FontStyle::from_name(""), None);
}

#[test]
fn scopes_are_split_at_commas_and_trimmed() {
    assert_eq!(scopes_of("comment"), vec!["comment"]);
    assert_eq!(scopes_of("comment, string.quoted ,keyword"), vec![
        "comment",
        "string.quoted",
        "keyword"
    ]);
    assert_eq!(scopes_of(""), vec![""]);
    assert_eq!(scopes_of("a,,b"), vec!["a", "", "b"]);
    assert_eq!(scopes_of("source.js meta.brace"), vec!["source.js meta.brace"]);
}

#[test]
fn values_of_a_theme_file() {
    let node = dict(vec![
        ("name", text("N")),
        ("list", Node::List(vec![text("a"), Node::Other])),
        ("name", text("second")),
        ("other", Node::Other),
    ]);
    assert!(node.is_dict());
    assert!(!text("x").is_dict());
    assert_eq!(node.get_text("name"), Some("N".to_string()));
    assert_eq!(node.get_text("list"), None);
    assert_eq!(node.get_text("missing"), None);
    assert!(node.get("other").is_some());
    assert!(node.get("nam").is_none());
    assert_eq!(node.get("list").unwrap().as_list().unwrap().len(), 2);
    assert!(node.as_list().is_none());
    assert!(node.as_text().is_none());
    assert_eq!(text("t").as_text(), Some(&"t".to_string()));
    assert!(text("t").get("t").is_none());
    assert_eq!(node.keys(), vec!["name", "list", "name", "other"]);
    assert_eq!(Node::Other.keys(), Vec::<String>::new());
}

fn textmate() -> Node {
    dict(vec![
        ("name", text("GitHub")),
        ("author", text("someone")),
        (
            "settings",
            Node::List(vec![
                dict(vec![(
                    "settings",
                    dict(vec![
                        ("background", text("#ffffff")),
                        ("foreground", text("#333333")),
                        ("caret", text("#111111")),
                        ("invisibles", text("#222222")),
                        ("gutterForeground", text("#444444")),
                        ("gutterBackground", text("#555555")),
                        ("gutterForegroundHighlight", text("#666666")),
                        ("gutterBackgroundHighlight", text("#777777")),
                        ("lineHighlight", text("#888888")),
                        ("selection", text("#999999")),
                    ]),
                )]),
                dict(vec![
                    ("name", text("Comment")),
                    ("scope", text("comment, punctuation.definition.comment")),
                    (
                        "settings",
                        dict(vec![
                            ("fontStyle", text("italic")),
                            ("foreground", text("#969896")),
                        ]),
                    ),
                ]),
                dict(vec![("name", text("No scope")), ("settings", dict(vec![]))]),
                dict(vec![
                    ("name", text("Strong")),
                    ("scope", text("markup.bold")),
                    (
                        "settings",
                        dict(vec![
                            ("fontStyle", text("bold")),
                            ("background", text("#000000")),
                            ("foreground", Node::Other),
                        ]),
                    ),
                ]),
            ]),
        ),
    ])
}

#[test]
fn a_textmate_theme_is_read() {
    let theme = Theme::from_textmate("GitHub.tmTheme", &textmate()).unwrap();
    assert_eq!(theme.name, "GitHub");
    assert_eq!(theme.author, Some("someone".to_string()));
    assert_eq!(theme.background, "#ffffff");
    assert_eq!(theme.foreground, "#333333");
    assert_eq!(theme.caret, Some("#111111".to_string()));
    assert_eq!(theme.invisibles, Some("#222222".to_string()));
    assert_eq!(theme.gutter_foreground, Some("#444444".to_string()));
    assert_eq!(theme.gutter_background, Some("#555555".to_string()));
    assert_eq!(theme.gutter_foreground_highlight, Some("#666666".to_string()));
    assert_eq!(theme.gutter_background_highlight, Some("#777777".to_string()));
    assert_eq!(theme.line_highlight, Some("#888888".to_string()));
    assert_eq!(theme.selection, Some("#999999".to_string()));
    assert_eq!(theme.settings.len(), 2);
    assert_eq!(theme.settings[0].scopes, vec!["comment", "punctuation.definition.comment"]);
    assert_eq!(theme.settings[0].settings.foreground, Some("#969896".to_string()));
    assert_eq!(theme.settings[0].settings.background, None);
    assert_eq!(theme.settings[0].settings.font_style, Some(FontStyle::Italic));
    assert_eq!(theme.settings[1].scopes, vec!["markup.bold"]);
    assert_eq!(theme.settings[1].settings.foreground, None);
    assert_eq!(theme.settings[1].settings.background, Some("#000000".to_string()));
    assert_eq!(theme.settings[1].settings.font_style, Some(FontStyle::Bold));
    assert_eq!(theme.resolve("comment").foreground, "#969896");
    assert_eq!(theme.resolve("keyword").foreground, "#333333");
}

#[test]
fn a_textmate_theme_without_a_name_is_named_after_its_file() {
    let data = dict(vec![(
        "settings",
        Node::List(vec![dict(vec![(
            "settings",
            dict(vec![("background", text("#000000")), ("foreground", text("#ffffff"))]),
        )])]),
    )]);
    let theme = Theme::from_textmate("themes/dark.tmTheme", &data).unwrap();
    assert_eq!(theme.name, "themes/dark.tmTheme");
    assert_eq!(theme.author, None);
    assert_eq!(theme.caret, None);
    assert!(theme.settings.is_empty());
}

fn missing_field(result: Result<Theme, ThemeParseError>) -> String {
    match result {
        Err(ThemeParseError::MissingField(name)) => name,
        other => panic!("{:?}", other.map(|t| t.name)),
    }
}

fn missing_entry(result: Result<Theme, ThemeParseError>) -> (Vec<String>, String) {
    match result {
        Err(ThemeParseError::MissingDictionaryField(keys, name)) => (keys, name),
        other => panic!("{:?}", other.map(|t| t.name)),
    }
}

#[test]
fn what_a_textmate_theme_must_have() {
    assert_eq!(missing_field(Theme::from_textmate("f", &text("x"))), "theme");
    assert_eq!(missing_field(Theme::from_textmate("f", &Node::List(vec![]))), "theme");
    let data = dict(vec![("name", text("n")), ("author", text("a"))]);
    assert_eq!(
        missing_entry(Theme::from_textmate("f", &data)),
        (vec!["name".to_string(), "author".to_string()], "settings".to_string())
    );
    let data = dict(vec![("settings", text("none"))]);
    assert_eq!(
        missing_entry(Theme::from_textmate("f", &data)),
        (vec!["settings".to_string()], "settings".to_string())
    );
    let data = dict(vec![("settings", Node::List(vec![]))]);
    assert_eq!(missing_field(Theme::from_textmate("f", &data)), "main");
    let data = dict(vec![(
        "settings",
        Node::List(vec![dict(vec![("name", text("only a rule"))])]),
    )]);
    assert_eq!(missing_field(Theme::from_textmate("f", &data)), "main");
    let data = dict(vec![(
        "settings",
        Node::List(vec![
            dict(vec![("settings", text("no dictionary"))]),
            dict(vec![("settings", dict(vec![]))]),
        ]),
    )]);
    assert_eq!(missing_field(Theme::from_textmate("f", &data)), "main");
    let data = dict(vec![(
        "settings",
        Node::List(vec![dict(vec![(
            "settings",
            dict(vec![("foreground", text("#ffffff")), ("caret", text("#ffffff"))]),
        )])]),
    )]);
    assert_eq!(
        missing_entry(Theme::from_textmate("f", &data)),
        (vec!["foreground".to_string(), "caret".to_string()], "background".to_string())
    );
    let data = dict(vec![(
        "settings",
        Node::List(vec![dict(vec![(
            "settings",
            dict(vec![("background", text("#ffffff")), ("foreground", Node::Other)]),
        )])]),
    )]);
    assert_eq!(
        missing_entry(Theme::from_textmate("f", &data)),
        (vec!["background".to_string(), "foreground".to_string()], "foreground".to_string())
    );
}

#[test]
fn a_rule_with_scopes_must_have_settings() {
    let data = dict(vec![(
        "settings",
        Node::List(vec![
            dict(vec![(
                "settings",
                dict(vec![("background", text("#000000")), ("foreground", text("#ffffff"))]),
            )]),
            dict(vec![("name", text("r")), ("scope", text("comment"))]),
        ]),
    )]);
    assert_eq!(
        missing_entry(Theme::from_textmate("f", &data)),
        (vec!["name".to_string(), "scope".to_string()], "settings".to_string())
    );
}

const VSCODE: &str = r##"
// a theme with comments
{
    "name": "Tokyo",
    "author": "someone",
    "colors": {
        "editor.background": "#1a1b26",
        "editor.foreground": "#a9b1d6",
        "editorInvisibles.foreground": "#363b54",
        "editorLineNumber.activeForeground": "#737aa2",
        "editorGutter.foreground": "#3b4261",
        "editorGutter.background": "#1f2335",
        "attribute": { "foreground": "#010101" }
    },
    "semanticTokenColors": {
        "comment": { "foreground": "#020202", "fontStyle": "italic" },
        "number": "#ignored",
        "keyword": { "foreground": "#030303" }
    },
    /* token colours */
    "tokenColors": [
        {
            "name": "Keywords",
            "scope": ["keyword, operator", "string"],
            "settings": { "foreground": "#040404", "background": "#050505", "fontStyle": "bold" }
        },
        { "scope": "tag", "settings": { "foreground": "#060606" } },
        { "scope": ["number"] },
        { "scope": ["type", 7], "settings": { "fontStyle": "underline" } },
        "not an object"
    ]
}
"##;

#[test]
fn theme_test_parse() {
    let theme = Theme::parse_vscode("tokyo-night-color-theme.json", VSCODE).unwrap();
    println!("{:#?}", theme);
    assert_eq!(theme.name, "Tokyo");
    assert_eq!(theme.author, Some("someone".to_string()));
    assert_eq!(theme.background, "#1a1b26");
    assert_eq!(theme.foreground, "#a9b1d6");
    assert_eq!(theme.invisibles, Some("#363b54".to_string()));
    assert_eq!(theme.line_highlight, Some("#737aa2".to_string()));
    assert_eq!(theme.gutter_foreground, Some("#3b4261".to_string()));
    assert_eq!(theme.gutter_background, Some("#1f2335".to_string()));
    assert_eq!(theme.caret, None);
    assert_eq!(theme.selection, None);
    assert_eq!(theme.gutter_foreground_highlight, None);
    assert_eq!(theme.gutter_background_highlight, None);
    let rules: Vec<(&str, Option<&str>, Option<&str>, Option<FontStyle>)> = theme
        .settings
        .iter()
        .map(|r| {
            assert_eq!(r.scopes.len(), 1);
            (
                r.scopes[0].as_str(),
                r.settings.foreground.as_deref(),
                r.settings.background.as_deref(),
                r.settings.font_style.clone(),
            )
        })
        .collect();
    assert_eq!(
        rules,
        vec![
            ("entity.other.attribute-name", Some("#010101"), None, None),
            ("comment", Some("#020202"), None, Some(FontStyle::Italic)),
            ("keyword", Some("#040404"), Some("#050505"), Some(FontStyle::Bold)),
            ("keyword.operator", Some("#040404"), Some("#050505"), Some(FontStyle::Bold)),
            ("string", Some("#040404"), Some("#050505"), Some(FontStyle::Bold)),
            ("support.type", None, None, Some(FontStyle::Underline)),
        ]
    );
    assert_eq!(theme.resolve("keyword").foreground, "#040404");
    assert_eq!(theme.resolve("entity.name.function").foreground, "#a9b1d6");
}

#[test]
fn a_scope_that_a_rule_was_made_for_counts_as_set() {
    let text = r##"{ "tokenColors": [
        { "scope": ["module"], "settings": { "foreground": "#aaaaaa" } },
        { "scope": ["entity.name.tag"], "settings": { "foreground": "#bbbbbb" } }
    ] }"##;
    let theme = Theme::parse_vscode("f.json", text).unwrap();
    assert_eq!(theme.name, "f.json");
    assert_eq!(theme.background, "#000000");
    assert_eq!(theme.foreground, "#ffffff");
    assert_eq!(theme.author, None);
    assert_eq!(theme.settings.len(), 1);
    assert_eq!(theme.settings[0].scopes, vec!["entity.name.tag"]);
    assert_eq!(theme.settings[0].settings.foreground, Some("#aaaaaa".to_string()));
    let text = r##"{ "tokenColors": [
        { "scope": ["constant.character.escape"], "settings": { "foreground": "#aaaaaa" } },
        { "scope": ["escape"], "settings": { "foreground": "#bbbbbb" } }
    ] }"##;
    let theme = Theme::parse_vscode("f.json", text).unwrap();
    assert_eq!(theme.settings.len(), 1);
    assert_eq!(theme.settings[0].scopes, vec!["constant.character.escape"]);
    assert_eq!(theme.settings[0].settings.foreground, Some("#bbbbbb".to_string()));
    let text = r##"{ "tokenColors": [
        { "scope": ["escape"], "settings": { "foreground": "#bbbbbb" } },
        { "scope": ["string.escape"], "settings": { "foreground": "#cccccc" } },
        { "scope": ["escape"], "settings": { "foreground": "#dddddd" } }
    ] }"##;
    let theme = Theme::parse_vscode("f.json", text).unwrap();
    assert_eq!(theme.settings.len(), 2);
    assert_eq!(theme.settings[0].settings.foreground, Some("#dddddd".to_string()));
    assert_eq!(theme.settings[1].scopes, vec!["constant.character.escape"]);
    assert_eq!(theme.settings[1].settings.foreground, Some("#cccccc".to_string()));
}

#[test]
fn what_a_vscode_theme_must_have() {
    match Theme::parse_vscode("f.json", "{ not json") {
        Err(ThemeFileError::Json(_)) => {}
        other => panic!("{:?}", other.map(|t| t.name)),
    }
    match Theme::parse_vscode("f.json", "") {
        Err(ThemeFileError::Json(_)) => {}
        other => panic!("{:?}", other.map(|t| t.name)),
    }
    match Theme::parse_vscode("f.json", "[1, 2]") {
        Err(ThemeFileError::Format(ThemeParseError::MissingField(name))) => {
            assert_eq!(name, "theme")
        }
        other => panic!("{:?}", other.map(|t| t.name)),
    }
    match Theme::parse_vscode("f.json", r##"{ "name": "x", "colors": {} }"##) {
        Err(ThemeFileError::Format(ThemeParseError::MissingField(name))) => {
            assert_eq!(name, "tokenColors")
        }
        other => panic!("{:?}", other.map(|t| t.name)),
    }
    match Theme::parse_vscode("f.json", r##"{ "tokenColors": {} }"##) {
        Err(ThemeFileError::Format(ThemeParseError::MissingField(name))) => {
            assert_eq!(name, "tokenColors")
        }
        other => panic!("{:?}", other.map(|t| t.name)),
    }
    assert!(Theme::parse_vscode("f.json", r##"{ "tokenColors": [] }"##).is_ok());
}

#[test]
fn a_vscode_theme_from_a_tree() {
    let data = dict(vec![
        ("name", text("T")),
        ("colors", dict(vec![("editor.foreground", text("#123456"))])),
        (
            "tokenColors",
            Node::List(vec![dict(vec![
                ("scope", Node::List(vec![text(" variable ,type.builtin")])),
                ("settings", dict(vec![("foreground", text("#654321"))])),
            ])]),
        ),
    ]);
    let theme = Theme::from_vscode("f.json", &data).unwrap();
    assert_eq!(theme.name, "T");
    assert_eq!(theme.foreground, "#123456");
    assert_eq!(theme.background, "#000000");
    assert_eq!(theme.settings.len(), 2);
    assert_eq!(theme.settings[0].scopes, vec!["support.type.sys-types"]);
    assert_eq!(theme.settings[1].scopes, vec!["variable"]);
    assert_eq!(missing_field(Theme::from_vscode("f.json", &text("x"))), "theme");
    assert_eq!(missing_field(Theme::from_vscode("f.json", &dict(vec![]))), "tokenColors");
}

const TEXTMATE: &str = r##"<?xml version="1.0" encoding="UTF-8"?>
<!DOCTYPE plist PUBLIC "-//Apple//DTD PLIST 1.0//EN" "http://www.apple.com/DTDs/PropertyList-1.0.dtd">
<plist version="1.0">
<dict>
    <key>name</key>
    <string>GitHub</string>
    <key>settings</key>
    <array>
        <dict>
            <key>settings</key>
            <dict>
                <key>background</key>
                <string>#F8F8FF</string>
                <key>foreground</key>
                <string>#000000</string>
                <key>caret</key>
                <string>#666666</string>
                <key>lineHighlight</key>
                <string>#FFFEEB</string>
            </dict>
        </dict>
        <dict>
            <key>name</key>
            <string>Comment</string>
            <key>scope</key>
            <string>comment, comment.block</string>
            <key>settings</key>
            <dict>
                <key>fontStyle</key>
                <string>italic</string>
                <key>foreground</key>
                <string>#999988</string>
            </dict>
        </dict>
        <dict>
            <key>name</key>
            <string>Keyword</string>
            <key>scope</key>
            <string>keyword</string>
            <key>settings</key>
            <dict>
                <key>fontStyle</key>
                <string>bold</string>
                <key>background</key>
                <string>#111111</string>
                <key>size</key>
                <integer>3</integer>
            </dict>
        </dict>
    </array>
    <key>uuid</key>
    <string>0</string>
</dict>
</plist>
"##;

#[test]
fn a_textmate_theme_file_is_read() {
    let theme = Theme::parse("GitHub.tmTheme", TEXTMATE.as_bytes()).unwrap();
    assert_eq!(theme.name, "GitHub");
    assert_eq!(theme.author, None);
    assert_eq!(theme.background, "#F8F8FF");
    assert_eq!(theme.foreground, "#000000");
    assert_eq!(theme.caret, Some("#666666".to_string()));
    assert_eq!(theme.line_highlight, Some("#FFFEEB".to_string()));
    assert_eq!(theme.selection, None);
    assert_eq!(theme.settings.len(), 2);
    assert_eq!(theme.settings[0].scopes, vec!["comment", "comment.block"]);
    assert_eq!(theme.settings[0].settings.foreground, Some("#999988".to_string()));
    assert_eq!(theme.settings[0].settings.background, None);
    assert_eq!(theme.settings[0].settings.font_style, Some(FontStyle::Italic));
    assert_eq!(theme.settings[1].scopes, vec!["keyword"]);
    assert_eq!(theme.settings[1].settings.foreground, None);
    assert_eq!(theme.settings[1].settings.background, Some("#111111".to_string()));
    assert_eq!(theme.settings[1].settings.font_style, Some(FontStyle::Bold));
    assert!(theme.has_valid_defaults());
    assert_eq!(theme.resolve("comment.block").foreground, "#999988");
    assert_eq!(theme.resolve("string").foreground, "#000000");
}

#[test]
fn what_a_textmate_theme_file_must_be() {
    match Theme::parse("f.tmTheme", b"this is no property list") {
        Err(ThemeFileError::Plist(_)) => {}
        other => panic!("{:?}", other.map(|t| t.name)),
    }
    match Theme::parse("f.tmTheme", b"") {
        Err(ThemeFileError::Plist(_)) => {}
        other => panic!("{:?}", other.map(|t| t.name)),
    }
    let list = r##"<?xml version="1.0" encoding="UTF-8"?>
<plist version="1.0"><array><string>a</string></array></plist>"##;
    match Theme::parse("f.tmTheme", list.as_bytes()) {
        Err(ThemeFileError::Format(ThemeParseError::MissingField(name))) => {
            assert_eq!(name, "theme")
        }
        other => panic!("{:?}", other.map(|t| t.name)),
    }
    let bare = r##"<?xml version="1.0" encoding="UTF-8"?>
<plist version="1.0"><dict><key>name</key><string>n</string></dict></plist>"##;
    match Theme::parse("f.tmTheme", bare.as_bytes()) {
        Err(ThemeFileError::Format(ThemeParseError::MissingDictionaryField(keys, name))) => {
            assert_eq!(keys, vec!["name"]);
            assert_eq!(name, "settings");
        }
        other => panic!("{:?}", other.map(|t| t.name)),
    }
}
