//! Themes in the TextMate format: a property list that is a dictionary with
//! a name, an author and a list of settings. The entry of the list that has
//! no name holds the colours of the editor itself; each entry with a name is
//! a rule for the scopes that it names.

use crate::error::{ThemeFileError, ThemeParseError, ThemeParseErrorView};
use crate::theme::{
    attributes_of, rule_views, scopes_named, scopes_of, SettingAttributes, Theme, ThemeSetting,
    ThemeSettingView, ThemeView,
};
use crate::tree::{node_views, Node, NodeView};
use vstd::prelude::*;
use vstd::string::*;

verus! {

/// A value of a property list as `plist` holds it: `plist::Value`. Nothing of
/// its inside is known here.
#[verifier::external_type_specification]
#[verifier::external_body]
pub struct ExPlistValue(plist::Value);

/// Why `plist` reads some bytes as no property list: `plist::Error`. Nothing
/// of its inside is known here.
#[verifier::external_type_specification]
#[verifier::external_body]
pub struct ExPlistError(plist::Error);

/// What `plist` reads some bytes as: nothing where the bytes are no property
/// list.
pub uninterp spec fn plist_tree(bytes: Seq<u8>) -> Option<NodeView>;

/// What a value of `plist` holds: its strings, arrays and dictionaries as
/// texts, lists and dictionaries, anything else as a value of another kind.
pub uninterp spec fn plist_value_tree(value: plist::Value) -> NodeView;

/// `plist::Value::from_reader` on bytes in memory: the value that the bytes
/// write as a property list of any encoding, or the error that says why they
/// write none.
#[verifier::external_body]
fn plist_value(bytes: &[u8]) -> (r: Result<plist::Value, plist::Error>)
    ensures
        match r {
            Ok(value) => plist_tree(bytes@) == Some(plist_value_tree(value)),
            Err(_) => plist_tree(bytes@) is None,
        },
{
    plist::Value::from_reader(std::io::Cursor::new(bytes))
}

/// A `plist::Value` as a value of this library, kind for kind: a string as a
/// text, an array as a list of its items, a dictionary as a dictionary of
/// its entries in the order of the dictionary.
#[verifier::external_body]
fn node_of_plist(value: &plist::Value) -> (r: Node)
    ensures
        r@ == plist_value_tree(*value),
{
    match value {
        plist::Value::String(s) => Node::Text(s.clone()),
        plist::Value::Array(items) => Node::List(items.iter().map(node_of_plist).collect()),
        plist::Value::Dictionary(entries) => Node::Dict(
            entries.iter().map(|(k, v)| (k.clone(), node_of_plist(v))).collect(),
        ),
        _ => Node::Other,
    }
}

/// Whether an entry of the list of settings is a rule: a dictionary with a
/// name.
pub open spec fn is_rule(item: NodeView) -> bool {
    item.get("name"@) is Some
}

/// The first entry of the list of settings that is no rule.
pub open spec fn first_main(items: Seq<NodeView>) -> Option<NodeView>
    decreases items.len(),
{
    if items.len() == 0 {
        None
    } else if !is_rule(items[0]) {
        Some(items[0])
    } else {
        first_main(items.drop_first())
    }
}

/// The dictionary of the editor's own colours: what the first entry that is
/// no rule holds under `settings`, where that is a dictionary.
pub open spec fn main_settings(items: Seq<NodeView>) -> Option<NodeView> {
    match first_main(items) {
        Some(main) => match main.get("settings"@) {
            Some(settings) => if settings is Dict {
                Some(settings)
            } else {
                None
            },
            None => None,
        },
        None => None,
    }
}

/// The rule that an entry of the list of settings gives. An entry that is no
/// rule, and a rule that names no scopes, gives none. A rule that names
/// scopes and has no dictionary of settings is an error.
pub open spec fn rule_of(item: NodeView) -> Result<Option<ThemeSettingView>, ThemeParseErrorView> {
    if !is_rule(item) {
        Ok(None)
    } else {
        match item.get_text("scope"@) {
            None => Ok(None),
            Some(scope) => match item.get("settings"@) {
                Some(settings) if settings is Dict => Ok(
                    Some(
                        ThemeSettingView {
                            scopes: scopes_named(scope),
                            settings: attributes_of(settings),
                        },
                    ),
                ),
                _ => Err(
                    ThemeParseErrorView::MissingDictionaryField(item.keys(), "settings"@),
                ),
            },
        }
    }
}

/// The rules that the entries of the list of settings give, in their order,
/// or the error of the first entry that has one.
pub open spec fn rules_of(items: Seq<NodeView>) -> Result<
    Seq<ThemeSettingView>,
    ThemeParseErrorView,
>
    decreases items.len(),
{
    if items.len() == 0 {
        Ok(Seq::<ThemeSettingView>::empty())
    } else {
        match rules_of(items.drop_last()) {
            Err(e) => Err(e),
            Ok(rules) => match rule_of(items.last()) {
                Err(e) => Err(e),
                Ok(Some(rule)) => Ok(rules.push(rule)),
                Ok(None) => Ok(rules),
            },
        }
    }
}

/// The theme that a TextMate theme file holds, `data` being what the file
/// holds and `file_name` its name. The theme is named as the file says, or
/// after the file. The default colours are the `background` and the
/// `foreground` of the editor's own colours, which must be there; the other
/// colours of the editor are taken where they are there.
pub open spec fn textmate_theme(file_name: Seq<char>, data: NodeView) -> Result<
    ThemeView,
    ThemeParseErrorView,
> {
    if !(data is Dict) {
        Err(ThemeParseErrorView::MissingField("theme"@))
    } else {
        match data.get("settings"@) {
            Some(NodeView::List(items)) => match main_settings(items) {
                None => Err(ThemeParseErrorView::MissingField("main"@)),
                Some(main) => match main.get_text("background"@) {
                    None => Err(
                        ThemeParseErrorView::MissingDictionaryField(main.keys(), "background"@),
                    ),
                    Some(background) => match main.get_text("foreground"@) {
                        None => Err(
                            ThemeParseErrorView::MissingDictionaryField(
                                main.keys(),
                                "foreground"@,
                            ),
                        ),
                        Some(foreground) => match rules_of(items) {
                            Err(e) => Err(e),
                            Ok(rules) => Ok(
                                ThemeView {
                                    name: match data.get_text("name"@) {
                                        Some(name) => name,
                                        None => file_name,
                                    },
                                    author: data.get_text("author"@),
                                    background: background,
                                    foreground: foreground,
                                    caret: main.get_text("caret"@),
                                    invisibles: main.get_text("invisibles"@),
                                    settings: rules,
                                    gutter_foreground: main.get_text("gutterForeground"@),
                                    gutter_background: main.get_text("gutterBackground"@),
                                    gutter_foreground_highlight: main.get_text(
                                        "gutterForegroundHighlight"@,
                                    ),
                                    gutter_background_highlight: main.get_text(
                                        "gutterBackgroundHighlight"@,
                                    ),
                                    line_highlight: main.get_text("lineHighlight"@),
                                    selection: main.get_text("selection"@),
                                },
                            ),
                        },
                    },
                },
            },
            _ => Err(ThemeParseErrorView::MissingDictionaryField(data.keys(), "settings"@)),
        }
    }
}

/// Whether `r` is `want` seen through the views.
pub open spec fn theme_is(
    r: Result<Theme, ThemeParseError>,
    want: Result<ThemeView, ThemeParseErrorView>,
) -> bool {
    match want {
        Ok(theme) => r matches Ok(t) && t@ == theme,
        Err(e) => r matches Err(f) && f@ == e,
    }
}

/// The error that says that `dictionary` lacks the entry `name`.
fn missing(dictionary: &Node, name: &str) -> (r: ThemeParseError)
    ensures
        r@ == ThemeParseErrorView::MissingDictionaryField(dictionary@.keys(), name@),
{
    ThemeParseError::MissingDictionaryField(dictionary.keys(), String::from_str(name))
}

/// The dictionary of the editor's own colours; see [`main_settings`].
fn find_main(items: &Vec<Node>) -> (r: Option<&Node>)
    ensures
        match r {
            Some(settings) => main_settings(node_views(items@)) == Some(settings@),
            None => main_settings(node_views(items@)) is None,
        },
{
    let ghost all = node_views(items@);
    let mut i: usize = 0;
    proof {
        assert(all.subrange(0, all.len() as int) =~= all);
    }
    while i < items.len()
        invariant
            i <= items@.len(),
            all == node_views(items@),
            first_main(all) == first_main(all.subrange(i as int, all.len() as int)),
        decreases items@.len() - i,
    {
        proof {
            let rest = all.subrange(i as int, all.len() as int);
            assert(rest[0] == items@[i as int]@);
            assert(rest.drop_first() =~= all.subrange(i + 1, all.len() as int));
        }
        if items[i].get("name").is_none() {
            return match items[i].get("settings") {
                Some(settings) => if settings.is_dict() {
                    Some(settings)
                } else {
                    None
                },
                None => None,
            };
        }
        i = i + 1;
    }
    None
}

/// The rule that an entry of the list of settings gives; see [`rule_of`].
fn read_rule(item: &Node) -> (r: Result<Option<ThemeSetting>, ThemeParseError>)
    ensures
        match rule_of(item@) {
            Ok(Some(rule)) => r matches Ok(Some(t)) && t@ == rule,
            Ok(None) => r matches Ok(None),
            Err(e) => r matches Err(f) && f@ == e,
        },
{
    if item.get("name").is_none() {
        return Ok(None);
    }
    let scope = match item.get_text("scope") {
        Some(scope) => scope,
        None => {
            return Ok(None);
        },
    };
    match item.get("settings") {
        Some(settings) => {
            if settings.is_dict() {
                Ok(
                    Some(
                        ThemeSetting {
                            scopes: scopes_of(scope.as_str()),
                            settings: SettingAttributes::from_node(settings),
                        },
                    ),
                )
            } else {
                Err(missing(item, "settings"))
            }
        },
        None => Err(missing(item, "settings")),
    }
}

/// The rules that the entries of the list of settings give; see
/// [`rules_of`].
fn read_rules(items: &Vec<Node>) -> (r: Result<Vec<ThemeSetting>, ThemeParseError>)
    ensures
        match rules_of(node_views(items@)) {
            Ok(rules) => r matches Ok(v) && rule_views(v@) == rules,
            Err(e) => r matches Err(f) && f@ == e,
        },
{
    let ghost all = node_views(items@);
    let mut rules: Vec<ThemeSetting> = Vec::new();
    let mut i: usize = 0;
    proof {
        assert(all.take(0) =~= Seq::<NodeView>::empty());
        assert(rule_views(rules@) =~= Seq::<ThemeSettingView>::empty());
    }
    while i < items.len()
        invariant
            i <= items@.len(),
            all == node_views(items@),
            rules_of(all.take(i as int)) == Ok::<Seq<ThemeSettingView>, ThemeParseErrorView>(
                rule_views(rules@),
            ),
        decreases items@.len() - i,
    {
        proof {
            assert(all.take(i + 1).drop_last() =~= all.take(i as int));
            assert(all.take(i + 1).last() == items@[i as int]@);
            lemma_rules_error_stays(all, i + 1);
        }
        match read_rule(&items[i]) {
            Err(e) => {
                return Err(e);
            },
            Ok(Some(rule)) => {
                let ghost before = rule_views(rules@);
                let ghost view = rule@;
                rules.push(rule);
                proof {
                    assert(rule_views(rules@) =~= before.push(view));
                }
            },
            Ok(None) => {},
        }
        i = i + 1;
    }
    proof {
        assert(all.take(items@.len() as int) =~= all);
    }
    Ok(rules)
}

/// The error of the rules is the error of the first entries that have one.
pub proof fn lemma_rules_error_stays(items: Seq<NodeView>, n: int)
    requires
        0 <= n <= items.len(),
    ensures
        rules_of(items.take(n)) is Err ==> rules_of(items) == rules_of(items.take(n)),
    decreases items.len() - n,
{
    if n < items.len() {
        assert(items.take(n + 1).drop_last() =~= items.take(n));
        lemma_rules_error_stays(items, n + 1);
    } else {
        assert(items.take(n) =~= items);
    }
}

impl Theme {
    /// The theme that the property list of a TextMate theme file holds; see
    /// [`textmate_theme`]. `data` is what the file holds, `file_name` the
    /// name of the file.
    pub fn from_textmate(file_name: &str, data: &Node) -> (r: Result<Theme, ThemeParseError>)
        ensures
            theme_is(r, textmate_theme(file_name@, data@)),
    {
        if !data.is_dict() {
            return Err(ThemeParseError::MissingField(String::from_str("theme")));
        }
        let items = match data.get("settings") {
            Some(settings) => match settings.as_list() {
                Some(items) => items,
                None => {
                    return Err(missing(data, "settings"));
                },
            },
            None => {
                return Err(missing(data, "settings"));
            },
        };
        let main = match find_main(items) {
            Some(main) => main,
            None => {
                return Err(ThemeParseError::MissingField(String::from_str("main")));
            },
        };
        let background = match main.get_text("background") {
            Some(color) => color,
            None => {
                return Err(missing(main, "background"));
            },
        };
        let foreground = match main.get_text("foreground") {
            Some(color) => color,
            None => {
                return Err(missing(main, "foreground"));
            },
        };
        let settings = match read_rules(items) {
            Ok(rules) => rules,
            Err(e) => {
                return Err(e);
            },
        };
        let name = match data.get_text("name") {
            Some(name) => name,
            None => String::from_str(file_name),
        };
        Ok(
            Theme {
                name,
                author: data.get_text("author"),
                background,
                foreground,
                caret: main.get_text("caret"),
                invisibles: main.get_text("invisibles"),
                settings,
                gutter_foreground: main.get_text("gutterForeground"),
                gutter_background: main.get_text("gutterBackground"),
                gutter_foreground_highlight: main.get_text("gutterForegroundHighlight"),
                gutter_background_highlight: main.get_text("gutterBackgroundHighlight"),
                line_highlight: main.get_text("lineHighlight"),
                selection: main.get_text("selection"),
            },
        )
    }

    /// The theme that a TextMate theme file holds. `contents` is what stands
    /// in the file, `file_name` its name. Bytes that are no property list
    /// give the error of the property list reader; a property list gives
    /// what [`textmate_theme`] makes of it.
    pub fn parse(file_name: &str, contents: &[u8]) -> (r: Result<Theme, ThemeFileError>)
        ensures
            match plist_tree(contents@) {
                None => r matches Err(ThemeFileError::Plist(_)),
                Some(data) => match textmate_theme(file_name@, data) {
                    Ok(theme) => r matches Ok(t) && t@ == theme,
                    Err(e) => r matches Err(ThemeFileError::Format(f)) && f@ == e,
                },
            },
    {
        match plist_value(contents) {
            Err(e) => Err(ThemeFileError::Plist(e)),
            Ok(value) => {
                let data = node_of_plist(&value);
                match Theme::from_textmate(file_name, &data) {
                    Ok(theme) => Ok(theme),
                    Err(e) => Err(ThemeFileError::Format(e)),
                }
            },
        }
    }
}

} // verus!
