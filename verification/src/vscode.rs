//! Themes in the format of VS Code: a JSON text, comments allowed, with a map
//! of the editor's colours, a map of colours for semantic tokens, and a list
//! of colours for tokens. The scopes that the file names are carried over to
//! the scopes that the rest of the library asks for by a fixed table.

use crate::error::{ThemeFileError, ThemeParseError, ThemeParseErrorView};
use crate::text::string_views;
use crate::theme::{
    attributes_of, rule_views, scopes_named, scopes_of, SettingAttributes, Theme, ThemeSetting,
    ThemeSettingView, ThemeView,
};
use crate::tree::{lemma_dict_view, node_views, Node, NodeView};
use vstd::hash_map::StringHashMap;
use vstd::prelude::*;
use vstd::string::*;

verus! {

/// A JSON value as `serde_jsonrc` holds it: `serde_jsonrc::Value`. Nothing
/// of its inside is known here.
#[verifier::external_type_specification]
#[verifier::external_body]
pub struct ExJsonValue(serde_jsonrc::Value);

/// Why `serde_jsonrc` reads a text as no JSON: `serde_jsonrc::Error`. Nothing
/// of its inside is known here.
#[verifier::external_type_specification]
#[verifier::external_body]
pub struct ExJsonError(serde_jsonrc::Error);

/// What `serde_jsonrc` reads a text as: nothing where the text is no JSON.
pub uninterp spec fn json_tree(text: Seq<char>) -> Option<NodeView>;

/// What a value of `serde_jsonrc` holds: its strings, arrays and objects as
/// texts, lists and dictionaries, anything else as a value of another kind.
pub uninterp spec fn json_value_tree(value: serde_jsonrc::Value) -> NodeView;

/// `serde_jsonrc::from_str` for a `serde_jsonrc::Value`: the value that the
/// text writes, or the error that says why it writes none.
#[verifier::external_body]
fn json_value(text: &str) -> (r: Result<serde_jsonrc::Value, serde_jsonrc::Error>)
    ensures
        match r {
            Ok(value) => json_tree(text@) == Some(json_value_tree(value)),
            Err(_) => json_tree(text@) is None,
        },
{
    serde_jsonrc::from_str::<serde_jsonrc::Value>(text)
}

/// A `serde_jsonrc::Value` as a value of this library, kind for kind: a
/// string as a text, an array as a list of its items, an object as a
/// dictionary of its members in the order of the object.
#[verifier::external_body]
fn node_of_json(value: &serde_jsonrc::Value) -> (r: Node)
    ensures
        r@ == json_value_tree(*value),
{
    match value {
        serde_jsonrc::Value::String(s) => Node::Text(s.clone()),
        serde_jsonrc::Value::Array(items) => Node::List(items.iter().map(node_of_json).collect()),
        serde_jsonrc::Value::Object(members) => Node::Dict(
            members.iter().map(|(k, v)| (k.clone(), node_of_json(v))).collect(),
        ),
        _ => Node::Other,
    }
}

/// The scopes of a file with what each is set to. Setting a scope anew
/// replaces what it was set to before.
pub type Scopes = Map<Seq<char>, NodeView>;

/// `scopes` with the entries of a dictionary whose values are dictionaries
/// taken in, in their order.
pub open spec fn with_objects_in(scopes: Scopes, entries: Seq<(Seq<char>, NodeView)>) -> Scopes
    decreases entries.len(),
{
    if entries.len() == 0 {
        scopes
    } else {
        let before = with_objects_in(scopes, entries.drop_last());
        if entries.last().1 is Dict {
            before.insert(entries.last().0, entries.last().1)
        } else {
            before
        }
    }
}

/// `scopes` with the scopes that a map of colours declares: its members
/// that are dictionaries. A value that is no dictionary declares none.
pub open spec fn with_objects(scopes: Scopes, node: Option<NodeView>) -> Scopes {
    match node {
        Some(NodeView::Dict(entries)) => with_objects_in(scopes, entries),
        _ => scopes,
    }
}

/// `scopes` with each of `names` set to `settings`.
pub open spec fn with_each(scopes: Scopes, names: Seq<Seq<char>>, settings: NodeView) -> Scopes
    decreases names.len(),
{
    if names.len() == 0 {
        scopes
    } else {
        with_each(scopes, names.drop_last(), settings).insert(names.last(), settings)
    }
}

/// `scopes` with the scopes that the list `names` of a token colour
/// declares, each set to the settings of the token colour. An item of the
/// list that is a text names the scopes between its commas; any other item
/// names none.
pub open spec fn with_named(scopes: Scopes, names: Seq<NodeView>, settings: NodeView) -> Scopes
    decreases names.len(),
{
    if names.len() == 0 {
        scopes
    } else {
        let before = with_named(scopes, names.drop_last(), settings);
        match names.last().text() {
            Some(text) => with_each(before, scopes_named(text), settings),
            None => before,
        }
    }
}

/// `scopes` with the scopes that one token colour declares: those of the
/// list under `scope`, set to the dictionary under `settings`. A token
/// colour that lacks either declares none.
pub open spec fn with_token(scopes: Scopes, item: NodeView) -> Scopes {
    match (item.get("settings"@), item.get("scope"@)) {
        (Some(settings), Some(NodeView::List(names))) => if settings is Dict {
            with_named(scopes, names, settings)
        } else {
            scopes
        },
        _ => scopes,
    }
}

/// `scopes` with the scopes that the token colours declare, in their order.
pub open spec fn with_tokens(scopes: Scopes, items: Seq<NodeView>) -> Scopes
    decreases items.len(),
{
    if items.len() == 0 {
        scopes
    } else {
        with_token(with_tokens(scopes, items.drop_last()), items.last())
    }
}

/// The scopes that a theme file declares: those of its colours, then those
/// of its colours for semantic tokens, then those of its token colours, a
/// later one replacing an earlier one of the same scope.
pub open spec fn declared_scopes(data: NodeView, token_colors: Seq<NodeView>) -> Scopes {
    with_tokens(
        with_objects(
            with_objects(Map::<Seq<char>, NodeView>::empty(), data.get("colors"@)),
            data.get("semanticTokenColors"@),
        ),
        token_colors,
    )
}

/// The table by which scopes are carried over: each scope on the left, if
/// the file sets it, gives a rule for the scope on the right.
pub open spec fn mappings() -> Seq<(Seq<char>, Seq<char>)> {
    seq![
        ("attribute"@, "entity.other.attribute-name"@),
        ("boolean"@, "constant.language"@),
        ("comment"@, "comment"@),
        ("comment.documentation"@, "comment.block.documentation"@),
        ("constant"@, "variable.other.constant"@),
        ("constant.builtin"@, "*.defaultLibrary"@),
        ("constructor"@, "variable.function.constructor"@),
        ("embedded"@, "punctuation.section.embedded"@),
        ("error"@, "invalid"@),
        ("escape"@, "constant.character.escape"@),
        ("function"@, "entity.name.function"@),
        ("function.builtin"@, "support.function"@),
        ("keyword"@, "keyword"@),
        ("markup"@, "markup"@),
        ("markup.bold"@, "markup.bold"@),
        ("markup.heading"@, "heading.1.markdown"@),
        ("markup.italic"@, "markup.italic"@),
        ("markup.link"@, "markup.underline.link"@),
        ("markup.quote"@, "markup.quote"@),
        ("markup.raw"@, "markup.inline.raw"@),
        ("module"@, "entity.name.tag"@),
        ("number"@, "constant.numeric"@),
        ("operator"@, "keyword.operator"@),
        ("property"@, "variable.other.property"@),
        ("property.builtin"@, "property.defaultLibrary"@),
        ("punctuation"@, "punctuation"@),
        ("string"@, "string"@),
        ("string.escape"@, "constant.character.escape"@),
        ("string.regexp"@, "string.regexp"@),
        ("string.special.symbol"@, "constant.other.symbol"@),
        ("tag"@, "entity.name.tag"@),
        ("type"@, "support.type"@),
        ("type.builtin"@, "support.type.sys-types"@),
        ("variable"@, "variable"@),
        ("variable.builtin"@, "variable.defaultLibrary"@),
        ("variable.member"@, "variable.other.member"@),
        ("variable.parameter"@, "variable.parameter"@),
    ]
}

/// The rules that have been made, and the scopes as they stand.
pub struct Mapped {
    pub rules: Seq<ThemeSettingView>,
    pub scopes: Scopes,
}

/// The rules that `table` makes of `scopes`. The pairs of the table are
/// taken in their order. Where the scopes set the left scope of a pair, a
/// rule is made for its right scope with what the left one is set to, and
/// the right scope is from then on set to the same.
pub open spec fn map_scopes(scopes: Scopes, table: Seq<(Seq<char>, Seq<char>)>) -> Mapped
    decreases table.len(),
{
    if table.len() == 0 {
        Mapped { rules: Seq::<ThemeSettingView>::empty(), scopes: scopes }
    } else {
        let before = map_scopes(scopes, table.drop_last());
        let (from, to) = table.last();
        if before.scopes.contains_key(from) {
            let settings = before.scopes[from];
            Mapped {
                rules: before.rules.push(
                    ThemeSettingView { scopes: seq![to], settings: attributes_of(settings) },
                ),
                scopes: before.scopes.insert(to, settings),
            }
        } else {
            before
        }
    }
}

/// The colour of the editor that a theme file sets under `key`.
pub open spec fn editor_color(data: NodeView, key: Seq<char>) -> Option<Seq<char>> {
    match data.get("colors"@) {
        Some(colors) => colors.get_text(key),
        None => None,
    }
}

/// The theme that a theme file in the format of VS Code holds, `data` being
/// what the file holds and `file_name` its name. The theme is named as the
/// file says, or after the file. The default colours are those of the
/// editor, or white on black where the file sets none. The rules are those
/// that the table of scopes makes of the scopes of the file.
pub open spec fn vscode_theme(file_name: Seq<char>, data: NodeView) -> Result<
    ThemeView,
    ThemeParseErrorView,
> {
    if !(data is Dict) {
        Err(ThemeParseErrorView::MissingField("theme"@))
    } else {
        match data.get("tokenColors"@) {
            Some(NodeView::List(token_colors)) => Ok(
                ThemeView {
                    name: match data.get_text("name"@) {
                        Some(name) => name,
                        None => file_name,
                    },
                    author: data.get_text("author"@),
                    background: match editor_color(data, "editor.background"@) {
                        Some(color) => color,
                        None => "#000000"@,
                    },
                    foreground: match editor_color(data, "editor.foreground"@) {
                        Some(color) => color,
                        None => "#ffffff"@,
                    },
                    caret: None,
                    invisibles: editor_color(data, "editorInvisibles.foreground"@),
                    settings: map_scopes(declared_scopes(data, token_colors), mappings()).rules,
                    gutter_foreground: editor_color(data, "editorGutter.foreground"@),
                    gutter_background: editor_color(data, "editorGutter.background"@),
                    gutter_foreground_highlight: None,
                    gutter_background_highlight: None,
                    line_highlight: editor_color(data, "editorLineNumber.activeForeground"@),
                    selection: None,
                },
            ),
            _ => Err(ThemeParseErrorView::MissingField("tokenColors"@)),
        }
    }
}

/// The views of what the scopes of a table are set to.
pub open spec fn scope_views(scopes: Map<Seq<char>, &Node>) -> Scopes {
    Map::new(|key: Seq<char>| scopes.contains_key(key), |key: Seq<char>| scopes[key]@)
}

/// Setting a scope in a table sets it in the view of the table.
pub proof fn lemma_scope_views_insert(scopes: Map<Seq<char>, &Node>, key: Seq<char>, node: &Node)
    ensures
        scope_views(scopes.insert(key, node)) == scope_views(scopes).insert(key, node@),
{
    assert(scope_views(scopes.insert(key, node)) =~= scope_views(scopes).insert(key, node@));
}

/// The views of a table of scopes.
pub open spec fn table_views(table: Seq<(&'static str, &'static str)>) -> Seq<
    (Seq<char>, Seq<char>),
> {
    Seq::new(table.len(), |i: int| (table[i].0@, table[i].1@))
}

/// The table by which scopes are carried over; see [`mappings`].
fn mapping_table() -> (table: Vec<(&'static str, &'static str)>)
    ensures
        table_views(table@) == mappings(),
{
    let mut table: Vec<(&'static str, &'static str)> = Vec::new();
    table.push(("attribute", "entity.other.attribute-name"));
    table.push(("boolean", "constant.language"));
    table.push(("comment", "comment"));
    table.push(("comment.documentation", "comment.block.documentation"));
    table.push(("constant", "variable.other.constant"));
    table.push(("constant.builtin", "*.defaultLibrary"));
    table.push(("constructor", "variable.function.constructor"));
    table.push(("embedded", "punctuation.section.embedded"));
    table.push(("error", "invalid"));
    table.push(("escape", "constant.character.escape"));
    table.push(("function", "entity.name.function"));
    table.push(("function.builtin", "support.function"));
    table.push(("keyword", "keyword"));
    table.push(("markup", "markup"));
    table.push(("markup.bold", "markup.bold"));
    table.push(("markup.heading", "heading.1.markdown"));
    table.push(("markup.italic", "markup.italic"));
    table.push(("markup.link", "markup.underline.link"));
    table.push(("markup.quote", "markup.quote"));
    table.push(("markup.raw", "markup.inline.raw"));
    table.push(("module", "entity.name.tag"));
    table.push(("number", "constant.numeric"));
    table.push(("operator", "keyword.operator"));
    table.push(("property", "variable.other.property"));
    table.push(("property.builtin", "property.defaultLibrary"));
    table.push(("punctuation", "punctuation"));
    table.push(("string", "string"));
    table.push(("string.escape", "constant.character.escape"));
    table.push(("string.regexp", "string.regexp"));
    table.push(("string.special.symbol", "constant.other.symbol"));
    table.push(("tag", "entity.name.tag"));
    table.push(("type", "support.type"));
    table.push(("type.builtin", "support.type.sys-types"));
    table.push(("variable", "variable"));
    table.push(("variable.builtin", "variable.defaultLibrary"));
    table.push(("variable.member", "variable.other.member"));
    table.push(("variable.parameter", "variable.parameter"));
    proof {
        assert(table_views(table@) =~= mappings());
    }
    table
}

/// Takes in the scopes that a map of colours declares; see
/// [`with_objects`].
fn add_objects<'a>(scopes: &mut StringHashMap<&'a Node>, node: Option<&'a Node>)
    ensures
        scope_views(final(scopes)@) == with_objects(
            scope_views(old(scopes)@),
            match node {
                Some(n) => Some(n@),
                None => None,
            },
        ),
{
    let ghost start = scope_views(scopes@);
    match node {
        Some(Node::Dict(entries)) => {
            let ghost all = node.unwrap()@->Dict_0;
            let mut i: usize = 0;
            proof {
                lemma_dict_view(*node.unwrap());
                assert(all.take(0) =~= Seq::<(Seq<char>, NodeView)>::empty());
            }
            while i < entries.len()
                invariant
                    i <= entries@.len(),
                    all.len() == entries@.len(),
                    forall|k: int|
                        0 <= k < all.len() ==> #[trigger] all[k] == (
                            entries@[k].0@,
                            entries@[k].1@,
                        ),
                    scope_views(scopes@) == with_objects_in(start, all.take(i as int)),
                decreases entries@.len() - i,
            {
                proof {
                    assert(all.take(i + 1).drop_last() =~= all.take(i as int));
                    assert(all.take(i + 1).last() == all[i as int]);
                }
                if entries[i].1.is_dict() {
                    proof {
                        lemma_scope_views_insert(
                            scopes@,
                            entries@[i as int].0@,
                            &entries@[i as int].1,
                        );
                    }
                    scopes.insert(entries[i].0.clone(), &entries[i].1);
                }
                i = i + 1;
            }
            proof {
                assert(all.take(entries@.len() as int) =~= all);
            }
        },
        _ => {},
    }
}

/// Takes in the scopes that the list `names` of a token colour declares; see
/// [`with_named`].
fn add_named<'a>(scopes: &mut StringHashMap<&'a Node>, names: &Vec<Node>, settings: &'a Node)
    ensures
        scope_views(final(scopes)@) == with_named(
            scope_views(old(scopes)@),
            node_views(names@),
            settings@,
        ),
{
    let ghost start = scope_views(scopes@);
    let ghost all = node_views(names@);
    let mut i: usize = 0;
    proof {
        assert(all.take(0) =~= Seq::<NodeView>::empty());
    }
    while i < names.len()
        invariant
            i <= names@.len(),
            all == node_views(names@),
            scope_views(scopes@) == with_named(start, all.take(i as int), settings@),
        decreases names@.len() - i,
    {
        proof {
            assert(all.take(i + 1).drop_last() =~= all.take(i as int));
            assert(all.take(i + 1).last() == names@[i as int]@);
        }
        match names[i].as_text() {
            Some(text) => {
                let parts = scopes_of(text.as_str());
                let ghost base = scope_views(scopes@);
                let ghost want = scopes_named(text@);
                let mut k: usize = 0;
                proof {
                    assert(string_views(parts@).len() == parts@.len());
                    assert(want.take(0) =~= Seq::<Seq<char>>::empty());
                }
                while k < parts.len()
                    invariant
                        k <= parts@.len(),
                        string_views(parts@) == want,
                        want.len() == parts@.len(),
                        scope_views(scopes@) == with_each(base, want.take(k as int), settings@),
                    decreases parts@.len() - k,
                {
                    proof {
                        assert(string_views(parts@)[k as int] == parts@[k as int]@);
                        assert(want.take(k + 1).drop_last() =~= want.take(k as int));
                        assert(want.take(k + 1).last() == want[k as int]);
                        lemma_scope_views_insert(scopes@, parts@[k as int]@, settings);
                    }
                    scopes.insert(parts[k].clone(), settings);
                    k = k + 1;
                }
                proof {
                    assert(want.take(parts@.len() as int) =~= want);
                }
            },
            None => {},
        }
        i = i + 1;
    }
    proof {
        assert(all.take(names@.len() as int) =~= all);
    }
}

/// Takes in the scopes that the token colours declare; see [`with_tokens`].
fn add_token_colors<'a>(scopes: &mut StringHashMap<&'a Node>, items: &'a Vec<Node>)
    ensures
        scope_views(final(scopes)@) == with_tokens(scope_views(old(scopes)@), node_views(items@)),
{
    let ghost start = scope_views(scopes@);
    let ghost all = node_views(items@);
    let mut i: usize = 0;
    proof {
        assert(all.take(0) =~= Seq::<NodeView>::empty());
    }
    while i < items.len()
        invariant
            i <= items@.len(),
            all == node_views(items@),
            scope_views(scopes@) == with_tokens(start, all.take(i as int)),
        decreases items@.len() - i,
    {
        proof {
            assert(all.take(i + 1).drop_last() =~= all.take(i as int));
            assert(all.take(i + 1).last() == items@[i as int]@);
        }
        let item = &items[i];
        match item.get("settings") {
            Some(settings) => {
                if settings.is_dict() {
                    match item.get("scope") {
                        Some(scope) => match scope.as_list() {
                            Some(names) => {
                                add_named(scopes, names, settings);
                            },
                            None => {},
                        },
                        None => {},
                    }
                }
            },
            None => {},
        }
        i = i + 1;
    }
    proof {
        assert(all.take(items@.len() as int) =~= all);
    }
}

/// The rules that the table of scopes makes of `scopes`; see
/// [`map_scopes`].
fn make_rules<'a>(scopes: StringHashMap<&'a Node>) -> (rules: Vec<ThemeSetting>)
    ensures
        rule_views(rules@) == map_scopes(scope_views(scopes@), mappings()).rules,
{
    let ghost start = scope_views(scopes@);
    let mut scopes = scopes;
    let table = mapping_table();
    let ghost pairs = mappings();
    let mut rules: Vec<ThemeSetting> = Vec::new();
    let mut i: usize = 0;
    proof {
        assert(table_views(table@).len() == table@.len());
        assert(pairs.take(0) =~= Seq::<(Seq<char>, Seq<char>)>::empty());
        assert(rule_views(rules@) =~= Seq::<ThemeSettingView>::empty());
    }
    while i < table.len()
        invariant
            i <= table@.len(),
            pairs == table_views(table@),
            pairs.len() == table@.len(),
            map_scopes(start, pairs.take(i as int)) == (Mapped {
                rules: rule_views(rules@),
                scopes: scope_views(scopes@),
            }),
        decreases table@.len() - i,
    {
        let (from, to) = table[i];
        proof {
            assert(pairs.take(i + 1).drop_last() =~= pairs.take(i as int));
            assert(pairs.take(i + 1).last() == pairs[i as int]);
            assert(pairs[i as int] == (from@, to@));
        }
        let found = match scopes.get(from) {
            Some(settings) => Some(*settings),
            None => None,
        };
        match found {
            Some(settings) => {
                let ghost rules_before = rule_views(rules@);
                let mut names: Vec<String> = Vec::new();
                names.push(String::from_str(to));
                let rule = ThemeSetting {
                    scopes: names,
                    settings: SettingAttributes::from_node(settings),
                };
                proof {
                    assert(rule@.scopes =~= seq![to@]);
                    lemma_scope_views_insert(scopes@, to@, settings);
                }
                let ghost view = rule@;
                rules.push(rule);
                scopes.insert(String::from_str(to), settings);
                proof {
                    assert(rule_views(rules@) =~= rules_before.push(view));
                }
            },
            None => {},
        }
        i = i + 1;
    }
    proof {
        assert(pairs.take(table@.len() as int) =~= pairs);
    }
    rules
}

/// The colour of the editor that a theme file sets under `key`; see
/// [`editor_color`].
fn editor_color_of(data: &Node, key: &str) -> (r: Option<String>)
    ensures
        crate::theme::text_view(r) == editor_color(data@, key@),
{
    match data.get("colors") {
        Some(colors) => colors.get_text(key),
        None => None,
    }
}

impl Theme {
    /// The theme that the JSON of a theme file in the format of VS Code
    /// holds; see [`vscode_theme`]. `data` is what the file holds,
    /// `file_name` the name of the file.
    pub fn from_vscode(file_name: &str, data: &Node) -> (r: Result<Theme, ThemeParseError>)
        ensures
            crate::textmate::theme_is(r, vscode_theme(file_name@, data@)),
    {
        if !data.is_dict() {
            return Err(ThemeParseError::MissingField(String::from_str("theme")));
        }
        let mut scopes: StringHashMap<&Node> = StringHashMap::new();
        proof {
            assert(scope_views(scopes@) =~= Map::<Seq<char>, NodeView>::empty());
        }
        add_objects(&mut scopes, data.get("colors"));
        add_objects(&mut scopes, data.get("semanticTokenColors"));
        let token_colors = match data.get("tokenColors") {
            Some(node) => match node.as_list() {
                Some(items) => items,
                None => {
                    return Err(ThemeParseError::MissingField(String::from_str("tokenColors")));
                },
            },
            None => {
                return Err(ThemeParseError::MissingField(String::from_str("tokenColors")));
            },
        };
        add_token_colors(&mut scopes, token_colors);
        let settings = make_rules(scopes);
        let name = match data.get_text("name") {
            Some(name) => name,
            None => String::from_str(file_name),
        };
        let background = match editor_color_of(data, "editor.background") {
            Some(color) => color,
            None => String::from_str("#000000"),
        };
        let foreground = match editor_color_of(data, "editor.foreground") {
            Some(color) => color,
            None => String::from_str("#ffffff"),
        };
        Ok(
            Theme {
                name,
                author: data.get_text("author"),
                background,
                foreground,
                caret: None,
                invisibles: editor_color_of(data, "editorInvisibles.foreground"),
                settings,
                gutter_foreground: editor_color_of(data, "editorGutter.foreground"),
                gutter_background: editor_color_of(data, "editorGutter.background"),
                gutter_foreground_highlight: None,
                gutter_background_highlight: None,
                line_highlight: editor_color_of(data, "editorLineNumber.activeForeground"),
                selection: None,
            },
        )
    }

    /// The theme that a theme file in the format of VS Code holds.
    /// `contents` is the text of the file, `file_name` its name. A text that
    /// is no JSON gives the error of the JSON reader; JSON gives what
    /// [`vscode_theme`] makes of it.
    pub fn parse_vscode(file_name: &str, contents: &str) -> (r: Result<Theme, ThemeFileError>)
        ensures
            match json_tree(contents@) {
                None => r matches Err(ThemeFileError::Json(_)),
                Some(data) => match vscode_theme(file_name@, data) {
                    Ok(theme) => r matches Ok(t) && t@ == theme,
                    Err(e) => r matches Err(ThemeFileError::Format(f)) && f@ == e,
                },
            },
    {
        match json_value(contents) {
            Err(e) => Err(ThemeFileError::Json(e)),
            Ok(value) => {
                let data = node_of_json(&value);
                match Theme::from_vscode(file_name, &data) {
                    Ok(theme) => Ok(theme),
                    Err(e) => Err(ThemeFileError::Format(e)),
                }
            },
        }
    }
}

} // verus!
