//! Colour themes: the default colours and an ordered list of rules, each of
//! which gives colours to a set of scopes.

use crate::color::{parse_color, ParseColorError, Rgb};
use crate::text::{split, split_on, str_eq, string_views, trim, trimmed, views};
use crate::tree::{Node, NodeView};
use vstd::prelude::*;

verus! {

/// How the text of a scope is set.
#[derive(Debug, Clone, Copy, PartialEq, Eq, Structural)]
pub enum FontStyle {
    Normal,
    Bold,
    Italic,
    BoldItalic,
    Underline,
}

/// What a rule sets; what it leaves out comes from the theme.
#[derive(Debug, Clone)]
pub struct SettingAttributes {
    pub background: Option<String>,
    pub foreground: Option<String>,
    pub font_style: Option<FontStyle>,
}

/// One rule of a theme: the scopes that it is for, and what it sets for them.
#[derive(Debug, Clone)]
pub struct ThemeSetting {
    pub scopes: Vec<String>,
    pub settings: SettingAttributes,
}

/// A colour theme. Colours are held as they were written, as `#rrggbb`.
#[derive(Debug, Clone)]
pub struct Theme {
    pub name: String,
    pub author: Option<String>,
    pub background: String,
    pub foreground: String,
    pub caret: Option<String>,
    pub invisibles: Option<String>,
    pub settings: Vec<ThemeSetting>,
    pub gutter_foreground: Option<String>,
    pub gutter_background: Option<String>,
    pub gutter_foreground_highlight: Option<String>,
    pub gutter_background_highlight: Option<String>,
    pub line_highlight: Option<String>,
    pub selection: Option<String>,
}

/// The look of a scope once the theme's defaults have filled what its rule
/// leaves out.
#[derive(Debug, Clone)]
pub struct Style {
    pub foreground: String,
    pub background: String,
    pub font_style: Option<FontStyle>,
}

/// What a rule sets, as a mathematical value.
pub struct SettingAttributesView {
    pub background: Option<Seq<char>>,
    pub foreground: Option<Seq<char>>,
    pub font_style: Option<FontStyle>,
}

/// A rule as a mathematical value.
pub struct ThemeSettingView {
    pub scopes: Seq<Seq<char>>,
    pub settings: SettingAttributesView,
}

/// A theme as a mathematical value.
pub struct ThemeView {
    pub name: Seq<char>,
    pub author: Option<Seq<char>>,
    pub background: Seq<char>,
    pub foreground: Seq<char>,
    pub caret: Option<Seq<char>>,
    pub invisibles: Option<Seq<char>>,
    pub settings: Seq<ThemeSettingView>,
    pub gutter_foreground: Option<Seq<char>>,
    pub gutter_background: Option<Seq<char>>,
    pub gutter_foreground_highlight: Option<Seq<char>>,
    pub gutter_background_highlight: Option<Seq<char>>,
    pub line_highlight: Option<Seq<char>>,
    pub selection: Option<Seq<char>>,
}

/// The view of a text that may be missing.
pub open spec fn text_view(text: Option<String>) -> Option<Seq<char>> {
    match text {
        Some(s) => Some(s@),
        None => None,
    }
}

/// The views of a sequence of rules.
pub open spec fn rule_views(rules: Seq<ThemeSetting>) -> Seq<ThemeSettingView> {
    Seq::new(rules.len(), |i: int| rules[i]@)
}

impl View for SettingAttributes {
    type V = SettingAttributesView;

    open spec fn view(&self) -> SettingAttributesView {
        SettingAttributesView {
            background: text_view(self.background),
            foreground: text_view(self.foreground),
            font_style: self.font_style,
        }
    }
}

impl View for ThemeSetting {
    type V = ThemeSettingView;

    open spec fn view(&self) -> ThemeSettingView {
        ThemeSettingView { scopes: string_views(self.scopes@), settings: self.settings@ }
    }
}

impl View for Theme {
    type V = ThemeView;

    open spec fn view(&self) -> ThemeView {
        ThemeView {
            name: self.name@,
            author: text_view(self.author),
            background: self.background@,
            foreground: self.foreground@,
            caret: text_view(self.caret),
            invisibles: text_view(self.invisibles),
            settings: rule_views(self.settings@),
            gutter_foreground: text_view(self.gutter_foreground),
            gutter_background: text_view(self.gutter_background),
            gutter_foreground_highlight: text_view(self.gutter_foreground_highlight),
            gutter_background_highlight: text_view(self.gutter_background_highlight),
            line_highlight: text_view(self.line_highlight),
            selection: text_view(self.selection),
        }
    }
}

/// The font style that a theme file writes as `name`, if it is one.
pub open spec fn font_style_named(name: Seq<char>) -> Option<FontStyle> {
    if name == "bold"@ {
        Some(FontStyle::Bold)
    } else if name == "italic"@ {
        Some(FontStyle::Italic)
    } else if name == "bold italic"@ {
        Some(FontStyle::BoldItalic)
    } else if name == "underline"@ {
        Some(FontStyle::Underline)
    } else {
        None
    }
}

/// The scopes that a theme file writes as one text: its pieces between the
/// commas, each without the white space around it.
pub open spec fn scopes_named(text: Seq<char>) -> Seq<Seq<char>> {
    let pieces = split(text, ',');
    Seq::new(pieces.len(), |i: int| trim(pieces[i]))
}

/// What the dictionary `settings` of a theme file sets: the texts under
/// `background` and `foreground`, and the font style under `fontStyle`.
pub open spec fn attributes_of(settings: NodeView) -> SettingAttributesView {
    SettingAttributesView {
        background: settings.get_text("background"@),
        foreground: settings.get_text("foreground"@),
        font_style: match settings.get_text("fontStyle"@) {
            Some(name) => font_style_named(name),
            None => None,
        },
    }
}

impl FontStyle {
    /// The font style that a theme file writes as `name`.
    pub fn from_name(name: &str) -> (r: Option<FontStyle>)
        ensures
            r == font_style_named(name@),
    {
        if str_eq(name, "bold") {
            Some(FontStyle::Bold)
        } else if str_eq(name, "italic") {
            Some(FontStyle::Italic)
        } else if str_eq(name, "bold italic") {
            Some(FontStyle::BoldItalic)
        } else if str_eq(name, "underline") {
            Some(FontStyle::Underline)
        } else {
            None
        }
    }
}

impl SettingAttributes {
    /// What the dictionary `settings` of a theme file sets; see
    /// [`attributes_of`].
    pub fn from_node(settings: &Node) -> (r: SettingAttributes)
        ensures
            r@ == attributes_of(settings@),
    {
        SettingAttributes {
            background: settings.get_text("background"),
            foreground: settings.get_text("foreground"),
            font_style: match settings.get_text("fontStyle") {
                Some(name) => FontStyle::from_name(name.as_str()),
                None => None,
            },
        }
    }
}

/// The scopes that a theme file writes as one text; see [`scopes_named`].
pub fn scopes_of(text: &str) -> (r: Vec<String>)
    ensures
        string_views(r@) == scopes_named(text@),
{
    let pieces = split_on(text, ',');
    let mut out: Vec<String> = Vec::new();
    let mut i: usize = 0;
    proof {
        assert(views(pieces@).len() == pieces@.len());
    }
    while i < pieces.len()
        invariant
            i <= pieces@.len(),
            views(pieces@) == split(text@, ','),
            out@.len() == i,
            forall|k: int| 0 <= k < i ==> (#[trigger] out@[k])@ == trim(split(text@, ',')[k]),
        decreases pieces@.len() - i,
    {
        proof {
            assert(views(pieces@)[i as int] == pieces@[i as int]@);
        }
        out.push(trimmed(pieces[i]));
        i = i + 1;
    }
    proof {
        assert(string_views(out@) =~= scopes_named(text@));
    }
    out
}

impl Default for SettingAttributes {
    fn default() -> (r: Self)
        ensures
            r.background is None,
            r.foreground is None,
            r.font_style is None,
    {
        SettingAttributes { background: None, foreground: None, font_style: None }
    }
}

impl Default for Theme {
    fn default() -> (r: Self)
        ensures
            r.name@.len() == 0,
            r.author is None,
            r.background@.len() == 0,
            r.foreground@.len() == 0,
            r.caret is None,
            r.invisibles is None,
            r.settings@.len() == 0,
            r.gutter_foreground is None,
            r.gutter_background is None,
            r.gutter_foreground_highlight is None,
            r.gutter_background_highlight is None,
            r.line_highlight is None,
            r.selection is None,
    {
        Theme {
            name: String::new(),
            author: None,
            background: String::new(),
            foreground: String::new(),
            caret: None,
            invisibles: None,
            settings: Vec::new(),
            gutter_foreground: None,
            gutter_background: None,
            gutter_foreground_highlight: None,
            gutter_background_highlight: None,
            line_highlight: None,
            selection: None,
        }
    }
}

impl ThemeSetting {
    /// Whether this rule is for `scope`: whether `scope` is among its scopes.
    pub open spec fn covers(&self, scope: Seq<char>) -> bool {
        exists|j: int| 0 <= j < self.scopes@.len() && (#[trigger] self.scopes@[j])@ == scope
    }

    /// Whether this rule is for `scope`.
    pub fn has_scope(&self, scope: &str) -> (r: bool)
        ensures
            r == self.covers(scope@),
    {
        let mut j: usize = 0;
        while j < self.scopes.len()
            invariant
                j <= self.scopes@.len(),
                forall|k: int| 0 <= k < j ==> (#[trigger] self.scopes@[k])@ != scope@,
            decreases self.scopes@.len() - j,
        {
            if str_eq(self.scopes[j].as_str(), scope) {
                return true;
            }
            j = j + 1;
        }
        false
    }
}

/// The place of the first of `rules` that is for `scope`, if there is one.
pub open spec fn first_rule(rules: Seq<ThemeSetting>, scope: Seq<char>) -> Option<int>
    decreases rules.len(),
{
    if rules.len() == 0 {
        None
    } else if rules[0].covers(scope) {
        Some(0)
    } else {
        match first_rule(rules.drop_first(), scope) {
            Some(i) => Some(i + 1),
            None => None,
        }
    }
}

/// `first_rule` finds a rule for the scope, none before it is for the scope,
/// and it finds none only where no rule is for the scope.
pub proof fn lemma_first_rule(rules: Seq<ThemeSetting>, scope: Seq<char>)
    ensures
        match first_rule(rules, scope) {
            Some(i) => {
                &&& 0 <= i < rules.len()
                &&& rules[i].covers(scope)
                &&& forall|k: int| 0 <= k < i ==> !(#[trigger] rules[k]).covers(scope)
            },
            None => forall|k: int| 0 <= k < rules.len() ==> !(#[trigger] rules[k]).covers(scope),
        },
    decreases rules.len(),
{
    if rules.len() > 0 && !rules[0].covers(scope) {
        let rest = rules.drop_first();
        lemma_first_rule(rest, scope);
        match first_rule(rest, scope) {
            Some(i) => {
                assert forall|k: int| 0 <= k < i + 1 implies !(#[trigger] rules[k]).covers(
                    scope,
                ) by {
                    if k > 0 {
                        assert(rules[k] == rest[k - 1]);
                    }
                }
                assert(rules[i + 1] == rest[i]);
            },
            None => {
                assert forall|k: int| 0 <= k < rules.len() implies !(#[trigger] rules[k]).covers(
                    scope,
                ) by {
                    if k > 0 {
                        assert(rules[k] == rest[k - 1]);
                    }
                }
            },
        }
    }
}

impl Theme {
    /// The foreground that the theme gives to `scope`: that of the first rule
    /// for the scope if the rule sets one, else the theme's own.
    pub open spec fn foreground_of(&self, scope: Seq<char>) -> Seq<char> {
        match first_rule(self.settings@, scope) {
            Some(i) => match self.settings@[i].settings.foreground {
                Some(c) => c@,
                None => self.foreground@,
            },
            None => self.foreground@,
        }
    }

    /// The background that the theme gives to `scope`: that of the first rule
    /// for the scope if the rule sets one, else the theme's own.
    pub open spec fn background_of(&self, scope: Seq<char>) -> Seq<char> {
        match first_rule(self.settings@, scope) {
            Some(i) => match self.settings@[i].settings.background {
                Some(c) => c@,
                None => self.background@,
            },
            None => self.background@,
        }
    }

    /// The font style that the theme gives to `scope`: that of the first rule
    /// for the scope, if there is such a rule and it sets one.
    pub open spec fn font_style_of(&self, scope: Seq<char>) -> Option<FontStyle> {
        match first_rule(self.settings@, scope) {
            Some(i) => self.settings@[i].settings.font_style,
            None => None,
        }
    }

    /// Whether both default colours of the theme are well written.
    pub open spec fn defaults_valid(&self) -> bool {
        parse_color(self.foreground@) is Ok && parse_color(self.background@) is Ok
    }

    /// Whether both default colours of the theme are well written.
    pub fn has_valid_defaults(&self) -> (r: bool)
        ensures
            r == self.defaults_valid(),
    {
        Rgb::from_hex(self.foreground.as_str()).is_ok() && Rgb::from_hex(
            self.background.as_str(),
        ).is_ok()
    }

    /// The default foreground and background, in this order.
    pub fn default_colors(&self) -> (r: (Rgb, Rgb))
        requires
            self.defaults_valid(),
        ensures
            Ok::<Rgb, ParseColorError>(r.0) == parse_color(self.foreground@),
            Ok::<Rgb, ParseColorError>(r.1) == parse_color(self.background@),
    {
        let fg = Rgb::from_hex(self.foreground.as_str());
        let bg = Rgb::from_hex(self.background.as_str());
        match (fg, bg) {
            (Ok(f), Ok(b)) => (f, b),
            _ => (Rgb { r: 0, g: 0, b: 0 }, Rgb { r: 0, g: 0, b: 0 }),
        }
    }

    /// The first rule of the theme that is for `scope`.
    pub fn get_scope(&self, scope: &str) -> (r: Option<&ThemeSetting>)
        ensures
            match first_rule(self.settings@, scope@) {
                Some(i) => r == Some(&self.settings@[i]),
                None => r is None,
            },
    {
        let mut i: usize = 0;
        proof {
            assert(self.settings@.subrange(0, self.settings@.len() as int) =~= self.settings@);
        }
        while i < self.settings.len()
            invariant
                i <= self.settings@.len(),
                first_rule(self.settings@, scope@) == match first_rule(
                    self.settings@.subrange(i as int, self.settings@.len() as int),
                    scope@,
                ) {
                    Some(k) => Some(k + i),
                    None => None,
                },
            decreases self.settings@.len() - i,
        {
            proof {
                let rest = self.settings@.subrange(i as int, self.settings@.len() as int);
                assert(rest[0] == self.settings@[i as int]);
                assert(rest.drop_first() =~= self.settings@.subrange(
                    i + 1,
                    self.settings@.len() as int,
                ));
            }
            if self.settings[i].has_scope(scope) {
                return Some(&self.settings[i]);
            }
            i = i + 1;
        }
        None
    }

    /// The look of `scope`: what the first rule for it sets, and the theme's
    /// default colours for what it leaves out or where there is no such rule.
    pub fn resolve(&self, scope: &str) -> (r: Style)
        ensures
            r.foreground@ == self.foreground_of(scope@),
            r.background@ == self.background_of(scope@),
            r.font_style == self.font_style_of(scope@),
    {
        match self.get_scope(scope) {
            Some(rule) => {
                let foreground = match &rule.settings.foreground {
                    Some(c) => c.clone(),
                    None => self.foreground.clone(),
                };
                let background = match &rule.settings.background {
                    Some(c) => c.clone(),
                    None => self.background.clone(),
                };
                Style { foreground, background, font_style: rule.settings.font_style }
            },
            None => Style {
                foreground: self.foreground.clone(),
                background: self.background.clone(),
                font_style: None,
            },
        }
    }

    /// The colours of `scope`, foreground first, as [`Theme::default_colors`]
    /// gives them: the colours that the first rule for the scope sets, and
    /// the theme's default for each that it leaves out or where there is no
    /// such rule. An error where the foreground is not well written, else
    /// where the background is not.
    pub fn scope_color(&self, scope: &str) -> (r: Result<(Rgb, Rgb), ParseColorError>)
        ensures
            r == match parse_color(self.foreground_of(scope@)) {
                Err(e) => Err::<(Rgb, Rgb), ParseColorError>(e),
                Ok(f) => match parse_color(self.background_of(scope@)) {
                    Err(e) => Err::<(Rgb, Rgb), ParseColorError>(e),
                    Ok(b) => Ok::<(Rgb, Rgb), ParseColorError>((f, b)),
                },
            },
    {
        let style = self.resolve(scope);
        match Rgb::from_hex(style.foreground.as_str()) {
            Err(e) => Err(e),
            Ok(f) => match Rgb::from_hex(style.background.as_str()) {
                Err(e) => Err(e),
                Ok(b) => Ok((f, b)),
            },
        }
    }
}

/// A scope that no rule is for has the theme's default colours and no font
/// style.
pub proof fn lemma_unruled_scope_has_defaults(theme: Theme, scope: Seq<char>)
    requires
        forall|k: int| 0 <= k < theme.settings@.len() ==> !(#[trigger] theme.settings@[k]).covers(
            scope,
        ),
    ensures
        theme.foreground_of(scope) == theme.foreground@,
        theme.background_of(scope) == theme.background@,
        theme.font_style_of(scope) is None,
{
    lemma_first_rule(theme.settings@, scope);
}

} // verus!
