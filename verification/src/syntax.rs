//! Highlighted text: the kinds of text that a highlighter tells apart, the
//! chunks that it cuts a text into, their splitting into the lines of the
//! screen, and the viewport that picks the lines in sight.

use crate::text::{lemma_split_nonempty, split, split_on, views};
use vstd::prelude::*;
use vstd::slice::slice_subrange;

verus! {

/// What a piece of text is, by its place in the syntax of the language. The
/// kinds are those that highlighting queries name; `Plain` is text that has
/// no kind.
#[derive(Debug, Clone, Copy, PartialEq, Eq, Structural)]
pub enum ChunkType {
    Plain,
    Attribute,
    Boolean,
    CarriageReturn,
    Comment,
    CommentDocumentation,
    Constant,
    ConstantBuiltin,
    Constructor,
    ConstructorBuiltin,
    Embedded,
    Error,
    Escape,
    Function,
    FunctionBuiltin,
    Keyword,
    Markup,
    MarkupBold,
    MarkupHeading,
    MarkupItalic,
    MarkupLink,
    MarkupLinkUrl,
    MarkupList,
    MarkupListChecked,
    MarkupListNumbered,
    MarkupListUnchecked,
    MarkupListUnnumbered,
    MarkupQuote,
    MarkupRaw,
    MarkupRawBlock,
    MarkupRawInline,
    MarkupStrikethrough,
    Module,
    Number,
    Operator,
    Property,
    PropertyBuiltin,
    Punctuation,
    PunctuationBracket,
    PunctuationDelimiter,
    PunctuationSpecial,
    String,
    StringEscape,
    StringRegexp,
    StringSpecial,
    StringSpecialSymbol,
    Tag,
    Type,
    TypeBuiltin,
    Variable,
    VariableBuiltin,
    VariableMember,
    VariableParameter,
}

/// How many kinds a highlighter is asked to tell apart.
pub const HIGHLIGHT_COUNT: usize = 52;

impl ChunkType {
    /// The name of the kind, as highlighting queries write it.
    pub open spec fn name(self) -> Seq<char> {
        match self {
            ChunkType::Plain => "none"@,
            ChunkType::Attribute => "attribute"@,
            ChunkType::Boolean => "boolean"@,
            ChunkType::CarriageReturn => "carriage-return"@,
            ChunkType::Comment => "comment"@,
            ChunkType::CommentDocumentation => "comment.documentation"@,
            ChunkType::Constant => "constant"@,
            ChunkType::ConstantBuiltin => "constant.builtin"@,
            ChunkType::Constructor => "constructor"@,
            ChunkType::ConstructorBuiltin => "constructor.builtin"@,
            ChunkType::Embedded => "embedded"@,
            ChunkType::Error => "error"@,
            ChunkType::Escape => "escape"@,
            ChunkType::Function => "function"@,
            ChunkType::FunctionBuiltin => "function.builtin"@,
            ChunkType::Keyword => "keyword"@,
            ChunkType::Markup => "markup"@,
            ChunkType::MarkupBold => "markup.bold"@,
            ChunkType::MarkupHeading => "markup.heading"@,
            ChunkType::MarkupItalic => "markup.italic"@,
            ChunkType::MarkupLink => "markup.link"@,
            ChunkType::MarkupLinkUrl => "markup.link.url"@,
            ChunkType::MarkupList => "markup.list"@,
            ChunkType::MarkupListChecked => "markup.list.checked"@,
            ChunkType::MarkupListNumbered => "markup.list.numbered"@,
            ChunkType::MarkupListUnchecked => "markup.list.unchecked"@,
            ChunkType::MarkupListUnnumbered => "markup.list.unnumbered"@,
            ChunkType::MarkupQuote => "markup.quote"@,
            ChunkType::MarkupRaw => "markup.raw"@,
            ChunkType::MarkupRawBlock => "markup.raw.block"@,
            ChunkType::MarkupRawInline => "markup.raw.inline"@,
            ChunkType::MarkupStrikethrough => "markup.strikethrough"@,
            ChunkType::Module => "module"@,
            ChunkType::Number => "number"@,
            ChunkType::Operator => "operator"@,
            ChunkType::Property => "property"@,
            ChunkType::PropertyBuiltin => "property.builtin"@,
            ChunkType::Punctuation => "punctuation"@,
            ChunkType::PunctuationBracket => "punctuation.bracket"@,
            ChunkType::PunctuationDelimiter => "punctuation.delimiter"@,
            ChunkType::PunctuationSpecial => "punctuation.special"@,
            ChunkType::String => "string"@,
            ChunkType::StringEscape => "string.escape"@,
            ChunkType::StringRegexp => "string.regexp"@,
            ChunkType::StringSpecial => "string.special"@,
            ChunkType::StringSpecialSymbol => "string.special.symbol"@,
            ChunkType::Tag => "tag"@,
            ChunkType::Type => "type"@,
            ChunkType::TypeBuiltin => "type.builtin"@,
            ChunkType::Variable => "variable"@,
            ChunkType::VariableBuiltin => "variable.builtin"@,
            ChunkType::VariableMember => "variable.member"@,
            ChunkType::VariableParameter => "variable.parameter"@,
        }
    }

    /// The scope under which a theme gives colours to this kind. Text of no
    /// kind has no scope. Some kinds have a scope that no theme has a rule
    /// for.
    pub open spec fn scope(self) -> Option<Seq<char>> {
        match self {
            ChunkType::Plain => None,
            ChunkType::Attribute => Some("entity.other.attribute-name"@),
            ChunkType::Boolean => Some("constant.language.boolean"@),
            ChunkType::CarriageReturn => Some("No direct equivalent"@),
            ChunkType::Comment => Some("comment"@),
            ChunkType::CommentDocumentation => Some("comment.block.documentation"@),
            ChunkType::Constant => Some("constant"@),
            ChunkType::ConstantBuiltin => Some("constant.language"@),
            ChunkType::Constructor => Some("entity.name.function.constructor"@),
            ChunkType::ConstructorBuiltin => Some("No direct equivalent"@),
            ChunkType::Embedded => Some("text.html"@),
            ChunkType::Error => Some("invalid"@),
            ChunkType::Escape => Some("constant.character.escape"@),
            ChunkType::Function => Some("entity.name.function"@),
            ChunkType::FunctionBuiltin => Some("support.function"@),
            ChunkType::Keyword => Some("keyword"@),
            ChunkType::Markup => Some("markup"@),
            ChunkType::MarkupBold => Some("markup.bold"@),
            ChunkType::MarkupHeading => Some("markup.heading"@),
            ChunkType::MarkupItalic => Some("markup.italic"@),
            ChunkType::MarkupLink => Some("markup.underline.link"@),
            ChunkType::MarkupLinkUrl => Some("markup.underline.link"@),
            ChunkType::MarkupList => Some("markup.list"@),
            ChunkType::MarkupListChecked => Some("No direct equivalent"@),
            ChunkType::MarkupListNumbered => Some("markup.list.numbered"@),
            ChunkType::MarkupListUnchecked => Some("No direct equivalent"@),
            ChunkType::MarkupListUnnumbered => Some("markup.list.unnumbered"@),
            ChunkType::MarkupQuote => Some("markup.quote"@),
            ChunkType::MarkupRaw => Some("markup.raw"@),
            ChunkType::MarkupRawBlock => Some("markup.raw.block"@),
            ChunkType::MarkupRawInline => Some("markup.raw.inline"@),
            ChunkType::MarkupStrikethrough => Some("markup.strikethrough"@),
            ChunkType::Module => Some("No direct equivalent"@),
            ChunkType::Number => Some("constant.numeric"@),
            ChunkType::Operator => Some("keyword.operator"@),
            ChunkType::Property => Some("variable.other.property"@),
            ChunkType::PropertyBuiltin => Some("support.type.property-name"@),
            ChunkType::Punctuation => Some("punctuation"@),
            ChunkType::PunctuationBracket => Some("punctuation.section"@),
            ChunkType::PunctuationDelimiter => Some("punctuation.separator"@),
            ChunkType::PunctuationSpecial => Some("No direct equivalent"@),
            ChunkType::String => Some("string"@),
            ChunkType::StringEscape => Some("constant.character.escape"@),
            ChunkType::StringRegexp => Some("string.regexp"@),
            ChunkType::StringSpecial => Some("No direct equivalent"@),
            ChunkType::StringSpecialSymbol => Some("No direct equivalent"@),
            ChunkType::Tag => Some("entity.name.tag"@),
            ChunkType::Type => Some("entity.name.type"@),
            ChunkType::TypeBuiltin => Some("support.type"@),
            ChunkType::Variable => Some("variable"@),
            ChunkType::VariableBuiltin => Some("variable.language"@),
            ChunkType::VariableMember => Some("variable.other.member"@),
            ChunkType::VariableParameter => Some("variable.parameter"@),
        }
    }

    /// The kind that a highlighter means by the number `i`: the kinds are
    /// numbered in the order of their names, from nought.
    pub open spec fn of_index(i: int) -> Option<ChunkType> {
        if i == 0 {
            Some(ChunkType::Attribute)
        }         else if i == 1 {
            Some(ChunkType::Boolean)
        }         else if i == 2 {
            Some(ChunkType::CarriageReturn)
        }         else if i == 3 {
            Some(ChunkType::Comment)
        }         else if i == 4 {
            Some(ChunkType::CommentDocumentation)
        }         else if i == 5 {
            Some(ChunkType::Constant)
        }         else if i == 6 {
            Some(ChunkType::ConstantBuiltin)
        }         else if i == 7 {
            Some(ChunkType::Constructor)
        }         else if i == 8 {
            Some(ChunkType::ConstructorBuiltin)
        }         else if i == 9 {
            Some(ChunkType::Embedded)
        }         else if i == 10 {
            Some(ChunkType::Error)
        }         else if i == 11 {
            Some(ChunkType::Escape)
        }         else if i == 12 {
            Some(ChunkType::Function)
        }         else if i == 13 {
            Some(ChunkType::FunctionBuiltin)
        }         else if i == 14 {
            Some(ChunkType::Keyword)
        }         else if i == 15 {
            Some(ChunkType::Markup)
        }         else if i == 16 {
            Some(ChunkType::MarkupBold)
        }         else if i == 17 {
            Some(ChunkType::MarkupHeading)
        }         else if i == 18 {
            Some(ChunkType::MarkupItalic)
        }         else if i == 19 {
            Some(ChunkType::MarkupLink)
        }         else if i == 20 {
            Some(ChunkType::MarkupLinkUrl)
        }         else if i == 21 {
            Some(ChunkType::MarkupList)
        }         else if i == 22 {
            Some(ChunkType::MarkupListChecked)
        }         else if i == 23 {
            Some(ChunkType::MarkupListNumbered)
        }         else if i == 24 {
            Some(ChunkType::MarkupListUnchecked)
        }         else if i == 25 {
            Some(ChunkType::MarkupListUnnumbered)
        }         else if i == 26 {
            Some(ChunkType::MarkupQuote)
        }         else if i == 27 {
            Some(ChunkType::MarkupRaw)
        }         else if i == 28 {
            Some(ChunkType::MarkupRawBlock)
        }         else if i == 29 {
            Some(ChunkType::MarkupRawInline)
        }         else if i == 30 {
            Some(ChunkType::MarkupStrikethrough)
        }         else if i == 31 {
            Some(ChunkType::Module)
        }         else if i == 32 {
            Some(ChunkType::Number)
        }         else if i == 33 {
            Some(ChunkType::Operator)
        }         else if i == 34 {
            Some(ChunkType::Property)
        }         else if i == 35 {
            Some(ChunkType::PropertyBuiltin)
        }         else if i == 36 {
            Some(ChunkType::Punctuation)
        }         else if i == 37 {
            Some(ChunkType::PunctuationBracket)
        }         else if i == 38 {
            Some(ChunkType::PunctuationDelimiter)
        }         else if i == 39 {
            Some(ChunkType::PunctuationSpecial)
        }         else if i == 40 {
            Some(ChunkType::String)
        }         else if i == 41 {
            Some(ChunkType::StringEscape)
        }         else if i == 42 {
            Some(ChunkType::StringRegexp)
        }         else if i == 43 {
            Some(ChunkType::StringSpecial)
        }         else if i == 44 {
            Some(ChunkType::StringSpecialSymbol)
        }         else if i == 45 {
            Some(ChunkType::Tag)
        }         else if i == 46 {
            Some(ChunkType::Type)
        }         else if i == 47 {
            Some(ChunkType::TypeBuiltin)
        }         else if i == 48 {
            Some(ChunkType::Variable)
        }         else if i == 49 {
            Some(ChunkType::VariableBuiltin)
        }         else if i == 50 {
            Some(ChunkType::VariableMember)
        }         else if i == 51 {
            Some(ChunkType::VariableParameter)
        } else {
            None
        }
    }

    /// The name of the kind.
    pub fn as_str(&self) -> (r: &'static str)
        ensures
            r@ == self.name(),
    {
        match self {
            ChunkType::Plain => "none",
            ChunkType::Attribute => "attribute",
            ChunkType::Boolean => "boolean",
            ChunkType::CarriageReturn => "carriage-return",
            ChunkType::Comment => "comment",
            ChunkType::CommentDocumentation => "comment.documentation",
            ChunkType::Constant => "constant",
            ChunkType::ConstantBuiltin => "constant.builtin",
            ChunkType::Constructor => "constructor",
            ChunkType::ConstructorBuiltin => "constructor.builtin",
            ChunkType::Embedded => "embedded",
            ChunkType::Error => "error",
            ChunkType::Escape => "escape",
            ChunkType::Function => "function",
            ChunkType::FunctionBuiltin => "function.builtin",
            ChunkType::Keyword => "keyword",
            ChunkType::Markup => "markup",
            ChunkType::MarkupBold => "markup.bold",
            ChunkType::MarkupHeading => "markup.heading",
            ChunkType::MarkupItalic => "markup.italic",
            ChunkType::MarkupLink => "markup.link",
            ChunkType::MarkupLinkUrl => "markup.link.url",
            ChunkType::MarkupList => "markup.list",
            ChunkType::MarkupListChecked => "markup.list.checked",
            ChunkType::MarkupListNumbered => "markup.list.numbered",
            ChunkType::MarkupListUnchecked => "markup.list.unchecked",
            ChunkType::MarkupListUnnumbered => "markup.list.unnumbered",
            ChunkType::MarkupQuote => "markup.quote",
            ChunkType::MarkupRaw => "markup.raw",
            ChunkType::MarkupRawBlock => "markup.raw.block",
            ChunkType::MarkupRawInline => "markup.raw.inline",
            ChunkType::MarkupStrikethrough => "markup.strikethrough",
            ChunkType::Module => "module",
            ChunkType::Number => "number",
            ChunkType::Operator => "operator",
            ChunkType::Property => "property",
            ChunkType::PropertyBuiltin => "property.builtin",
            ChunkType::Punctuation => "punctuation",
            ChunkType::PunctuationBracket => "punctuation.bracket",
            ChunkType::PunctuationDelimiter => "punctuation.delimiter",
            ChunkType::PunctuationSpecial => "punctuation.special",
            ChunkType::String => "string",
            ChunkType::StringEscape => "string.escape",
            ChunkType::StringRegexp => "string.regexp",
            ChunkType::StringSpecial => "string.special",
            ChunkType::StringSpecialSymbol => "string.special.symbol",
            ChunkType::Tag => "tag",
            ChunkType::Type => "type",
            ChunkType::TypeBuiltin => "type.builtin",
            ChunkType::Variable => "variable",
            ChunkType::VariableBuiltin => "variable.builtin",
            ChunkType::VariableMember => "variable.member",
            ChunkType::VariableParameter => "variable.parameter",
        }
    }

    /// The scope under which a theme gives colours to this kind.
    pub fn theme_scope(&self) -> (r: Option<&'static str>)
        ensures
            match self.scope() {
                Some(s) => r matches Some(t) && t@ == s,
                None => r is None,
            },
    {
        match self {
            ChunkType::Plain => None,
            ChunkType::Attribute => Some("entity.other.attribute-name"),
            ChunkType::Boolean => Some("constant.language.boolean"),
            ChunkType::CarriageReturn => Some("No direct equivalent"),
            ChunkType::Comment => Some("comment"),
            ChunkType::CommentDocumentation => Some("comment.block.documentation"),
            ChunkType::Constant => Some("constant"),
            ChunkType::ConstantBuiltin => Some("constant.language"),
            ChunkType::Constructor => Some("entity.name.function.constructor"),
            ChunkType::ConstructorBuiltin => Some("No direct equivalent"),
            ChunkType::Embedded => Some("text.html"),
            ChunkType::Error => Some("invalid"),
            ChunkType::Escape => Some("constant.character.escape"),
            ChunkType::Function => Some("entity.name.function"),
            ChunkType::FunctionBuiltin => Some("support.function"),
            ChunkType::Keyword => Some("keyword"),
            ChunkType::Markup => Some("markup"),
            ChunkType::MarkupBold => Some("markup.bold"),
            ChunkType::MarkupHeading => Some("markup.heading"),
            ChunkType::MarkupItalic => Some("markup.italic"),
            ChunkType::MarkupLink => Some("markup.underline.link"),
            ChunkType::MarkupLinkUrl => Some("markup.underline.link"),
            ChunkType::MarkupList => Some("markup.list"),
            ChunkType::MarkupListChecked => Some("No direct equivalent"),
            ChunkType::MarkupListNumbered => Some("markup.list.numbered"),
            ChunkType::MarkupListUnchecked => Some("No direct equivalent"),
            ChunkType::MarkupListUnnumbered => Some("markup.list.unnumbered"),
            ChunkType::MarkupQuote => Some("markup.quote"),
            ChunkType::MarkupRaw => Some("markup.raw"),
            ChunkType::MarkupRawBlock => Some("markup.raw.block"),
            ChunkType::MarkupRawInline => Some("markup.raw.inline"),
            ChunkType::MarkupStrikethrough => Some("markup.strikethrough"),
            ChunkType::Module => Some("No direct equivalent"),
            ChunkType::Number => Some("constant.numeric"),
            ChunkType::Operator => Some("keyword.operator"),
            ChunkType::Property => Some("variable.other.property"),
            ChunkType::PropertyBuiltin => Some("support.type.property-name"),
            ChunkType::Punctuation => Some("punctuation"),
            ChunkType::PunctuationBracket => Some("punctuation.section"),
            ChunkType::PunctuationDelimiter => Some("punctuation.separator"),
            ChunkType::PunctuationSpecial => Some("No direct equivalent"),
            ChunkType::String => Some("string"),
            ChunkType::StringEscape => Some("constant.character.escape"),
            ChunkType::StringRegexp => Some("string.regexp"),
            ChunkType::StringSpecial => Some("No direct equivalent"),
            ChunkType::StringSpecialSymbol => Some("No direct equivalent"),
            ChunkType::Tag => Some("entity.name.tag"),
            ChunkType::Type => Some("entity.name.type"),
            ChunkType::TypeBuiltin => Some("support.type"),
            ChunkType::Variable => Some("variable"),
            ChunkType::VariableBuiltin => Some("variable.language"),
            ChunkType::VariableMember => Some("variable.other.member"),
            ChunkType::VariableParameter => Some("variable.parameter"),
        }
    }

    /// The kind that a highlighter means by the number `i`.
    pub fn from_index(i: usize) -> (r: Option<ChunkType>)
        ensures
            r == ChunkType::of_index(i as int),
            r is Some <==> i < HIGHLIGHT_COUNT,
    {
        match i {
            0 => Some(ChunkType::Attribute),
            1 => Some(ChunkType::Boolean),
            2 => Some(ChunkType::CarriageReturn),
            3 => Some(ChunkType::Comment),
            4 => Some(ChunkType::CommentDocumentation),
            5 => Some(ChunkType::Constant),
            6 => Some(ChunkType::ConstantBuiltin),
            7 => Some(ChunkType::Constructor),
            8 => Some(ChunkType::ConstructorBuiltin),
            9 => Some(ChunkType::Embedded),
            10 => Some(ChunkType::Error),
            11 => Some(ChunkType::Escape),
            12 => Some(ChunkType::Function),
            13 => Some(ChunkType::FunctionBuiltin),
            14 => Some(ChunkType::Keyword),
            15 => Some(ChunkType::Markup),
            16 => Some(ChunkType::MarkupBold),
            17 => Some(ChunkType::MarkupHeading),
            18 => Some(ChunkType::MarkupItalic),
            19 => Some(ChunkType::MarkupLink),
            20 => Some(ChunkType::MarkupLinkUrl),
            21 => Some(ChunkType::MarkupList),
            22 => Some(ChunkType::MarkupListChecked),
            23 => Some(ChunkType::MarkupListNumbered),
            24 => Some(ChunkType::MarkupListUnchecked),
            25 => Some(ChunkType::MarkupListUnnumbered),
            26 => Some(ChunkType::MarkupQuote),
            27 => Some(ChunkType::MarkupRaw),
            28 => Some(ChunkType::MarkupRawBlock),
            29 => Some(ChunkType::MarkupRawInline),
            30 => Some(ChunkType::MarkupStrikethrough),
            31 => Some(ChunkType::Module),
            32 => Some(ChunkType::Number),
            33 => Some(ChunkType::Operator),
            34 => Some(ChunkType::Property),
            35 => Some(ChunkType::PropertyBuiltin),
            36 => Some(ChunkType::Punctuation),
            37 => Some(ChunkType::PunctuationBracket),
            38 => Some(ChunkType::PunctuationDelimiter),
            39 => Some(ChunkType::PunctuationSpecial),
            40 => Some(ChunkType::String),
            41 => Some(ChunkType::StringEscape),
            42 => Some(ChunkType::StringRegexp),
            43 => Some(ChunkType::StringSpecial),
            44 => Some(ChunkType::StringSpecialSymbol),
            45 => Some(ChunkType::Tag),
            46 => Some(ChunkType::Type),
            47 => Some(ChunkType::TypeBuiltin),
            48 => Some(ChunkType::Variable),
            49 => Some(ChunkType::VariableBuiltin),
            50 => Some(ChunkType::VariableMember),
            51 => Some(ChunkType::VariableParameter),
            _ => None,
        }
    }
}

/// The names of the kinds, in the order of their numbers: the list that a
/// highlighter is to be set up with.
pub fn highlight_names() -> (r: Vec<&'static str>)
    ensures
        r@.len() == HIGHLIGHT_COUNT,
        forall|i: int|
            0 <= i < HIGHLIGHT_COUNT ==> (#[trigger] r@[i])@ == ChunkType::of_index(
                i,
            ).unwrap().name(),
{
    let mut names: Vec<&'static str> = Vec::new();
    let mut i: usize = 0;
    while i < HIGHLIGHT_COUNT
        invariant
            i <= HIGHLIGHT_COUNT,
            names@.len() == i,
            forall|k: int|
                0 <= k < i ==> (#[trigger] names@[k])@ == ChunkType::of_index(k).unwrap().name(),
        decreases HIGHLIGHT_COUNT - i,
    {
        match ChunkType::from_index(i) {
            Some(t) => {
                names.push(t.as_str());
            },
            None => {},
        }
        i = i + 1;
    }
    names
}

/// A piece of a text that is of one kind.
#[derive(Debug, Clone, Copy)]
pub struct Chunk<'a> {
    /// The text of the piece.
    pub contents: &'a str,
    /// The byte of the whole text at which the piece begins.
    pub start: usize,
    /// The byte of the whole text before which it ends.
    pub end: usize,
    /// The kind of the piece.
    pub typ: ChunkType,
}

/// A chunk as a mathematical value.
pub struct ChunkView {
    pub contents: Seq<char>,
    pub start: nat,
    pub end: nat,
    pub typ: ChunkType,
}

impl<'a> View for Chunk<'a> {
    type V = ChunkView;

    open spec fn view(&self) -> ChunkView {
        ChunkView {
            contents: self.contents@,
            start: self.start as nat,
            end: self.end as nat,
            typ: self.typ,
        }
    }
}

/// The views of a sequence of chunks.
pub open spec fn chunk_views(chunks: Seq<Chunk>) -> Seq<ChunkView> {
    Seq::new(chunks.len(), |i: int| chunks[i]@)
}

/// The views of a sequence of lines of chunks.
pub open spec fn line_views(lines: Seq<Vec<Chunk>>) -> Seq<Seq<ChunkView>> {
    Seq::new(lines.len(), |i: int| chunk_views(lines[i]@))
}

/// The texts of `chunks`, one after the other.
pub open spec fn concat_text(chunks: Seq<ChunkView>) -> Seq<char>
    decreases chunks.len(),
{
    if chunks.len() == 0 {
        Seq::<char>::empty()
    } else {
        concat_text(chunks.drop_last()) + chunks.last().contents
    }
}

/// The text of each of `lines`.
pub open spec fn line_texts(lines: Seq<Seq<ChunkView>>) -> Seq<Seq<char>> {
    Seq::new(lines.len(), |i: int| concat_text(lines[i]))
}

impl ChunkView {
    /// The pieces of the chunk between the occurrences of `sep`, each a chunk
    /// of its own with the place of the whole. The first piece has the kind
    /// of the whole, the others have none.
    pub open spec fn split(self, sep: char) -> Seq<ChunkView> {
        let pieces = split(self.contents, sep);
        Seq::new(
            pieces.len(),
            |i: int|
                ChunkView {
                    contents: pieces[i],
                    start: self.start,
                    end: self.end,
                    typ: if i == 0 {
                        self.typ
                    } else {
                        ChunkType::Plain
                    },
                },
        )
    }
}

impl<'a> Default for Chunk<'a> {
    fn default() -> (r: Self)
        ensures
            r@ == (ChunkView {
                contents: Seq::<char>::empty(),
                start: 0,
                end: 0,
                typ: ChunkType::Plain,
            }),
    {
        proof {
            reveal_strlit("");
            assert(""@ =~= Seq::<char>::empty());
        }
        Chunk { contents: "", start: 0, end: 0, typ: ChunkType::Plain }
    }
}

impl<'a> Chunk<'a> {
    /// A chunk of kind `typ` that has no text yet.
    pub fn with_type(typ: ChunkType) -> (r: Self)
        ensures
            r@ == (ChunkView { contents: Seq::<char>::empty(), start: 0, end: 0, typ: typ }),
    {
        proof {
            reveal_strlit("");
            assert(""@ =~= Seq::<char>::empty());
        }
        Chunk { contents: "", start: 0, end: 0, typ }
    }

    /// A chunk of no kind with the text `contents`, taken from the bytes
    /// `start..end` of a text.
    pub fn from_source(start: usize, end: usize, contents: &'a str) -> (r: Self)
        ensures
            r@ == (ChunkView {
                contents: contents@,
                start: start as nat,
                end: end as nat,
                typ: ChunkType::Plain,
            }),
    {
        Chunk { contents, start, end, typ: ChunkType::Plain }
    }

    /// The pieces of the chunk between the occurrences of `ch`; see
    /// [`ChunkView::split`].
    pub fn split(&self, ch: char) -> (r: Vec<Chunk<'a>>)
        ensures
            chunk_views(r@) == self@.split(ch),
            r@.len() >= 1,
    {
        let pieces = split_on(self.contents, ch);
        proof {
            lemma_split_nonempty(self.contents@, ch);
            assert(views(pieces@).len() == pieces@.len());
        }
        let mut chunks: Vec<Chunk<'a>> = Vec::new();
        let mut i: usize = 0;
        while i < pieces.len()
            invariant
                i <= pieces@.len(),
                chunks@.len() == i,
                views(pieces@) == split(self.contents@, ch),
                forall|k: int| 0 <= k < i ==> (#[trigger] chunks@[k])@ == self@.split(ch)[k],
            decreases pieces@.len() - i,
        {
            let mut chunk = Chunk::from_source(self.start, self.end, pieces[i]);
            if i == 0 {
                chunk.typ = self.typ;
            }
            proof {
                assert(views(pieces@)[i as int] == pieces@[i as int]@);
            }
            chunks.push(chunk);
            i = i + 1;
        }
        proof {
            assert(chunk_views(chunks@) =~= self@.split(ch));
        }
        chunks
    }
}

/// A window onto the rows and columns of a text.
#[derive(Debug, Clone, Copy)]
pub struct Viewport {
    /// The first row in sight.
    pub top: usize,
    /// The first column in sight.
    pub left: usize,
    /// How many columns are in sight.
    pub width: usize,
    /// How many rows are in sight.
    pub height: usize,
}

/// The lesser of two numbers.
pub open spec fn lesser(a: int, b: int) -> int {
    if a <= b {
        a
    } else {
        b
    }
}

impl Viewport {
    /// The viewport with these edges.
    pub fn new(top: usize, left: usize, width: usize, height: usize) -> (r: Self)
        ensures
            r.top == top,
            r.left == left,
            r.width == width,
            r.height == height,
    {
        Viewport { top, left, width, height }
    }

    /// The rows of `rows` that the viewport has in sight: those from `top`
    /// on, `height` of them or as many as there are.
    pub open spec fn in_sight<T>(self, rows: Seq<T>) -> Seq<T> {
        rows.subrange(
            lesser(self.top as int, rows.len() as int),
            lesser(self.top + self.height, rows.len() as int),
        )
    }

    /// The rows of `buffer` that are in sight; see [`Viewport::in_sight`].
    /// None are where the viewport begins behind the last row.
    pub fn clamp_lines<'a, T>(&self, buffer: &'a [T]) -> (r: &'a [T])
        ensures
            r@ == self.in_sight(buffer@),
            self.top < buffer@.len() ==> r@.len() == lesser(
                self.height as int,
                buffer@.len() - self.top,
            ),
            self.top >= buffer@.len() ==> r@.len() == 0,
    {
        let len = buffer.len();
        if self.top >= len {
            slice_subrange(buffer, len, len)
        } else if self.height >= len - self.top {
            slice_subrange(buffer, self.top, len)
        } else {
            slice_subrange(buffer, self.top, self.top + self.height)
        }
    }
}

/// A viewport has in sight `height` rows or all that are left from `top` on,
/// whichever is less, and none where `top` is no row.
pub proof fn lemma_in_sight_len<T>(viewport: Viewport, rows: Seq<T>)
    ensures
        viewport.in_sight(rows).len() == if viewport.top < rows.len() {
            lesser(viewport.height as int, rows.len() - viewport.top)
        } else {
            0
        },
        forall|i: int|
            0 <= i < viewport.in_sight(rows).len() ==> viewport.in_sight(rows)[i] == rows[viewport.top
                + i],
{
}

/// The text of a single chunk is its own.
pub proof fn lemma_concat_single(chunk: ChunkView)
    ensures
        concat_text(seq![chunk]) == chunk.contents,
{
    assert(seq![chunk].drop_last() =~= Seq::<ChunkView>::empty());
    assert(concat_text(seq![chunk]) =~= concat_text(Seq::<ChunkView>::empty()) + chunk.contents);
}

/// Each of `chunks` as a line of its own.
pub open spec fn singles(chunks: Seq<ChunkView>) -> Seq<Seq<ChunkView>> {
    Seq::new(chunks.len(), |i: int| seq![chunks[i]])
}

/// The chunks of a text laid out in lines. Each chunk is split at its line
/// feeds. Its first piece goes on the line that the chunks before it have
/// left open, each further piece begins a line, and the line of the last
/// piece is left open for the chunks that follow.
pub open spec fn lines_of_chunks(chunks: Seq<ChunkView>) -> Seq<Seq<ChunkView>>
    decreases chunks.len(),
{
    if chunks.len() == 0 {
        seq![Seq::<ChunkView>::empty()]
    } else {
        let head = lines_of_chunks(chunks.drop_last());
        let parts = chunks.last().split('\n');
        head.drop_last().push(head.last().push(parts[0])) + singles(parts.drop_first())
    }
}

/// There is at least one line, and so an open one.
pub proof fn lemma_lines_of_chunks_nonempty(chunks: Seq<ChunkView>)
    ensures
        lines_of_chunks(chunks).len() >= 1,
    decreases chunks.len(),
{
    if chunks.len() > 0 {
        lemma_lines_of_chunks_nonempty(chunks.drop_last());
    }
}

/// Lays the chunks of a text out in lines; see [`lines_of_chunks`].
pub fn split_chunks<'a>(chunks: Vec<Chunk<'a>>) -> (r: Vec<Vec<Chunk<'a>>>)
    ensures
        line_views(r@) == lines_of_chunks(chunk_views(chunks@)),
{
    let ghost all = chunk_views(chunks@);
    let mut lines: Vec<Vec<Chunk<'a>>> = Vec::new();
    let mut current_line: Vec<Chunk<'a>> = Vec::new();
    let mut i: usize = 0;
    proof {
        assert(all.take(0) =~= Seq::<ChunkView>::empty());
        assert(chunk_views(current_line@) =~= Seq::<ChunkView>::empty());
        assert(line_views(lines@).push(chunk_views(current_line@)) =~= seq![
            Seq::<ChunkView>::empty(),
        ]);
    }
    while i < chunks.len()
        invariant
            i <= chunks@.len(),
            all == chunk_views(chunks@),
            lines_of_chunks(all.take(i as int)) == line_views(lines@).push(
                chunk_views(current_line@),
            ),
        decreases chunks@.len() - i,
    {
        let parts = chunks[i].split('\n');
        let ghost head = lines_of_chunks(all.take(i as int));
        let ghost pieces = all[i as int].split('\n');
        proof {
            lemma_lines_of_chunks_nonempty(all.take(i as int));
            assert(all.take(i + 1).drop_last() =~= all.take(i as int));
            assert(all.take(i + 1).last() == all[i as int]);
            assert(head.drop_last() =~= line_views(lines@));
            assert(head.last() == chunk_views(current_line@));
            assert(chunk_views(parts@)[0] == parts@[0]@);
        }
        let ghost opened = chunk_views(current_line@).push(pieces[0]);
        current_line.push(parts[0]);
        proof {
            assert(chunk_views(current_line@) =~= opened);
        }
        let mut k: usize = 1;
        while k < parts.len()
            invariant
                1 <= k <= parts@.len(),
                head.len() >= 1,
                chunk_views(parts@) == pieces,
                line_views(lines@).push(chunk_views(current_line@)) == head.drop_last().push(
                    opened,
                ) + singles(pieces.subrange(1, k as int)),
            decreases parts@.len() - k,
        {
            let ghost before = line_views(lines@).push(chunk_views(current_line@));
            lines.push(current_line);
            current_line = Vec::new();
            current_line.push(parts[k]);
            proof {
                assert(chunk_views(parts@)[k as int] == parts@[k as int]@);
                assert(chunk_views(current_line@) =~= seq![pieces[k as int]]);
                assert(line_views(lines@) =~= before);
                assert(singles(pieces.subrange(1, k + 1)) =~= singles(
                    pieces.subrange(1, k as int),
                ).push(seq![pieces[k as int]]));
                assert(before.push(seq![pieces[k as int]]) =~= head.drop_last().push(opened)
                    + singles(pieces.subrange(1, k + 1)));
            }
            k = k + 1;
        }
        proof {
            assert(pieces.subrange(1, parts@.len() as int) =~= pieces.drop_first());
        }
        i = i + 1;
    }
    let ghost open = line_views(lines@).push(chunk_views(current_line@));
    lines.push(current_line);
    proof {
        assert(all.take(chunks@.len() as int) =~= all);
        assert(line_views(lines@) =~= open);
    }
    lines
}

/// Laying chunks out in lines loses no text and moves none: the text of each
/// line of chunks is the line of the same number of the whole text.
pub proof fn lemma_lines_of_chunks_text(chunks: Seq<ChunkView>)
    ensures
        line_texts(lines_of_chunks(chunks)) == split(concat_text(chunks), '\n'),
    decreases chunks.len(),
{
    let sep = '\n';
    if chunks.len() == 0 {
        assert(concat_text(lines_of_chunks(chunks)[0]) =~= Seq::<char>::empty());
        assert(line_texts(lines_of_chunks(chunks)) =~= seq![Seq::<char>::empty()]);
    } else {
        let front = chunks.drop_last();
        let last = chunks.last();
        let head = lines_of_chunks(front);
        let parts = last.split(sep);
        let pieces = split(last.contents, sep);
        let text = concat_text(front);
        lemma_lines_of_chunks_text(front);
        lemma_lines_of_chunks_nonempty(front);
        lemma_split_nonempty(last.contents, sep);
        lemma_split_nonempty(text, sep);
        crate::text::lemma_split_concat(text, last.contents, sep);
        let old_texts = split(text, sep);
        assert(line_texts(head) == old_texts);
        assert(concat_text(head.last()) == line_texts(head)[head.len() - 1]);
        let opened = head.last().push(parts[0]);
        assert(opened.drop_last() =~= head.last());
        assert(concat_text(opened) == old_texts.last() + pieces[0]);
        let result = head.drop_last().push(opened) + singles(parts.drop_first());
        let want = old_texts.drop_last().push(old_texts.last() + pieces[0]) + pieces.drop_first();
        assert(line_texts(result).len() == want.len());
        assert forall|i: int| 0 <= i < want.len() implies line_texts(result)[i] == want[i] by {
            if i < head.len() - 1 {
                assert(result[i] == head[i]);
                assert(line_texts(head)[i] == concat_text(head[i]));
            } else if i == head.len() - 1 {
                assert(result[i] == opened);
            } else {
                let k = i - head.len();
                assert(result[i] == seq![parts.drop_first()[k]]);
                lemma_concat_single(parts.drop_first()[k]);
                assert(parts.drop_first()[k].contents == pieces.drop_first()[k]);
            }
        }
        assert(line_texts(result) =~= want);
    }
}

/// No chunk of a line holds a line feed.
pub proof fn lemma_lines_of_chunks_clean(chunks: Seq<ChunkView>)
    ensures
        forall|i: int, j: int, k: int|
            0 <= i < lines_of_chunks(chunks).len() && 0 <= j < lines_of_chunks(chunks)[i].len()
                && 0 <= k < lines_of_chunks(chunks)[i][j].contents.len() ==> lines_of_chunks(
                chunks,
            )[i][j].contents[k] != '\n',
    decreases chunks.len(),
{
    if chunks.len() > 0 {
        let front = chunks.drop_last();
        let head = lines_of_chunks(front);
        let last = chunks.last();
        let parts = last.split('\n');
        lemma_lines_of_chunks_clean(front);
        lemma_lines_of_chunks_nonempty(front);
        lemma_split_nonempty(last.contents, '\n');
        crate::text::lemma_split_clean(last.contents, '\n');
        let result = lines_of_chunks(chunks);
        assert forall|i: int, j: int, k: int|
            0 <= i < result.len() && 0 <= j < result[i].len() && 0 <= k
                < result[i][j].contents.len() implies result[i][j].contents[k] != '\n' by {
            if i < head.len() - 1 {
                assert(result[i] == head[i]);
            } else if i == head.len() - 1 {
                if j < head.last().len() {
                    assert(result[i][j] == head[i][j]);
                } else {
                    assert(result[i][j] == parts[0]);
                }
            } else {
                assert(result[i][j] == parts[i - head.len() + 1]);
            }
        }
    }
}

} // verus!
