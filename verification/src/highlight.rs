//! From a text to the coloured spans of the screen: the tokenizer is run over
//! the whole text, its events are gathered into chunks, the chunks are laid
//! out in lines, and the lines in sight get the colours of the theme.

use crate::color::{parse_color, ParseColorError, Rgb};
use crate::syntax::{
    chunk_views, concat_text, highlight_names, line_views, lines_of_chunks, split_chunks, Chunk,
    ChunkType, ChunkView, Viewport, HIGHLIGHT_COUNT,
};
use crate::text::{
    byte_slice, join, join_lines, lemma_encode_concat, lemma_span_concat, lemma_span_whole, span,
    string_views,
};
use crate::theme::Theme;
use tree_sitter_highlight::HighlightConfiguration;
use vstd::prelude::*;
use vstd::string::*;
use vstd::utf8::{encode_utf8, encode_utf8_decode_utf8};

verus! {

/// One step of a tokenizer's walk through a text.
#[derive(Debug, Clone, Copy, PartialEq, Eq, Structural)]
pub enum HighlightEvent {
    /// The bytes `start..end` of the text come next.
    Source { start: usize, end: usize },
    /// Text of the kind with this number begins.
    HighlightStart(usize),
    /// The text of the kind that began last ends.
    HighlightEnd,
}

/// Why a tokenizer gave up.
#[derive(Debug, Clone, Copy, PartialEq, Eq, Structural)]
pub enum HighlightError {
    Cancelled,
    InvalidLanguage,
    Unknown,
}

/// Why a text could not be cut into chunks.
#[derive(Debug, Clone, Copy, PartialEq, Eq, Structural)]
pub enum ParseError {
    /// The tokenizer gave up.
    Highlight(HighlightError),
    /// The tokenizer began text of a kind whose number stands for none.
    UnknownHighlight(usize),
    /// The tokenizer named bytes that are no part of the text.
    BadSpan { start: usize, end: usize },
}

/// The chunk that is being gathered: its kind, and the bytes of the text that
/// it covers so far, if any.
pub struct Pending {
    pub typ: ChunkType,
    pub span: Option<(usize, usize)>,
}

/// Where the gathering of chunks stands: the chunks that are done, and the
/// one that is being gathered, if any.
pub struct Chunker {
    pub done: Seq<ChunkView>,
    pub pending: Option<Pending>,
}

impl Pending {
    /// The chunk that has been gathered: the text of the bytes that it
    /// covers, or no text where it covers none.
    pub open spec fn chunk(self, source: Seq<char>) -> Result<ChunkView, ParseError> {
        match self.span {
            None => Ok(
                ChunkView { contents: Seq::<char>::empty(), start: 0, end: 0, typ: self.typ },
            ),
            Some((start, end)) => match span(source, start as int, end as int) {
                Some(text) => Ok(
                    ChunkView {
                        contents: text,
                        start: start as nat,
                        end: end as nat,
                        typ: self.typ,
                    },
                ),
                None => Err(ParseError::BadSpan { start, end }),
            },
        }
    }

    /// The chunk with the bytes `start..end` taken in: it covers what it
    /// covered, on to `end`.
    pub open spec fn extend(self, start: usize, end: usize) -> Pending {
        Pending {
            typ: self.typ,
            span: Some(
                match self.span {
                    Some((first, _)) => (first, end),
                    None => (start, end),
                },
            ),
        }
    }
}

impl Chunker {
    /// Nothing done, nothing being gathered.
    pub open spec fn start() -> Chunker {
        Chunker { done: Seq::<ChunkView>::empty(), pending: None }
    }

    /// The chunks that are done once the chunk that is being gathered is
    /// done too.
    pub open spec fn flush(self, source: Seq<char>) -> Result<Seq<ChunkView>, ParseError> {
        match self.pending {
            None => Ok(self.done),
            Some(p) => match p.chunk(source) {
                Ok(c) => Ok(self.done.push(c)),
                Err(e) => Err(e),
            },
        }
    }

    /// The gathering after one more event. Text is taken into the chunk that
    /// is being gathered, or begins one of no kind. The start of a kind ends
    /// the chunk that is being gathered and begins one of that kind. The end
    /// of a kind ends the chunk and begins none.
    pub open spec fn feed(self, source: Seq<char>, event: HighlightEvent) -> Result<
        Chunker,
        ParseError,
    > {
        match event {
            HighlightEvent::Source { start, end } => Ok(
                Chunker {
                    done: self.done,
                    pending: Some(
                        match self.pending {
                            Some(p) => p.extend(start, end),
                            None => Pending { typ: ChunkType::Plain, span: Some((start, end)) },
                        },
                    ),
                },
            ),
            HighlightEvent::HighlightStart(i) => match self.flush(source) {
                Err(e) => Err(e),
                Ok(done) => match ChunkType::of_index(i as int) {
                    Some(typ) => Ok(
                        Chunker { done: done, pending: Some(Pending { typ: typ, span: None }) },
                    ),
                    None => Err(ParseError::UnknownHighlight(i)),
                },
            },
            HighlightEvent::HighlightEnd => match self.flush(source) {
                Err(e) => Err(e),
                Ok(done) => Ok(Chunker { done: done, pending: None }),
            },
        }
    }

    /// The gathering after `events`, or the first error on the way.
    pub open spec fn feed_all(source: Seq<char>, events: Seq<HighlightEvent>) -> Result<
        Chunker,
        ParseError,
    >
        decreases events.len(),
    {
        if events.len() == 0 {
            Ok(Chunker::start())
        } else {
            match Chunker::feed_all(source, events.drop_last()) {
                Err(e) => Err(e),
                Ok(state) => state.feed(source, events.last()),
            }
        }
    }
}

/// The chunks that `events` cut `source` into.
pub open spec fn chunks_of_events(source: Seq<char>, events: Seq<HighlightEvent>) -> Result<
    Seq<ChunkView>,
    ParseError,
> {
    match Chunker::feed_all(source, events) {
        Err(e) => Err(e),
        Ok(state) => state.flush(source),
    }
}

/// Whether `r` is `want` seen through the views of the chunks.
pub open spec fn chunks_are(
    r: Result<Vec<Chunk>, ParseError>,
    want: Result<Seq<ChunkView>, ParseError>,
) -> bool {
    match want {
        Ok(chunks) => r matches Ok(v) && chunk_views(v@) == chunks,
        Err(e) => r matches Err(f) && f == e,
    }
}

/// Ends the chunk that is being gathered; see [`Chunker::flush`].
fn flush<'a>(
    source: &'a str,
    done: Vec<Chunk<'a>>,
    pending: Option<(ChunkType, Option<(usize, usize)>)>,
) -> (r: Result<Vec<Chunk<'a>>, ParseError>)
    ensures
        chunks_are(
            r,
            (Chunker {
                done: chunk_views(done@),
                pending: match pending {
                    Some((typ, span)) => Some(Pending { typ: typ, span: span }),
                    None => None,
                },
            }).flush(source@),
        ),
{
    let mut done = done;
    match pending {
        None => Ok(done),
        Some((typ, None)) => {
            let ghost before = chunk_views(done@);
            let chunk = Chunk::with_type(typ);
            done.push(chunk);
            proof {
                assert(chunk_views(done@) =~= before.push(chunk@));
            }
            Ok(done)
        },
        Some((typ, Some((start, end)))) => match byte_slice(source, start, end) {
            Some(text) => {
                let ghost before = chunk_views(done@);
                let chunk = Chunk { contents: text, start, end, typ };
                done.push(chunk);
                proof {
                    assert(chunk_views(done@) =~= before.push(chunk@));
                }
                Ok(done)
            },
            None => Err(ParseError::BadSpan { start, end }),
        },
    }
}

/// Gathers the events of a tokenizer into the chunks of `source`; see
/// [`chunks_of_events`]. Each chunk holds the text of the bytes that it is
/// taken from. Where the spans of the events partition the text and every
/// kind that begins is one of the kinds, there is no error and the chunks
/// make up the text.
pub fn chunks_from_events<'a>(source: &'a str, events: &Vec<HighlightEvent>) -> (r: Result<
    Vec<Chunk<'a>>,
    ParseError,
>)
    ensures
        chunks_are(r, chunks_of_events(source@, events@)),
        r matches Ok(chunks) ==> forall|i: int|
            0 <= i < chunks@.len() ==> span(
                source@,
                (#[trigger] chunks@[i]).start as int,
                chunks@[i].end as int,
            ) == Some(chunks@[i].contents@),
        spans_partition(source@, events@) && starts_below(events@, HIGHLIGHT_COUNT as nat)
            ==> (r matches Ok(chunks) && concat_text(chunk_views(chunks@)) == source@),
{
    proof {
        lemma_chunks_are_spans(source@, events@);
        if spans_partition(source@, events@) && starts_below(events@, HIGHLIGHT_COUNT as nat) {
            lemma_partition_round_trip(source@, events@);
        }
        match chunks_of_events(source@, events@) {
            Ok(views) => {
                assert forall|v: Vec<Chunk<'a>>, i: int|
                    chunk_views(v@) == views && 0 <= i < v@.len() implies span(
                    source@,
                    (#[trigger] v@[i]).start as int,
                    v@[i].end as int,
                ) == Some(v@[i].contents@) by {
                    assert(chunk_views(v@)[i] == v@[i]@);
                }
            },
            Err(_) => {},
        }
    }
    let mut done: Vec<Chunk<'a>> = Vec::new();
    let mut pending: Option<(ChunkType, Option<(usize, usize)>)> = None;
    let mut i: usize = 0;
    proof {
        assert(events@.take(0) =~= Seq::<HighlightEvent>::empty());
        assert(chunk_views(done@) =~= Seq::<ChunkView>::empty());
    }
    while i < events.len()
        invariant
            i <= events@.len(),
            spans_partition(source@, events@) && starts_below(events@, HIGHLIGHT_COUNT as nat)
                ==> chunks_of_events(source@, events@) is Ok,
            Chunker::feed_all(source@, events@.take(i as int)) == Ok::<Chunker, ParseError>(
                Chunker {
                    done: chunk_views(done@),
                    pending: match pending {
                        Some((typ, span)) => Some(Pending { typ: typ, span: span }),
                        None => None,
                    },
                },
            ),
        decreases events@.len() - i,
    {
        proof {
            assert(events@.take(i + 1).drop_last() =~= events@.take(i as int));
            assert(events@.take(i + 1).last() == events@[i as int]);
            lemma_error_stays(source@, events@, i + 1);
        }
        match events[i] {
            HighlightEvent::Source { start, end } => {
                pending = Some(
                    match pending {
                        Some((typ, Some((first, _)))) => (typ, Some((first, end))),
                        Some((typ, None)) => (typ, Some((start, end))),
                        None => (ChunkType::Plain, Some((start, end))),
                    },
                );
            },
            HighlightEvent::HighlightStart(n) => {
                match flush(source, done, pending) {
                    Ok(v) => {
                        done = v;
                    },
                    Err(e) => {
                        return Err(e);
                    },
                }
                match ChunkType::from_index(n) {
                    Some(typ) => {
                        pending = Some((typ, None));
                    },
                    None => {
                        return Err(ParseError::UnknownHighlight(n));
                    },
                }
            },
            HighlightEvent::HighlightEnd => {
                match flush(source, done, pending) {
                    Ok(v) => {
                        done = v;
                    },
                    Err(e) => {
                        return Err(e);
                    },
                }
                pending = None;
            },
        }
        i = i + 1;
    }
    proof {
        assert(events@.take(events@.len() as int) =~= events@);
    }
    flush(source, done, pending)
}

/// Where the text ends that `events` have named, if they named the text
/// from its start on, span after span: each span begins where the one before
/// it ended, and is made of whole characters of `source`. Nothing where a
/// span leaves bytes out, names bytes again, or is no span of the text.
pub open spec fn walked(source: Seq<char>, events: Seq<HighlightEvent>) -> Option<int>
    decreases events.len(),
{
    if events.len() == 0 {
        Some(0)
    } else {
        match walked(source, events.drop_last()) {
            None => None,
            Some(pos) => match events.last() {
                HighlightEvent::Source { start, end } => if start == pos && span(
                    source,
                    start as int,
                    end as int,
                ) is Some {
                    Some(end as int)
                } else {
                    None
                },
                _ => Some(pos),
            },
        }
    }
}

/// Whether the spans that `events` name partition `source`: taken in their
/// order, they name each byte of the text once, from the first to the last.
pub open spec fn spans_partition(source: Seq<char>, events: Seq<HighlightEvent>) -> bool {
    walked(source, events) == Some(encode_utf8(source).len() as int)
}

impl Chunker {
    /// Whether the gathering has taken in the text up to byte `pos` and
    /// nothing else: the chunks that are done, and the one that is being
    /// gathered, make up the text before `pos`.
    pub open spec fn covers(self, source: Seq<char>, pos: int) -> bool {
        &&& span(source, 0, pos) is Some
        &&& match self.pending {
            Some(Pending { span: Some((first, end)), .. }) => {
                &&& end == pos
                &&& first <= pos
                &&& span(source, 0, first as int) == Some(concat_text(self.done))
            },
            _ => span(source, 0, pos) == Some(concat_text(self.done)),
        }
    }
}

/// Ending the chunk that is being gathered loses nothing: the chunks that
/// are then done make up the text that had been taken in.
pub proof fn lemma_flush_covers(state: Chunker, source: Seq<char>, pos: int)
    requires
        state.covers(source, pos),
    ensures
        state.flush(source) matches Ok(done) && span(source, 0, pos) == Some(concat_text(done)),
{
    match state.pending {
        Some(p) => {
            match p.span {
                Some((first, end)) => {
                    // both ends of the chunk are ends of characters
                    assert(span(source, first as int, pos) is Some);
                    lemma_span_concat(source, 0, first as int, pos);
                    let chunk = p.chunk(source)->Ok_0;
                    assert(state.done.push(chunk).drop_last() =~= state.done);
                },
                None => {
                    let chunk = p.chunk(source)->Ok_0;
                    assert(state.done.push(chunk).drop_last() =~= state.done);
                    assert(concat_text(state.done) + chunk.contents =~= concat_text(state.done));
                },
            }
        },
        None => {},
    }
}

/// Events that name the text span after span, and begin no kind that there
/// is not, are gathered without error, and the gathering takes in the text
/// up to where they end.
pub proof fn lemma_walk_covers(source: Seq<char>, events: Seq<HighlightEvent>)
    requires
        walked(source, events) is Some,
        starts_below(events, HIGHLIGHT_COUNT as nat),
    ensures
        Chunker::feed_all(source, events) matches Ok(state) && state.covers(
            source,
            walked(source, events)->Some_0,
        ),
    decreases events.len(),
{
    if events.len() == 0 {
        lemma_span_whole(source);
    } else {
        let front = events.drop_last();
        assert forall|k: int| 0 <= k < front.len() implies (#[trigger] front[k] matches HighlightEvent::HighlightStart(
            n,
        ) ==> n < HIGHLIGHT_COUNT as nat) by {
            assert(front[k] == events[k]);
        }
        lemma_walk_covers(source, front);
        let state = Chunker::feed_all(source, front)->Ok_0;
        let pos = walked(source, front)->Some_0;
        assert(events.last() == events[events.len() - 1]);
        match events.last() {
            HighlightEvent::Source { start, end } => {
                // the new span ends where a character ends, so the text up
                // to its end is a span too
                lemma_span_concat(source, 0, start as int, end as int);
            },
            _ => {
                lemma_flush_covers(state, source, pos);
            },
        }
    }
}

/// The round trip of the gathering: where the spans of the events partition
/// the text, and no kind begins that there is not, the text is cut into
/// chunks without error, and the texts of the chunks, one after the other,
/// are the text.
pub proof fn lemma_partition_round_trip(source: Seq<char>, events: Seq<HighlightEvent>)
    requires
        spans_partition(source, events),
        starts_below(events, HIGHLIGHT_COUNT as nat),
    ensures
        chunks_of_events(source, events) matches Ok(chunks) && concat_text(chunks) == source,
{
    lemma_walk_covers(source, events);
    let state = Chunker::feed_all(source, events)->Ok_0;
    lemma_flush_covers(state, source, encode_utf8(source).len() as int);
    lemma_span_whole(source);
}

/// Each chunk holds the text of the bytes that it is taken from, and a
/// chunk that is taken from no bytes holds no text.
pub proof fn lemma_chunks_are_spans(source: Seq<char>, events: Seq<HighlightEvent>)
    ensures
        Chunker::feed_all(source, events) matches Ok(state) ==> forall|i: int|
            0 <= i < state.done.len() ==> span(
                source,
                (#[trigger] state.done[i]).start as int,
                state.done[i].end as int,
            ) == Some(state.done[i].contents),
        chunks_of_events(source, events) matches Ok(chunks) ==> forall|i: int|
            0 <= i < chunks.len() ==> span(
                source,
                (#[trigger] chunks[i]).start as int,
                chunks[i].end as int,
            ) == Some(chunks[i].contents),
    decreases events.len(),
{
    lemma_span_whole(source);
    if events.len() > 0 {
        lemma_chunks_are_spans(source, events.drop_last());
    }
}

/// Text that stands in no kind is gathered into chunks of no kind: where no
/// kind begins in the events, every chunk is plain.
pub proof fn lemma_untyped_text_is_plain(source: Seq<char>, events: Seq<HighlightEvent>)
    requires
        forall|k: int| 0 <= k < events.len() ==> !(#[trigger] events[k] is HighlightStart),
    ensures
        Chunker::feed_all(source, events) matches Ok(state) ==> {
            &&& forall|i: int|
                0 <= i < state.done.len() ==> (#[trigger] state.done[i]).typ == ChunkType::Plain
            &&& state.pending matches Some(p) ==> p.typ == ChunkType::Plain
        },
        chunks_of_events(source, events) matches Ok(chunks) ==> forall|i: int|
            0 <= i < chunks.len() ==> (#[trigger] chunks[i]).typ == ChunkType::Plain,
    decreases events.len(),
{
    if events.len() > 0 {
        let front = events.drop_last();
        assert forall|k: int| 0 <= k < front.len() implies !(#[trigger] front[k] is HighlightStart) by {
            assert(front[k] == events[k]);
        }
        lemma_untyped_text_is_plain(source, front);
        assert(events.last() == events[events.len() - 1]);
    }
}

/// Once the gathering has failed, more events do not mend it: the error
/// after some of the events is the error after all of them.
pub proof fn lemma_error_stays(source: Seq<char>, events: Seq<HighlightEvent>, n: int)
    requires
        0 <= n <= events.len(),
    ensures
        Chunker::feed_all(source, events.take(n)) is Err ==> Chunker::feed_all(source, events)
            == Chunker::feed_all(source, events.take(n)),
    decreases events.len() - n,
{
    if n < events.len() {
        assert(events.take(n + 1).drop_last() =~= events.take(n));
        lemma_error_stays(source, events, n + 1);
    } else {
        assert(events.take(n) =~= events);
    }
}

/// The configuration of tree-sitter's highlighter for one language:
/// `tree_sitter_highlight::HighlightConfiguration`. Nothing of its inside is
/// known here.
#[verifier::external_type_specification]
#[verifier::external_body]
pub struct ExHighlightConfiguration(HighlightConfiguration);

/// The events that the highlighter of tree-sitter gives for a text under a
/// configuration, or the error that it ends with.
pub uninterp spec fn highlight_events(config: HighlightConfiguration, source: Seq<char>) -> Result<
    Seq<HighlightEvent>,
    HighlightError,
>;

/// How many highlight names a configuration has been told to recognize.
pub uninterp spec fn recognized_count(config: HighlightConfiguration) -> nat;

/// Whether every highlight that begins in `events` has a number below `count`.
pub open spec fn starts_below(events: Seq<HighlightEvent>, count: nat) -> bool {
    forall|k: int|
        0 <= k < events.len() ==> (#[trigger] events[k] matches HighlightEvent::HighlightStart(n)
            ==> n < count)
}

/// `tree_sitter_highlight::Highlighter::highlight`, run to its end without
/// cancellation and without languages inside the language. The events come
/// as the iterator gives them, up to its first error. A highlight that
/// begins is numbered by its place in the list of names that the
/// configuration was told to recognize.
#[verifier::external_body]
fn run_highlighter(config: &HighlightConfiguration, source: &str) -> (r: Result<
    Vec<HighlightEvent>,
    HighlightError,
>)
    ensures
        match r {
            Ok(v) => highlight_events(*config, source@) == Ok::<Seq<HighlightEvent>, HighlightError>(
                v@,
            ) && starts_below(v@, recognized_count(*config)),
            Err(e) => highlight_events(*config, source@) == Err::<
                Seq<HighlightEvent>,
                HighlightError,
            >(e),
        },
{
    let mut highlighter = tree_sitter_highlight::Highlighter::new();
    let events: Result<Vec<_>, _> = highlighter
        .highlight(config, source.as_bytes(), None, |_| None)
        .and_then(|it| it.collect());
    match events {
        Ok(v) => Ok(v.into_iter().map(|e| match e {
            tree_sitter_highlight::HighlightEvent::Source { start, end } => HighlightEvent::Source { start, end },
            tree_sitter_highlight::HighlightEvent::HighlightStart(h) => HighlightEvent::HighlightStart(h.0),
            tree_sitter_highlight::HighlightEvent::HighlightEnd => HighlightEvent::HighlightEnd,
        }).collect()),
        Err(tree_sitter_highlight::Error::Cancelled) => Err(HighlightError::Cancelled),
        Err(tree_sitter_highlight::Error::InvalidLanguage) => Err(HighlightError::InvalidLanguage),
        Err(tree_sitter_highlight::Error::Unknown) => Err(HighlightError::Unknown),
    }
}

/// Whether tree-sitter takes, for the Rust grammar of `tree_sitter_rust`, the
/// highlighting and injection queries of that grammar together with `locals`
/// as the query for local variables.
pub uninterp spec fn rust_queries_accepted(locals: Seq<char>) -> bool;

/// `tree_sitter_highlight::HighlightConfiguration::new` for the Rust grammar
/// of `tree_sitter_rust` with its highlighting and injection queries and
/// `locals_query` as the query for local variables. It gives a configuration
/// where tree-sitter takes the queries, which the queries alone decide, and
/// nothing where it refuses them.
#[verifier::external_body]
fn rust_configuration(locals_query: &str) -> (r: Option<HighlightConfiguration>)
    ensures
        r is Some <==> rust_queries_accepted(locals_query@),
{
    HighlightConfiguration::new(
        tree_sitter_rust::language(),
        tree_sitter_rust::HIGHLIGHT_QUERY,
        tree_sitter_rust::INJECTIONS_QUERY,
        locals_query,
    ).ok()
}

/// `tree_sitter_highlight::HighlightConfiguration::configure`: the
/// configuration is told to recognize `names`, in place of any names that it
/// recognized before.
#[verifier::external_body]
fn configure(config: &mut HighlightConfiguration, names: &Vec<&'static str>)
    ensures
        recognized_count(*final(config)) == names@.len(),
{
    config.configure(names.as_slice())
}

/// What was made as a configuration, told to tell apart the kinds of
/// [`ChunkType`]: the configuration that was made, recognizing the names of
/// the kinds in the order of their numbers, or nothing where none was made.
pub fn with_kinds(made: Option<HighlightConfiguration>) -> (r: Option<HighlightConfiguration>)
    ensures
        r is Some <==> made is Some,
        r matches Some(config) ==> recognized_count(config) == HIGHLIGHT_COUNT,
{
    match made {
        Some(config) => {
            let mut config = config;
            let names = highlight_names();
            configure(&mut config, &names);
            Some(config)
        },
        None => None,
    }
}

/// A configuration for highlighting Rust that tells apart the kinds of
/// [`ChunkType`]. It is made of the grammar's own highlighting and injection
/// queries, with no query for local variables, and is there whenever
/// tree-sitter takes these queries; nothing where it refuses them.
pub fn rust_parser() -> (r: Option<HighlightConfiguration>)
    ensures
        r is Some <==> rust_queries_accepted(Seq::<char>::empty()),
        r matches Some(config) ==> recognized_count(config) == HIGHLIGHT_COUNT,
{
    proof {
        reveal_strlit("");
        assert(""@ =~= Seq::<char>::empty());
    }
    with_kinds(rust_configuration(""))
}

/// Where every highlight that begins is one of the kinds, the gathering does
/// not fail for a kind that stands for none.
pub proof fn lemma_kinds_known(source: Seq<char>, events: Seq<HighlightEvent>)
    requires
        starts_below(events, HIGHLIGHT_COUNT as nat),
    ensures
        !(Chunker::feed_all(source, events) matches Err(ParseError::UnknownHighlight(_))),
        !(chunks_of_events(source, events) matches Err(ParseError::UnknownHighlight(_))),
    decreases events.len(),
{
    if events.len() > 0 {
        let front = events.drop_last();
        assert forall|k: int| 0 <= k < front.len() implies (#[trigger] front[k] matches HighlightEvent::HighlightStart(
            n,
        ) ==> n < HIGHLIGHT_COUNT as nat) by {
            assert(front[k] == events[k]);
        }
        lemma_kinds_known(source, front);
        assert(events.last() == events[events.len() - 1]);
    }
}

/// Cuts `source` into chunks with the tokenizer that `lang_config` sets up:
/// the chunks that its events give, see [`chunks_of_events`], or the error
/// that it gave up with. Each chunk holds the text of the bytes that it is
/// taken from. A configuration that recognizes no more names than there are
/// kinds does not fail for an unknown kind; where, with such a
/// configuration, the spans of the events partition the text, there is no
/// error and the chunks make up the text.
pub fn parse<'a>(source: &'a str, lang_config: &HighlightConfiguration) -> (r: Result<
    Vec<Chunk<'a>>,
    ParseError,
>)
    ensures
        chunks_are(
            r,
            match highlight_events(*lang_config, source@) {
                Ok(events) => chunks_of_events(source@, events),
                Err(e) => Err(ParseError::Highlight(e)),
            },
        ),
        recognized_count(*lang_config) <= HIGHLIGHT_COUNT ==> !(r matches Err(
            ParseError::UnknownHighlight(_),
        )),
        r matches Ok(chunks) ==> forall|i: int|
            0 <= i < chunks@.len() ==> span(
                source@,
                (#[trigger] chunks@[i]).start as int,
                chunks@[i].end as int,
            ) == Some(chunks@[i].contents@),
        (highlight_events(*lang_config, source@) matches Ok(events) && spans_partition(
            source@,
            events,
        )) && recognized_count(*lang_config) <= HIGHLIGHT_COUNT ==> (r matches Ok(chunks)
            && concat_text(chunk_views(chunks@)) == source@),
{
    match run_highlighter(lang_config, source) {
        Ok(events) => {
            proof {
                if recognized_count(*lang_config) <= HIGHLIGHT_COUNT {
                    lemma_kinds_known(source@, events@);
                }
            }
            chunks_from_events(source, &events)
        },
        Err(e) => Err(ParseError::Highlight(e)),
    }
}

/// The whole of `source` as one chunk of no kind.
pub open spec fn plain(source: Seq<char>) -> Seq<ChunkView> {
    seq![
        ChunkView {
            contents: source,
            start: 0,
            end: encode_utf8(source).len(),
            typ: ChunkType::Plain,
        },
    ]
}

/// The chunks of `source` by the events of a tokenizer. Where the tokenizer
/// gave up, or its events do not fit the text, or the chunks that they give do
/// not make up the text, the whole text as one chunk of no kind.
pub open spec fn chunks_or_plain_of(
    source: Seq<char>,
    events: Result<Seq<HighlightEvent>, HighlightError>,
) -> Seq<ChunkView> {
    match events {
        Ok(events) => match chunks_of_events(source, events) {
            Ok(chunks) => if concat_text(chunks) == source {
                chunks
            } else {
                plain(source)
            },
            Err(_) => plain(source),
        },
        Err(_) => plain(source),
    }
}

/// Whatever the tokenizer gave, the chunks make up the text.
pub proof fn lemma_chunks_make_up_the_text(
    source: Seq<char>,
    events: Result<Seq<HighlightEvent>, HighlightError>,
)
    ensures
        concat_text(chunks_or_plain_of(source, events)) == source,
{
    crate::syntax::lemma_concat_single(plain(source)[0]);
    assert(plain(source) =~= seq![plain(source)[0]]);
}

/// The text of some chunks is the text of the first of them, then the text
/// of the others.
pub proof fn lemma_concat_text_split(chunks: Seq<ChunkView>, n: int)
    requires
        0 <= n <= chunks.len(),
    ensures
        concat_text(chunks) == concat_text(chunks.take(n)) + concat_text(chunks.skip(n)),
    decreases chunks.len(),
{
    if n == chunks.len() {
        assert(chunks.take(n) =~= chunks);
        assert(chunks.skip(n) =~= Seq::<ChunkView>::empty());
        assert(concat_text(chunks) =~= concat_text(chunks.take(n)) + concat_text(chunks.skip(n)));
    } else {
        let front = chunks.drop_last();
        lemma_concat_text_split(front, n);
        assert(front.take(n) =~= chunks.take(n));
        assert(chunks.skip(n).drop_last() =~= front.skip(n));
        assert(chunks.skip(n).last() == chunks.last());
        assert(concat_text(chunks) =~= concat_text(chunks.take(n)) + concat_text(chunks.skip(n)));
    }
}

/// Whether the texts of `chunks`, one after the other, are `source`.
pub fn make_up(chunks: &Vec<Chunk>, source: &str) -> (r: bool)
    ensures
        r == (concat_text(chunk_views(chunks@)) == source@),
{
    let bytes = source.as_bytes();
    let total = bytes.len();
    let ghost all = chunk_views(chunks@);
    let mut pos: usize = 0;
    let mut i: usize = 0;
    proof {
        assert(all.take(0) =~= Seq::<ChunkView>::empty());
        assert(encode_utf8(concat_text(all.take(0))) =~= bytes@.subrange(0, 0));
    }
    while i < chunks.len()
        invariant
            i <= chunks@.len(),
            all == chunk_views(chunks@),
            bytes@ == encode_utf8(source@),
            total == bytes@.len(),
            pos <= total,
            encode_utf8(concat_text(all.take(i as int))) == bytes@.subrange(0, pos as int),
        decreases chunks@.len() - i,
    {
        let part = chunks[i].contents.as_bytes();
        let n = part.len();
        let ghost done = concat_text(all.take(i as int));
        let ghost text = all[i as int].contents;
        proof {
            assert(all.take(i + 1).drop_last() =~= all.take(i as int));
            assert(all.take(i + 1).last() == all[i as int]);
            lemma_encode_concat(done, text);
            // were the chunks the text, the text would begin with these
            lemma_concat_text_split(all, i + 1);
            lemma_encode_concat(concat_text(all.take(i + 1)), concat_text(all.skip(i + 1)));
        }
        if n > total - pos {
            return false;
        }
        let mut k: usize = 0;
        while k < n
            invariant
                k <= n,
                n == part@.len(),
                all == chunk_views(chunks@),
                part@ == encode_utf8(text),
                bytes@ == encode_utf8(source@),
                total == bytes@.len(),
                n <= total - pos,
                encode_utf8(done) == bytes@.subrange(0, pos as int),
                encode_utf8(done + text) == encode_utf8(done) + part@,
                concat_text(all) == source@ ==> bytes@ == encode_utf8(done + text) + encode_utf8(
                    concat_text(all.skip(i + 1)),
                ),
                forall|j: int| 0 <= j < k ==> part@[j] == bytes@[pos + j],
            decreases n - k,
        {
            if part[k] != bytes[pos + k] {
                proof {
                    if concat_text(all) == source@ {
                        let head = encode_utf8(done) + part@;
                        assert(encode_utf8(done).len() == pos);
                        assert(head[pos + k] == part@[k as int]);
                        assert(bytes@[pos + k] == head[pos + k]);
                    }
                }
                return false;
            }
            k = k + 1;
        }
        proof {
            assert(encode_utf8(done) + part@ =~= bytes@.subrange(0, pos + n));
        }
        pos = pos + n;
        i = i + 1;
    }
    proof {
        assert(all.take(chunks@.len() as int) =~= all);
        if pos == total {
            assert(bytes@.subrange(0, pos as int) =~= bytes@);
            encode_utf8_decode_utf8(concat_text(all));
            encode_utf8_decode_utf8(source@);
        }
    }
    pos == total
}

/// The chunks of `source` by what a tokenizer gave; see
/// [`chunks_or_plain_of`].
pub fn chunks_or_plain<'a>(
    source: &'a str,
    events: &Result<Vec<HighlightEvent>, HighlightError>,
) -> (r: Vec<Chunk<'a>>)
    ensures
        chunk_views(r@) == chunks_or_plain_of(
            source@,
            match events {
                Ok(v) => Ok(v@),
                Err(e) => Err(*e),
            },
        ),
        concat_text(chunk_views(r@)) == source@,
{
    proof {
        lemma_chunks_make_up_the_text(
            source@,
            match events {
                Ok(v) => Ok(v@),
                Err(e) => Err(*e),
            },
        );
    }
    let parsed = match events {
        Ok(v) => chunks_from_events(source, v),
        Err(e) => Err(ParseError::Highlight(*e)),
    };
    match parsed {
        Ok(chunks) => {
            if make_up(&chunks, source) {
                return chunks;
            }
        },
        Err(_) => {},
    }
    let mut chunks: Vec<Chunk<'a>> = Vec::new();
    let chunk = Chunk::from_source(0, source.as_bytes().len(), source);
    chunks.push(chunk);
    proof {
        assert(chunk_views(chunks@) =~= plain(source@));
    }
    chunks
}

/// A piece of text with the colours that it is painted in.
#[derive(Debug, Clone)]
pub struct Span {
    pub text: String,
    pub foreground: Rgb,
    pub background: Rgb,
}

/// A span as a mathematical value.
pub struct SpanView {
    pub text: Seq<char>,
    pub foreground: Rgb,
    pub background: Rgb,
}

impl View for Span {
    type V = SpanView;

    open spec fn view(&self) -> SpanView {
        SpanView { text: self.text@, foreground: self.foreground, background: self.background }
    }
}

/// The views of a sequence of spans.
pub open spec fn span_views(spans: Seq<Span>) -> Seq<SpanView> {
    Seq::new(spans.len(), |i: int| spans[i]@)
}

/// The views of a sequence of rows of spans.
pub open spec fn row_views(rows: Seq<Vec<Span>>) -> Seq<Seq<SpanView>> {
    Seq::new(rows.len(), |i: int| span_views(rows[i]@))
}

/// Whether `r` is `want` seen through the views of the spans.
pub open spec fn rows_are(
    r: Result<Vec<Vec<Span>>, ParseColorError>,
    want: Result<Seq<Seq<SpanView>>, ParseColorError>,
) -> bool {
    match want {
        Ok(rows) => r matches Ok(v) && row_views(v@) == rows,
        Err(e) => r matches Err(f) && f == e,
    }
}

impl Theme {
    /// The chunk in the colours of the theme: those that the theme gives to
    /// the scope of its kind, or the default colours where its kind has no
    /// scope. An error where the foreground is not well written, else where
    /// the background is not.
    pub open spec fn paint_chunk(&self, chunk: ChunkView) -> Result<SpanView, ParseColorError> {
        let (foreground, background) = match chunk.typ.scope() {
            Some(scope) => (self.foreground_of(scope), self.background_of(scope)),
            None => (self.foreground@, self.background@),
        };
        match parse_color(foreground) {
            Err(e) => Err(e),
            Ok(f) => match parse_color(background) {
                Err(e) => Err(e),
                Ok(b) => Ok(SpanView { text: chunk.contents, foreground: f, background: b }),
            },
        }
    }

    /// The chunks of a row in the colours of the theme, or the error of the
    /// first chunk that has one.
    pub open spec fn paint_row(&self, chunks: Seq<ChunkView>) -> Result<
        Seq<SpanView>,
        ParseColorError,
    >
        decreases chunks.len(),
    {
        if chunks.len() == 0 {
            Ok(Seq::<SpanView>::empty())
        } else {
            match self.paint_row(chunks.drop_last()) {
                Err(e) => Err(e),
                Ok(spans) => match self.paint_chunk(chunks.last()) {
                    Err(e) => Err(e),
                    Ok(span) => Ok(spans.push(span)),
                },
            }
        }
    }

    /// The rows in the colours of the theme, or the error of the first row
    /// that has one.
    pub open spec fn paint_rows(&self, rows: Seq<Seq<ChunkView>>) -> Result<
        Seq<Seq<SpanView>>,
        ParseColorError,
    >
        decreases rows.len(),
    {
        if rows.len() == 0 {
            Ok(Seq::<Seq<SpanView>>::empty())
        } else {
            match self.paint_rows(rows.drop_last()) {
                Err(e) => Err(e),
                Ok(done) => match self.paint_row(rows.last()) {
                    Err(e) => Err(e),
                    Ok(row) => Ok(done.push(row)),
                },
            }
        }
    }

    /// The chunk in the colours of the theme; see [`Theme::paint_chunk`].
    fn paint_one(&self, chunk: &Chunk) -> (r: Result<Span, ParseColorError>)
        ensures
            match self.paint_chunk(chunk@) {
                Ok(span) => r matches Ok(s) && s@ == span,
                Err(e) => r matches Err(f) && f == e,
            },
    {
        let (foreground, background) = match chunk.typ.theme_scope() {
            Some(scope) => {
                let style = self.resolve(scope);
                (style.foreground, style.background)
            },
            None => (self.foreground.clone(), self.background.clone()),
        };
        match Rgb::from_hex(foreground.as_str()) {
            Err(e) => Err(e),
            Ok(f) => match Rgb::from_hex(background.as_str()) {
                Err(e) => Err(e),
                Ok(b) => Ok(
                    Span {
                        text: String::from_str(chunk.contents),
                        foreground: f,
                        background: b,
                    },
                ),
            },
        }
    }

    /// Gives the rows of chunks the colours of the theme; see
    /// [`Theme::paint_rows`].
    #[verifier::loop_isolation(false)]
    pub fn paint(&self, rows: &[Vec<Chunk>]) -> (r: Result<Vec<Vec<Span>>, ParseColorError>)
        ensures
            rows_are(r, self.paint_rows(line_views(rows@))),
    {
        let ghost all = line_views(rows@);
        let mut out: Vec<Vec<Span>> = Vec::new();
        let mut i: usize = 0;
        proof {
            assert(all.take(0) =~= Seq::<Seq<ChunkView>>::empty());
            assert(row_views(out@) =~= Seq::<Seq<SpanView>>::empty());
        }
        while i < rows.len()
            invariant
                i <= rows@.len(),
                all == line_views(rows@),
                self.paint_rows(all.take(i as int)) == Ok::<Seq<Seq<SpanView>>, ParseColorError>(
                    row_views(out@),
                ),
            decreases rows@.len() - i,
        {
            let row = &rows[i];
            let ghost chunks = chunk_views(row@);
            let mut spans: Vec<Span> = Vec::new();
            let mut j: usize = 0;
            proof {
                assert(all.take(i + 1).drop_last() =~= all.take(i as int));
                assert(all.take(i + 1).last() == chunks);
                lemma_paint_error_stays(*self, all, i + 1);
                assert(chunks.take(0) =~= Seq::<ChunkView>::empty());
                assert(span_views(spans@) =~= Seq::<SpanView>::empty());
            }
            while j < row.len()
                invariant
                    j <= row@.len(),
                    chunks == chunk_views(row@),
                    self.paint_row(chunks.take(j as int)) == Ok::<Seq<SpanView>, ParseColorError>(
                        span_views(spans@),
                    ),
                decreases row@.len() - j,
            {
                proof {
                    assert(chunks.take(j + 1).drop_last() =~= chunks.take(j as int));
                    assert(chunks.take(j + 1).last() == row@[j as int]@);
                    lemma_paint_row_error_stays(*self, chunks, j + 1);
                }
                match self.paint_one(&row[j]) {
                    Ok(span) => {
                        let ghost before = span_views(spans@);
                        spans.push(span);
                        proof {
                            assert(span_views(spans@) =~= before.push(span@));
                        }
                    },
                    Err(e) => {
                        return Err(e);
                    },
                }
                j = j + 1;
            }
            proof {
                assert(chunks.take(row@.len() as int) =~= chunks);
            }
            let ghost before = row_views(out@);
            out.push(spans);
            proof {
                assert(row_views(out@) =~= before.push(span_views(spans@)));
            }
            i = i + 1;
        }
        proof {
            assert(all.take(rows@.len() as int) =~= all);
        }
        Ok(out)
    }
}

/// The texts of `spans`, one after the other.
pub open spec fn span_text(spans: Seq<SpanView>) -> Seq<char>
    decreases spans.len(),
{
    if spans.len() == 0 {
        Seq::<char>::empty()
    } else {
        span_text(spans.drop_last()) + spans.last().text
    }
}

/// The text of each of `rows`.
pub open spec fn row_texts(rows: Seq<Seq<SpanView>>) -> Seq<Seq<char>> {
    Seq::new(rows.len(), |i: int| span_text(rows[i]))
}

/// Painting changes no text: the rows that come of it hold the texts of the
/// rows of chunks that went in.
pub proof fn lemma_paint_keeps_text(theme: Theme, rows: Seq<Seq<ChunkView>>)
    ensures
        theme.paint_rows(rows) matches Ok(painted) ==> painted.len() == rows.len() && row_texts(
            painted,
        ) == crate::syntax::line_texts(rows),
    decreases rows.len(),
{
    if rows.len() > 0 {
        lemma_paint_keeps_text(theme, rows.drop_last());
        lemma_paint_row_keeps_text(theme, rows.last());
        match theme.paint_rows(rows) {
            Ok(painted) => {
                let before = theme.paint_rows(rows.drop_last())->Ok_0;
                let row = theme.paint_row(rows.last())->Ok_0;
                assert(painted == before.push(row));
                assert(span_text(row) == concat_text(rows.last()));
                assert forall|i: int| 0 <= i < rows.len() implies row_texts(painted)[i]
                    == crate::syntax::line_texts(rows)[i] by {
                    if i < rows.len() - 1 {
                        assert(painted[i] == before[i]);
                        assert(row_texts(before)[i] == span_text(before[i]));
                        assert(crate::syntax::line_texts(rows.drop_last())[i] == concat_text(
                            rows.drop_last()[i],
                        ));
                    } else {
                        assert(painted[i] == row);
                    }
                }
                assert(row_texts(painted) =~= crate::syntax::line_texts(rows));
            },
            Err(_) => {},
        }
    } else {
        assert(row_texts(Seq::<Seq<SpanView>>::empty()) =~= crate::syntax::line_texts(rows));
    }
}

/// Painting a row changes no text.
pub proof fn lemma_paint_row_keeps_text(theme: Theme, chunks: Seq<ChunkView>)
    ensures
        theme.paint_row(chunks) matches Ok(spans) ==> span_text(spans) == concat_text(chunks),
    decreases chunks.len(),
{
    if chunks.len() > 0 {
        lemma_paint_row_keeps_text(theme, chunks.drop_last());
        match theme.paint_row(chunks) {
            Ok(spans) => {
                assert(spans.drop_last() =~= theme.paint_row(chunks.drop_last())->Ok_0);
            },
            Err(_) => {},
        }
    }
}

/// What is painted is the text itself: whatever the tokenizer gave, the rows
/// of the screen hold the lines of the text that are in sight.
pub proof fn lemma_screen_shows_the_text(
    lines: Seq<Seq<char>>,
    events: Result<Seq<HighlightEvent>, HighlightError>,
    theme: Theme,
    viewport: Viewport,
)
    ensures
        screen_of(lines, events, theme, viewport) matches Ok(rows) ==> row_texts(rows)
            == viewport.in_sight(crate::text::split(join(lines, '\n'), '\n')),
{
    let source = join(lines, '\n');
    let chunks = chunks_or_plain_of(source, events);
    let laid = lines_of_chunks(chunks);
    lemma_chunks_make_up_the_text(source, events);
    crate::syntax::lemma_lines_of_chunks_text(chunks);
    lemma_paint_keeps_text(theme, viewport.in_sight(laid));
    assert(crate::syntax::line_texts(viewport.in_sight(laid)) =~= viewport.in_sight(
        crate::syntax::line_texts(laid),
    ));
}

/// Where the buffer has a line and no line holds a line feed, the rows of
/// the screen hold the lines of the buffer that are in sight.
pub proof fn lemma_screen_shows_the_buffer(
    lines: Seq<Seq<char>>,
    events: Result<Seq<HighlightEvent>, HighlightError>,
    theme: Theme,
    viewport: Viewport,
)
    requires
        lines.len() >= 1,
        forall|i: int, j: int|
            0 <= i < lines.len() && 0 <= j < lines[i].len() ==> lines[i][j] != '\n',
    ensures
        screen_of(lines, events, theme, viewport) matches Ok(rows) ==> row_texts(rows)
            == viewport.in_sight(lines),
{
    lemma_screen_shows_the_text(lines, events, theme, viewport);
    crate::text::lemma_split_join(lines, '\n');
}

/// The error of a row is the error of its first chunks that have one.
pub proof fn lemma_paint_row_error_stays(theme: Theme, chunks: Seq<ChunkView>, n: int)
    requires
        0 <= n <= chunks.len(),
    ensures
        theme.paint_row(chunks.take(n)) is Err ==> theme.paint_row(chunks) == theme.paint_row(
            chunks.take(n),
        ),
    decreases chunks.len() - n,
{
    if n < chunks.len() {
        assert(chunks.take(n + 1).drop_last() =~= chunks.take(n));
        lemma_paint_row_error_stays(theme, chunks, n + 1);
    } else {
        assert(chunks.take(n) =~= chunks);
    }
}

/// The error of the rows is the error of the first rows that have one.
pub proof fn lemma_paint_error_stays(theme: Theme, rows: Seq<Seq<ChunkView>>, n: int)
    requires
        0 <= n <= rows.len(),
    ensures
        theme.paint_rows(rows.take(n)) is Err ==> theme.paint_rows(rows) == theme.paint_rows(
            rows.take(n),
        ),
    decreases rows.len() - n,
{
    if n < rows.len() {
        assert(rows.take(n + 1).drop_last() =~= rows.take(n));
        lemma_paint_error_stays(theme, rows, n + 1);
    } else {
        assert(rows.take(n) =~= rows);
    }
}

/// The rows of the screen for a text of `lines`, given what the tokenizer
/// made of the whole text: the chunks of the text, laid out in lines, those
/// in sight, in the colours of the theme.
pub open spec fn screen_of(
    lines: Seq<Seq<char>>,
    events: Result<Seq<HighlightEvent>, HighlightError>,
    theme: Theme,
    viewport: Viewport,
) -> Result<Seq<Seq<SpanView>>, ParseColorError> {
    let source = join(lines, '\n');
    theme.paint_rows(viewport.in_sight(lines_of_chunks(chunks_or_plain_of(source, events))))
}

/// The rows of the screen for `buffer`, given what the tokenizer made of its
/// text; see [`screen_of`]. `source` is the text of the buffer.
pub fn render(
    source: &str,
    events: &Result<Vec<HighlightEvent>, HighlightError>,
    theme: &Theme,
    viewport: &Viewport,
) -> (r: Result<Vec<Vec<Span>>, ParseColorError>)
    ensures
        rows_are(
            r,
            theme.paint_rows(
                viewport.in_sight(
                    lines_of_chunks(
                        chunks_or_plain_of(
                            source@,
                            match events {
                                Ok(v) => Ok(v@),
                                Err(e) => Err(*e),
                            },
                        ),
                    ),
                ),
            ),
        ),
{
    let chunks = chunks_or_plain(source, events);
    let lines = split_chunks(chunks);
    let visible = viewport.clamp_lines(lines.as_slice());
    proof {
        assert(line_views(visible@) =~= viewport.in_sight(line_views(lines@)));
    }
    theme.paint(visible)
}

/// The rows of the screen for `buffer`: its text is run through the
/// tokenizer that `config` sets up, and what comes of it is laid out and
/// painted; see [`screen_of`]. A tokenizer that fails costs the colours, not
/// the text. The only error is a colour of the theme that is not well
/// written.
pub fn highlight(
    buffer: &Vec<String>,
    theme: &Theme,
    viewport: &Viewport,
    config: &HighlightConfiguration,
) -> (r: Result<Vec<Vec<Span>>, ParseColorError>)
    ensures
        rows_are(
            r,
            screen_of(
                string_views(buffer@),
                highlight_events(*config, join(string_views(buffer@), '\n')),
                *theme,
                *viewport,
            ),
        ),
        r matches Ok(rows) ==> row_texts(row_views(rows@)) == viewport.in_sight(
            crate::text::split(join(string_views(buffer@), '\n'), '\n'),
        ),
{
    proof {
        lemma_screen_shows_the_text(
            string_views(buffer@),
            highlight_events(*config, join(string_views(buffer@), '\n')),
            *theme,
            *viewport,
        );
    }
    let source = join_lines(buffer);
    let events = run_highlighter(config, source.as_str());
    render(source.as_str(), &events, theme, viewport)
}

} // verus!
