//! The CommonMark event stream that drives the assistant markdown parser.
//!
//! Tokenising markdown is pulldown-cmark's work; this module carries its
//! events as plain values of the library's own types, and holds the trusted
//! items through which the parser is called.

use pulldown_cmark::{Alignment, CodeBlockKind, Event, Options, Parser, Tag, TagEnd};
use vstd::prelude::*;

verus! {

/// Column alignment of a table.
#[derive(Debug, Clone, Copy, PartialEq, Eq)]
pub enum MdAlign {
    Unspecified,
    Left,
    Center,
    Right,
}

/// Opening tag of a markdown element.
#[derive(Debug, Clone)]
pub enum MdTag {
    Paragraph,
    /// Heading with its level, 1 to 6.
    Heading(u32),
    BlockQuote,
    /// Fenced code block with its info string, or an indented one (`None`).
    CodeBlock(Option<String>),
    Item,
    /// List, ordered from the given start number, or unordered (`None`).
    List(Option<u64>),
    Table(Vec<MdAlign>),
    TableHead,
    TableRow,
    TableCell,
    Emphasis,
    Strong,
    Strikethrough,
    /// Link with its destination.
    Link(String),
    /// Image with its destination.
    Image(String),
    /// Footnote definitions, HTML and metadata blocks, definition lists:
    /// containers the parsers do not render on their own.
    Other,
}

/// Closing tag of a markdown element.
#[derive(Debug, Clone, Copy, PartialEq, Eq)]
pub enum MdTagEnd {
    Paragraph,
    Heading,
    BlockQuote,
    CodeBlock,
    Item,
    List,
    Table,
    TableHead,
    TableRow,
    TableCell,
    Emphasis,
    Strong,
    Strikethrough,
    Link,
    Image,
    Other,
}

/// One event of the markdown event stream.
#[derive(Debug, Clone)]
pub enum MdEvent {
    Start(MdTag),
    End(MdTagEnd),
    Text(String),
    Code(String),
    InlineMath(String),
    DisplayMath(String),
    Html(String),
    InlineHtml(String),
    FootnoteReference(String),
    SoftBreak,
    HardBreak,
    Rule,
    TaskListMarker(bool),
}

/// The option bits the assistant parser enables: tables, footnotes,
/// strikethrough, task lists, heading attributes and math.
pub const MARKDOWN_OPTIONS: u32 = 2 | 4 | 8 | 16 | 64 | 1024;

/// The events pulldown-cmark yields for `text` under the option bits
/// `options`, each carried as an [`MdEvent`].
pub uninterp spec fn cmark_events(text: Seq<char>, options: u32) -> Seq<MdEvent>;

/// Runs `pulldown_cmark::Parser::new_ext` over `text` with the options whose
/// bits are `options`, and converts each event to an [`MdEvent`].
/// Claimed: the result is `cmark_events(text, options)`, a function of the
/// text and the options alone.
#[verifier::external_body]
pub(crate) fn cmark_parse(text: &str, options: u32) -> (events: Vec<MdEvent>)
    ensures
        events@ == cmark_events(text@, options),
{
    Parser::new_ext(text, Options::from_bits_truncate(options)).map(event_of).collect()
}

/// The option bits the block parser enables: tables, strikethrough, task
/// lists and math.
pub const BLOCK_OPTIONS: u32 = 2 | 8 | 16 | 1024;

/// The events pulldown-cmark yields for `text` under the option bits
/// `options`, each with the byte range of the source it covers.
pub uninterp spec fn cmark_offset_events(text: Seq<char>, options: u32) -> Seq<(MdEvent, usize, usize)>;

/// Runs `pulldown_cmark::Parser::new_ext(..).into_offset_iter()` over `text`
/// with the options whose bits are `options`, and converts each event, with
/// the start and end of its byte range. Claimed: the result is
/// `cmark_offset_events(text, options)`, a function of the text and the
/// options alone.
#[verifier::external_body]
pub(crate) fn cmark_parse_offsets(text: &str, options: u32) -> (events: Vec<(MdEvent, usize, usize)>)
    ensures
        events@ == cmark_offset_events(text@, options),
{
    Parser::new_ext(text, Options::from_bits_truncate(options))
        .into_offset_iter()
        .map(|(e, r)| (event_of(e), r.start, r.end))
        .collect()
}

/// `pulldown_cmark::Event`, carried opaquely into the converters below.
#[verifier::external_type_specification]
#[verifier::external_body]
pub struct ExCmarkEvent<'a>(Event<'a>);

/// `pulldown_cmark::Tag`, carried opaquely into the converters below.
#[verifier::external_type_specification]
#[verifier::external_body]
pub struct ExCmarkTag<'a>(Tag<'a>);

/// `pulldown_cmark::TagEnd`, carried opaquely into the converters below.
#[verifier::external_type_specification]
#[verifier::external_body]
pub struct ExCmarkTagEnd(TagEnd);

/// `pulldown_cmark::Alignment`, carried opaquely into the converters below.
#[verifier::external_type_specification]
#[verifier::external_body]
pub struct ExCmarkAlignment(Alignment);

/// Converts one pulldown-cmark event: tags here, text-carrying events in
/// `text_event_of`.
#[verifier::external_body]
fn event_of(event: Event<'_>) -> MdEvent {
    match event {
        Event::Start(tag) => MdEvent::Start(tag_of(tag)),
        Event::End(tag) => MdEvent::End(tag_end_of(tag)),
        other => text_event_of(other),
    }
}

/// Converts an event carrying text; the remaining markers go to `mark_event_of`.
#[verifier::external_body]
fn text_event_of(event: Event<'_>) -> MdEvent {
    match event {
        Event::Text(s) => MdEvent::Text(s.to_string()),
        Event::Code(s) => MdEvent::Code(s.to_string()),
        Event::InlineMath(s) => MdEvent::InlineMath(s.to_string()),
        Event::DisplayMath(s) => MdEvent::DisplayMath(s.to_string()),
        Event::Html(s) => MdEvent::Html(s.to_string()),
        Event::InlineHtml(s) => MdEvent::InlineHtml(s.to_string()),
        Event::FootnoteReference(s) => MdEvent::FootnoteReference(s.to_string()),
        other => mark_event_of(other),
    }
}

/// Converts a marker event; the one variant left after the others is `Rule`.
#[verifier::external_body]
fn mark_event_of(event: Event<'_>) -> MdEvent {
    match event {
        Event::SoftBreak => MdEvent::SoftBreak,
        Event::HardBreak => MdEvent::HardBreak,
        Event::TaskListMarker(b) => MdEvent::TaskListMarker(b),
        _ => MdEvent::Rule,
    }
}

/// Converts a block-level opening tag; span-level tags go to `span_tag_of`.
#[verifier::external_body]
fn tag_of(tag: Tag<'_>) -> MdTag {
    match tag {
        Tag::Paragraph => MdTag::Paragraph,
        Tag::Heading { level, .. } => MdTag::Heading(level as u32),
        Tag::BlockQuote(_) => MdTag::BlockQuote,
        Tag::CodeBlock(CodeBlockKind::Fenced(info)) => MdTag::CodeBlock(Some(info.to_string())),
        Tag::CodeBlock(CodeBlockKind::Indented) => MdTag::CodeBlock(None),
        Tag::Item => MdTag::Item,
        Tag::List(start) => MdTag::List(start),
        Tag::Table(aligns) => MdTag::Table(aligns.into_iter().map(align_of).collect()),
        Tag::TableHead => MdTag::TableHead,
        Tag::TableRow => MdTag::TableRow,
        Tag::TableCell => MdTag::TableCell,
        other => span_tag_of(other),
    }
}

/// Converts a span-level opening tag; the remaining containers become `Other`.
#[verifier::external_body]
fn span_tag_of(tag: Tag<'_>) -> MdTag {
    match tag {
        Tag::Emphasis => MdTag::Emphasis,
        Tag::Strong => MdTag::Strong,
        Tag::Strikethrough => MdTag::Strikethrough,
        Tag::Link { dest_url, .. } => MdTag::Link(dest_url.to_string()),
        Tag::Image { dest_url, .. } => MdTag::Image(dest_url.to_string()),
        _ => MdTag::Other,
    }
}

/// Converts a block-level closing tag; span-level ones go to `span_tag_end_of`.
#[verifier::external_body]
fn tag_end_of(tag: TagEnd) -> MdTagEnd {
    match tag {
        TagEnd::Paragraph => MdTagEnd::Paragraph,
        TagEnd::Heading(_) => MdTagEnd::Heading,
        TagEnd::BlockQuote(_) => MdTagEnd::BlockQuote,
        TagEnd::CodeBlock => MdTagEnd::CodeBlock,
        TagEnd::Item => MdTagEnd::Item,
        TagEnd::List(_) => MdTagEnd::List,
        TagEnd::Table => MdTagEnd::Table,
        TagEnd::TableHead => MdTagEnd::TableHead,
        TagEnd::TableRow => MdTagEnd::TableRow,
        TagEnd::TableCell => MdTagEnd::TableCell,
        other => span_tag_end_of(other),
    }
}

/// Converts a span-level closing tag; the remaining containers become `Other`.
#[verifier::external_body]
fn span_tag_end_of(tag: TagEnd) -> MdTagEnd {
    match tag {
        TagEnd::Emphasis => MdTagEnd::Emphasis,
        TagEnd::Strong => MdTagEnd::Strong,
        TagEnd::Strikethrough => MdTagEnd::Strikethrough,
        TagEnd::Link => MdTagEnd::Link,
        TagEnd::Image => MdTagEnd::Image,
        _ => MdTagEnd::Other,
    }
}

/// Converts a table column alignment.
#[verifier::external_body]
fn align_of(align: Alignment) -> MdAlign {
    match align {
        Alignment::None => MdAlign::Unspecified,
        Alignment::Left => MdAlign::Left,
        Alignment::Center => MdAlign::Center,
        Alignment::Right => MdAlign::Right,
    }
}

} // verus!
