//! The document events that the renderer consumes: a depth-first walk of a
//! parsed Markdown tree, as start and end tags around leaf content.
use vstd::prelude::*;

verus! {

/// The kind of a block or inline construct, carried by `Event::Start` and
/// `Event::End`.
#[derive(Clone, Debug, PartialEq, Eq)]
pub enum Tag {
    Paragraph,
    Rule,
    /// A heading; the field is its level, which the renderer ignores.
    Heading(u32),
    BlockQuote,
    /// A fenced or indented code block; the field is its info string.
    CodeBlock(String),
    /// A list; for an ordered list the field is the number of its first item.
    List(Option<usize>),
    Item,
    /// A footnote definition with its label.
    FootnoteDefinition(String),
    HtmlBlock,
    Table,
    TableHead,
    TableRow,
    TableCell,
    Emphasis,
    Strong,
    Strikethrough,
    /// A link with its destination and title.
    Link(String, String),
    /// An image with its destination and title.
    Image(String, String),
}

/// One event of the document walk.
#[derive(Clone, Debug, PartialEq, Eq)]
pub enum Event {
    Start(Tag),
    End(Tag),
    Text(String),
    Code(String),
    Html(String),
    InlineHtml(String),
    /// A reference to the footnote with this label.
    FootnoteReference(String),
    SoftBreak,
    HardBreak,
    /// A task-list checkbox; the field tells whether it is checked.
    TaskListMarker(bool),
}

} // verus!
