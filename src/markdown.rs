//! Markdown to mrkdwn: the document is parsed by pulldown-cmark into
//! events, which the renderer then turns into text.
use vstd::prelude::*;

use pulldown_cmark::{Event as MdEvent, Options, Parser, Tag as MdTag};

use crate::event::{Event, Tag};
use crate::slackdown::{push_slackdown, rendered};

verus! {

/// The events that pulldown-cmark produces for the Markdown text `s`, with
/// strikethrough and task lists enabled.
pub uninterp spec fn markdown_events(s: Seq<char>) -> Seq<Event>;

#[verifier::external_type_specification]
#[verifier::external_body]
pub struct ExCowStr<'a>(pulldown_cmark::CowStr<'a>);

#[verifier::external_type_specification]
#[verifier::external_body]
pub struct ExAlignment(pulldown_cmark::Alignment);

#[verifier::external_type_specification]
#[verifier::external_body]
pub struct ExLinkType(pulldown_cmark::LinkType);

#[verifier::external_type_specification]
pub struct ExTag<'a>(MdTag<'a>);

#[verifier::external_type_specification]
pub struct ExEvent<'a>(MdEvent<'a>);

/// Relies on the `Display` impl of pulldown_cmark::CowStr, which writes the
/// string it holds.
#[verifier::external_body]
fn cow_string(c: pulldown_cmark::CowStr<'_>) -> String {
    c.to_string()
}

/// The library's tag for a tag of pulldown-cmark, variant for variant.
fn tag_from(t: MdTag<'_>) -> Tag {
    match t {
        MdTag::Paragraph => Tag::Paragraph,
        MdTag::Rule => Tag::Rule,
        MdTag::Header(level) => Tag::Heading(level as u32),
        MdTag::BlockQuote => Tag::BlockQuote,
        MdTag::CodeBlock(info) => Tag::CodeBlock(cow_string(info)),
        MdTag::List(start) => Tag::List(start),
        MdTag::Item => Tag::Item,
        MdTag::FootnoteDefinition(label) => Tag::FootnoteDefinition(
            cow_string(label),
        ),
        MdTag::HtmlBlock => Tag::HtmlBlock,
        MdTag::Table(_) => Tag::Table,
        MdTag::TableHead => Tag::TableHead,
        MdTag::TableRow => Tag::TableRow,
        MdTag::TableCell => Tag::TableCell,
        MdTag::Emphasis => Tag::Emphasis,
        MdTag::Strong => Tag::Strong,
        MdTag::Strikethrough => Tag::Strikethrough,
        MdTag::Link(_, dest, title) => Tag::Link(
            cow_string(dest),
            cow_string(title),
        ),
        MdTag::Image(_, dest, title) => Tag::Image(
            cow_string(dest),
            cow_string(title),
        ),
    }
}

/// The library's event for an event of pulldown-cmark, variant for variant.
fn event_from(e: MdEvent<'_>) -> Event {
    match e {
        MdEvent::Start(t) => Event::Start(tag_from(t)),
        MdEvent::End(t) => Event::End(tag_from(t)),
        MdEvent::Text(t) => Event::Text(cow_string(t)),
        MdEvent::Code(t) => Event::Code(cow_string(t)),
        MdEvent::Html(t) => Event::Html(cow_string(t)),
        MdEvent::InlineHtml(t) => Event::InlineHtml(cow_string(t)),
        MdEvent::FootnoteReference(t) => Event::FootnoteReference(cow_string(t)),
        MdEvent::SoftBreak => Event::SoftBreak,
        MdEvent::HardBreak => Event::HardBreak,
        MdEvent::TaskListMarker(checked) => Event::TaskListMarker(checked),
    }
}

/// Relies on pulldown_cmark::Parser::new_ext: the event stream of a document
/// depends on its text alone. Strikethrough and task lists are enabled.
/// pulldown-cmark does not promise that parsing never panics, and no
/// condition on the text is known that would rule it out; such a panic is
/// the one way `slackify` can fail.
#[verifier::external_body]
fn parse_markdown(s: &str) -> (r: Vec<Event>)
    ensures
        r@ == markdown_events(s@),
{
    let mut options = Options::empty();
    options.insert(Options::ENABLE_STRIKETHROUGH);
    options.insert(Options::ENABLE_TASKLISTS);
    Parser::new_ext(s, options).map(|e| event_from(e)).collect()
}

/// The mrkdwn text of the Markdown document `markdown_input`.
pub fn slackify(markdown_input: String) -> (r: String)
    ensures
        r@ == rendered(markdown_events(markdown_input@)),
{
    let events = parse_markdown(markdown_input.as_str());
    let mut output = String::new();
    push_slackdown(&mut output, events);
    assert(output@ =~= rendered(markdown_events(markdown_input@)));
    output
}

} // verus!
