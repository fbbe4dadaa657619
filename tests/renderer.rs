use slackify_markdown::event::{Event, Tag};
use slackify_markdown::slackdown::{push_slackdown, SlackdownWriter};

fn render(events: Vec<Event>) -> String {
    let mut out = String::new();
    push_slackdown(&mut out, events);
    out
}

fn text(s: &str) -> Event {
    Event::Text(s.to_string())
}

fn item(s: &str) -> Vec<Event> {
    vec![Event::Start(Tag::Item), text(s), Event::End(Tag::Item)]
}

#[test]
fn empty_stream_renders_nothing() {
    assert_eq!(render(vec![]), "");
}

#[test]
fn heading_level_is_ignored() {
    for level in [1u32, 2, 6] {
        let events = vec![
            Event::Start(Tag::Heading(level)),
            text("Title"),
            Event::End(Tag::Heading(level)),
        ];
        assert_eq!(render(events), "*Title*\n");
    }
}

#[test]
fn heading_after_text_starts_a_new_line() {
    let events = vec![
        text("before"),
        Event::Start(Tag::Heading(3)),
        text("Title"),
        Event::End(Tag::Heading(3)),
    ];
    assert_eq!(render(events), "before\n*Title*\n");
}

#[test]
fn spans_use_single_markers() {
    let span = |tag: Tag| vec![Event::Start(tag.clone()), text("x"), Event::End(tag)];
    assert_eq!(render(span(Tag::Emphasis)), "_x_");
    assert_eq!(render(span(Tag::Strong)), "*x*");
    assert_eq!(render(span(Tag::Strikethrough)), "~x~");
}

#[test]
fn nested_spans_concatenate_markers() {
    let events = vec![
        Event::Start(Tag::Strong),
        Event::Start(Tag::Emphasis),
        text("both"),
        Event::End(Tag::Emphasis),
        Event::End(Tag::Strong),
    ];
    assert_eq!(render(events), "*_both_*");
    let doubled = vec![
        Event::Start(Tag::Strong),
        Event::Start(Tag::Strong),
        text("x"),
        Event::End(Tag::Strong),
        Event::End(Tag::Strong),
    ];
    assert_eq!(render(doubled), "**x**");
}

#[test]
fn nested_bullets_are_indented_four_spaces_per_level() {
    let mut events = vec![Event::Start(Tag::List(None)), Event::Start(Tag::Item), text("a")];
    events.push(Event::Start(Tag::List(None)));
    events.push(Event::Start(Tag::Item));
    events.push(text("b"));
    events.push(Event::Start(Tag::List(None)));
    events.extend(item("c"));
    events.push(Event::End(Tag::List(None)));
    events.push(Event::End(Tag::Item));
    events.push(Event::End(Tag::List(None)));
    events.push(Event::End(Tag::Item));
    events.extend(item("d"));
    events.push(Event::End(Tag::List(None)));
    assert_eq!(
        render(events),
        "\u{e2}\u{20ac}\u{a2} a\n    \u{e2}\u{20ac}\u{a2} b\n        \u{e2}\u{20ac}\u{a2} c\n\n\n\u{e2}\u{20ac}\u{a2} d\n"
    );
}

#[test]
fn ordered_list_counts_from_one() {
    let mut events = vec![Event::Start(Tag::List(Some(1)))];
    for t in ["a", "b", "c"] {
        events.extend(item(t));
    }
    events.push(Event::End(Tag::List(Some(1))));
    assert_eq!(render(events), "1. a\n2. b\n3. c\n");
}

#[test]
fn ordered_list_keeps_a_requested_start() {
    let mut events = vec![Event::Start(Tag::List(Some(9)))];
    events.extend(item("nine"));
    events.extend(item("ten"));
    events.extend(item("eleven"));
    events.push(Event::End(Tag::List(Some(9))));
    assert_eq!(render(events), "9. nine\n10. ten\n11. eleven\n");
}

#[test]
fn item_after_ordered_list_is_a_bullet() {
    let mut events = vec![Event::Start(Tag::List(Some(1)))];
    events.extend(item("one"));
    events.push(Event::End(Tag::List(Some(1))));
    events.extend(item("loose"));
    assert_eq!(render(events), "1. one\n\u{e2}\u{20ac}\u{a2} loose\n");
}

#[test]
fn footnotes_are_numbered_by_first_occurrence() {
    let events = vec![
        Event::FootnoteReference("b".to_string()),
        Event::FootnoteReference("a".to_string()),
        Event::FootnoteReference("b".to_string()),
    ];
    assert_eq!(
        render(events),
        "<sup class=\"footnote-reference\"><a href=\"#b\">1</a></sup>\
         <sup class=\"footnote-reference\"><a href=\"#a\">2</a></sup>\
         <sup class=\"footnote-reference\"><a href=\"#b\">1</a></sup>"
    );
}

#[test]
fn footnote_definition_reuses_the_reference_number() {
    let events = vec![
        Event::FootnoteReference("x".to_string()),
        Event::FootnoteReference("y".to_string()),
        Event::Start(Tag::FootnoteDefinition("y".to_string())),
        text("note"),
        Event::End(Tag::FootnoteDefinition("y".to_string())),
        Event::Start(Tag::FootnoteDefinition("z".to_string())),
        Event::End(Tag::FootnoteDefinition("z".to_string())),
    ];
    assert_eq!(
        render(events),
        "<sup class=\"footnote-reference\"><a href=\"#x\">1</a></sup>\
         <sup class=\"footnote-reference\"><a href=\"#y\">2</a></sup>\
         \n<div class=\"footnote-definition\" id=\"y\"><sup class=\"footnote-definition-label\">2</sup>note\n\
         <div class=\"footnote-definition\" id=\"z\"><sup class=\"footnote-definition-label\">3</sup>\n"
    );
}

#[test]
fn link_keeps_only_its_text() {
    let link = |dest: &str, shown: &str| {
        vec![
            Event::Start(Tag::Link(dest.to_string(), String::new())),
            text(shown),
            Event::End(Tag::Link(dest.to_string(), String::new())),
        ]
    };
    assert_eq!(render(link("https://x.com", "https://x.com")), "https://x.com");
    assert_eq!(render(link("https://en.wikipedia.org/wiki/X", "X")), "X");
}

#[test]
fn image_escapes_destination_and_flattens_alt_text() {
    let events = vec![
        Event::Start(Tag::Image("a b&c'd\u{e9}".to_string(), "T".to_string())),
        text("alt"),
        Event::Start(Tag::Emphasis),
        text("em"),
        Event::End(Tag::Emphasis),
        Event::SoftBreak,
        Event::FootnoteReference("f".to_string()),
        Event::TaskListMarker(true),
        Event::TaskListMarker(false),
        Event::Html("<b>".to_string()),
        Event::End(Tag::Image("a b&c'd\u{e9}".to_string(), "T".to_string())),
        text("after"),
    ];
    assert_eq!(
        render(events),
        "<img src=\"a%20b&amp;c&#x27;d%C3%A9\" alt=\"altem [1][x][ ]\" title=\"T\" />after"
    );
}

#[test]
fn image_without_title_or_end_is_still_closed() {
    let events = vec![
        Event::Start(Tag::Image("p.png".to_string(), String::new())),
        text("pic"),
    ];
    assert_eq!(render(events), "<img src=\"p.png\" alt=\"pic\" />");
}

#[test]
fn code_quote_and_breaks() {
    let events = vec![
        text("x"),
        Event::Start(Tag::CodeBlock("rust".to_string())),
        text("let a = 1;\n"),
        Event::End(Tag::CodeBlock("rust".to_string())),
        Event::Code("c".to_string()),
        Event::HardBreak,
        Event::Start(Tag::BlockQuote),
        text("q"),
        Event::SoftBreak,
        text("r"),
        Event::End(Tag::BlockQuote),
    ];
    assert_eq!(render(events), "x\n```let a = 1;\n```\n`c`<br />\n>q\nr\n");
}

#[test]
fn paragraphs_are_separated_by_a_space() {
    let events = vec![
        Event::Start(Tag::Paragraph),
        text("a"),
        Event::End(Tag::Paragraph),
        Event::Start(Tag::Paragraph),
        text("b"),
        Event::End(Tag::Paragraph),
    ];
    assert_eq!(render(events), "a b");
}

#[test]
fn tables_rules_and_html_blocks_write_nothing_of_their_own() {
    let events = vec![
        Event::Start(Tag::Table),
        Event::Start(Tag::TableHead),
        Event::Start(Tag::TableCell),
        text("h"),
        Event::End(Tag::TableCell),
        Event::End(Tag::TableHead),
        Event::Start(Tag::TableRow),
        Event::End(Tag::TableRow),
        Event::End(Tag::Table),
        Event::Start(Tag::Rule),
        Event::End(Tag::Rule),
        Event::Start(Tag::HtmlBlock),
        Event::Html("<div>".to_string()),
        Event::End(Tag::HtmlBlock),
    ];
    assert_eq!(render(events), "h<div>");
}

#[test]
fn task_markers_render_as_checkboxes() {
    let events = vec![Event::TaskListMarker(true), Event::TaskListMarker(false)];
    assert_eq!(
        render(events),
        "<input disabled=\"\" type=\"checkbox\" checked=\"\"/>\n<input disabled=\"\" type=\"checkbox\"/>\n"
    );
}

#[test]
fn writer_appends_to_existing_text() {
    let events = vec![Event::Start(Tag::Strong), text("b"), Event::End(Tag::Strong)];
    let out = SlackdownWriter::new(events, "pre ".to_string()).run();
    assert_eq!(out, "pre *b*");
}

#[test]
fn push_appends_to_existing_text() {
    let mut out = "x".to_string();
    push_slackdown(&mut out, vec![Event::SoftBreak, text("y")]);
    assert_eq!(out, "x\ny");
}

#[test]
fn list_after_closed_ordered_list_is_not_indented() {
    let mut events = vec![Event::Start(Tag::List(Some(1)))];
    events.extend(item("a"));
    events.push(Event::End(Tag::List(Some(1))));
    events.push(Event::Start(Tag::List(None)));
    events.extend(item("b"));
    events.push(Event::End(Tag::List(None)));
    assert_eq!(render(events), "1. a\n\u{e2}\u{20ac}\u{a2} b\n");
}

#[test]
fn image_alt_text_stops_at_the_closing_tag() {
    let events = vec![
        Event::Start(Tag::Image("d".to_string(), String::new())),
        Event::Start(Tag::Link("u".to_string(), String::new())),
        text("x"),
        Event::End(Tag::Link("u".to_string(), String::new())),
        text("y"),
        Event::End(Tag::Image("d".to_string(), String::new())),
        Event::Start(Tag::Emphasis),
        text("z"),
        Event::End(Tag::Emphasis),
    ];
    assert_eq!(render(events), "<img src=\"d\" alt=\"xy\" />_z_");
}

#[test]
fn empty_text_keeps_the_line_start() {
    let events = vec![text(""), Event::Start(Tag::Paragraph), text("p"), Event::End(Tag::Paragraph)];
    assert_eq!(render(events), "p");
}
