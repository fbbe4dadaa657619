//! The mrkdwn renderer: a single pass over document events that writes
//! Slack-flavoured text, carrying just enough state for list nesting, item
//! numbering, footnote numbering and line starts.
use vstd::prelude::*;

use vstd::utf8::encode_utf8;

use crate::event::{Event, Tag};
use crate::text::{
    decimal, ends_with_newline, escape_href, href_escaped, push_decimal, push_str,
    str_ends_with_newline,
};

verus! {

/// Raw-text mode, entered while an image's alt text is consumed.
pub struct AltText {
    /// How many tags opened inside the alt text are still open.
    pub nest: nat,
    /// The image's title, written once the alt text ends.
    pub title: Seq<char>,
}

/// The renderer's state between two events.
pub struct RenderModel {
    /// Whether the output so far ends a line (true before any output).
    pub end_newline: bool,
    /// How many lists are open, for the indentation of items.
    pub depth: nat,
    /// The number of the next ordered item, or 0 outside ordered lists.
    pub counter: nat,
    /// Footnote labels in the order they were first seen; label `i` is
    /// numbered `i + 1`.
    pub labels: Seq<Seq<char>>,
    /// `Some` while an image's alt text is being consumed.
    pub alt: Option<AltText>,
}

/// The state before the first event.
pub open spec fn initial_model() -> RenderModel {
    RenderModel { end_newline: true, depth: 0, counter: 0, labels: seq![], alt: None }
}

/// The model after `s` has been written: a non-empty write decides whether
/// the output now ends a line.
pub open spec fn after_write(m: RenderModel, s: Seq<char>) -> RenderModel {
    if s.len() > 0 {
        RenderModel { end_newline: ends_with_newline(s), ..m }
    } else {
        m
    }
}

/// Writing `s` in state `m`: the new state and the text written.
pub open spec fn emit(m: RenderModel, s: Seq<char>) -> (RenderModel, Seq<char>) {
    (after_write(m, s), s)
}

/// Writing `s` after the step `r`.
pub open spec fn then(r: (RenderModel, Seq<char>), s: Seq<char>) -> (RenderModel, Seq<char>) {
    (after_write(r.0, s), r.1 + s)
}

/// Writing `s` after the step `r`, leaving the line-start flag alone (how
/// footnote numbers are written).
pub open spec fn then_raw(r: (RenderModel, Seq<char>), s: Seq<char>) -> (
    RenderModel,
    Seq<char>,
) {
    (r.0, r.1 + s)
}

/// The index of the last occurrence of `l` in `labels`, or -1.
pub open spec fn label_index(labels: Seq<Seq<char>>, l: Seq<char>) -> int
    decreases labels.len(),
{
    if labels.len() == 0 {
        -1
    } else if labels.last() == l {
        labels.len() - 1
    } else {
        label_index(labels.drop_last(), l)
    }
}

/// The labels after `l` is seen: a new label is added at the end.
pub open spec fn labels_after(labels: Seq<Seq<char>>, l: Seq<char>) -> Seq<Seq<char>> {
    if label_index(labels, l) >= 0 {
        labels
    } else {
        labels.push(l)
    }
}

/// The number of footnote `l`: its position among the labels seen, counting
/// from 1, where a new label is numbered after all earlier ones.
pub open spec fn footnote_number(labels: Seq<Seq<char>>, l: Seq<char>) -> nat {
    if label_index(labels, l) >= 0 {
        (label_index(labels, l) + 1) as nat
    } else {
        labels.len() + 1
    }
}

/// `m` after footnote label `l` is seen.
pub open spec fn with_label(m: RenderModel, l: Seq<char>) -> RenderModel {
    RenderModel { labels: labels_after(m.labels, l), ..m }
}

/// `n` indentation steps of four spaces.
pub open spec fn indent(n: nat) -> Seq<char>
    decreases n,
{
    if n == 0 {
        seq![]
    } else {
        indent((n - 1) as nat) + "    "@
    }
}

/// The marker of an unordered list item.
pub open spec fn bullet() -> Seq<char> {
    "â€¢ "@
}

/// The marker of a list item: its number while an ordered list is active,
/// a bullet otherwise.
pub open spec fn item_marker(counter: nat) -> Seq<char> {
    if counter > 0 {
        decimal(counter) + ". "@
    } else {
        bullet()
    }
}

/// Counts one more ordered item; the count stops at the largest `usize`.
pub open spec fn next_count(c: nat) -> nat {
    if c < usize::MAX {
        c + 1
    } else {
        c
    }
}

/// What ends an image: its title, if any, and the closing of the element.
pub open spec fn image_close(r: (RenderModel, Seq<char>), title: Seq<char>) -> (
    RenderModel,
    Seq<char>,
) {
    if title.len() > 0 {
        then(then(then(r, "\" title=\""@), title), "\" />"@)
    } else {
        then(r, "\" />"@)
    }
}

/// What a start tag writes and does to the state.
#[verifier::opaque]
pub open spec fn start_step(m: RenderModel, tag: Tag) -> (RenderModel, Seq<char>) {
    match tag {
        Tag::Paragraph => if m.end_newline {
            (m, seq![])
        } else {
            emit(m, " "@)
        },
        Tag::Heading(_) => if m.end_newline {
            emit(m, "*"@)
        } else {
            emit(m, "\n*"@)
        },
        Tag::BlockQuote => if m.end_newline {
            emit(m, ">"@)
        } else {
            emit(m, "\n>"@)
        },
        Tag::CodeBlock(_) => if m.end_newline {
            emit(m, "```"@)
        } else {
            then(emit(m, "\n"@), "```"@)
        },
        Tag::List(Some(n)) => if n == 1 {
            (RenderModel { depth: m.depth + 1, counter: 1, ..m }, seq![])
        } else {
            (RenderModel { counter: n as nat, ..m }, seq![])
        },
        Tag::List(None) => {
            let m1 = RenderModel { depth: m.depth + 1, ..m };
            if m.end_newline {
                (m1, seq![])
            } else {
                emit(m1, "\n"@)
            }
        },
        Tag::Item => {
            let steps: nat = if m.depth > 0 {
                (m.depth - 1) as nat
            } else {
                0
            };
            then(emit(m, indent(steps)), item_marker(m.counter))
        },
        Tag::Emphasis => emit(m, "_"@),
        Tag::Strong => emit(m, "*"@),
        Tag::Strikethrough => emit(m, "~"@),
        Tag::Image(dest, title) => {
            let r = then(
                then_raw(emit(m, "<img src=\""@), href_escaped(encode_utf8(dest@))),
                "\" alt=\""@,
            );
            (RenderModel { alt: Some(AltText { nest: 0, title: title@ }), ..r.0 }, r.1)
        },
        Tag::FootnoteDefinition(name) => {
            let open = if m.end_newline {
                emit(m, "<div class=\"footnote-definition\" id=\""@)
            } else {
                emit(m, "\n<div class=\"footnote-definition\" id=\""@)
            };
            let r = then(then(open, name@), "\"><sup class=\"footnote-definition-label\">"@);
            then(
                then_raw(
                    (with_label(r.0, name@), r.1),
                    decimal(footnote_number(m.labels, name@)),
                ),
                "</sup>"@,
            )
        },
        _ => (m, seq![]),
    }
}

/// What an end tag writes and does to the state.
#[verifier::opaque]
pub open spec fn end_step(m: RenderModel, tag: Tag) -> (RenderModel, Seq<char>) {
    match tag {
        Tag::Heading(_) => emit(m, "*\n"@),
        Tag::BlockQuote => emit(m, "\n"@),
        Tag::CodeBlock(_) => emit(m, "```\n"@),
        Tag::List(Some(n)) => (
            RenderModel {
                counter: 0,
                depth: if n == 1 && m.depth > 0 {
                    (m.depth - 1) as nat
                } else {
                    m.depth
                },
                ..m
            },
            seq![],
        ),
        Tag::List(None) => (
            RenderModel {
                depth: if m.depth > 0 {
                    (m.depth - 1) as nat
                } else {
                    0
                },
                ..m
            },
            seq![],
        ),
        Tag::Item => {
            let r = emit(m, "\n"@);
            if m.counter > 0 {
                (RenderModel { counter: next_count(m.counter), ..r.0 }, r.1)
            } else {
                r
            }
        },
        Tag::Emphasis => emit(m, "_"@),
        Tag::Strong => emit(m, "*"@),
        Tag::Strikethrough => emit(m, "~"@),
        Tag::FootnoteDefinition(_) => emit(m, "\n"@),
        _ => (m, seq![]),
    }
}

/// What an event writes and does to the state outside raw-text mode.
#[verifier::opaque]
pub open spec fn normal_step(m: RenderModel, e: Event) -> (RenderModel, Seq<char>) {
    match e {
        Event::Start(tag) => start_step(m, tag),
        Event::End(tag) => end_step(m, tag),
        Event::Text(s) => emit(m, s@),
        Event::Code(s) => then(then(emit(m, "`"@), s@), "`"@),
        Event::Html(s) => emit(m, s@),
        Event::InlineHtml(s) => emit(m, s@),
        Event::SoftBreak => emit(m, "\n"@),
        Event::HardBreak => emit(m, "<br />\n"@),
        Event::FootnoteReference(name) => {
            let r = then(
                then(emit(m, "<sup class=\"footnote-reference\"><a href=\"#"@), name@),
                "\">"@,
            );
            then(
                then_raw((with_label(r.0, name@), r.1), decimal(footnote_number(m.labels, name@))),
                "</a></sup>"@,
            )
        },
        Event::TaskListMarker(checked) => if checked {
            emit(m, "<input disabled=\"\" type=\"checkbox\" checked=\"\"/>\n"@)
        } else {
            emit(m, "<input disabled=\"\" type=\"checkbox\"/>\n"@)
        },
    }
}

/// What an event does in raw-text mode `a`: tags only count nesting until
/// the tag that closes the image, leaves are written plain.
#[verifier::opaque]
pub open spec fn alt_step(m: RenderModel, a: AltText, e: Event) -> (RenderModel, Seq<char>) {
    match e {
        Event::Start(_) => (
            RenderModel { alt: Some(AltText { nest: a.nest + 1, ..a }), ..m },
            seq![],
        ),
        Event::End(_) => if a.nest == 0 {
            image_close((RenderModel { alt: None, ..m }, seq![]), a.title)
        } else {
            (RenderModel { alt: Some(AltText { nest: (a.nest - 1) as nat, ..a }), ..m }, seq![])
        },
        Event::Html(_) => (m, seq![]),
        Event::Text(s) => emit(m, s@),
        Event::Code(s) => emit(m, s@),
        Event::InlineHtml(s) => emit(m, s@),
        Event::SoftBreak => emit(m, " "@),
        Event::HardBreak => emit(m, " "@),
        Event::FootnoteReference(name) => (
            with_label(m, name@),
            "["@ + decimal(footnote_number(m.labels, name@)) + "]"@,
        ),
        Event::TaskListMarker(checked) => if checked {
            emit(m, "[x]"@)
        } else {
            emit(m, "[ ]"@)
        },
    }
}

/// What one event writes and does to the state.
pub open spec fn step(m: RenderModel, e: Event) -> (RenderModel, Seq<char>) {
    match m.alt {
        Some(a) => alt_step(m, a, e),
        None => normal_step(m, e),
    }
}

/// The state after `evs` and the text they write, from state `m`.
pub open spec fn run_events(m: RenderModel, evs: Seq<Event>) -> (RenderModel, Seq<char>)
    decreases evs.len(),
{
    if evs.len() == 0 {
        (m, seq![])
    } else {
        let r = run_events(m, evs.drop_last());
        let s = step(r.0, evs.last());
        (s.0, r.1 + s.1)
    }
}

/// What is written when the events run out in state `m`: an image whose alt
/// text was not closed is closed.
pub open spec fn finish(m: RenderModel) -> Seq<char> {
    match m.alt {
        Some(a) => image_close((RenderModel { alt: None, ..m }, seq![]), a.title).1,
        None => seq![],
    }
}

/// The mrkdwn text of an event stream.
pub open spec fn rendered(evs: Seq<Event>) -> Seq<char> {
    let r = run_events(initial_model(), evs);
    r.1 + finish(r.0)
}

/// Every state bound that the event count `n` gives: each event opens at
/// most one list and names at most one new footnote.
pub open spec fn within(m: RenderModel, n: int) -> bool {
    m.depth <= n && m.labels.len() <= n
}

/// `m` with raw-text mode left.
pub open spec fn outside_alt(m: RenderModel) -> RenderModel {
    RenderModel { alt: None, ..m }
}

/// Running `a` and then `b` is running `a + b`.
pub proof fn lemma_run_events_append(m: RenderModel, a: Seq<Event>, b: Seq<Event>)
    ensures
        run_events(m, a + b) == ({
            let ra = run_events(m, a);
            let rb = run_events(ra.0, b);
            (rb.0, ra.1 + rb.1)
        }),
    decreases b.len(),
{
    if b.len() == 0 {
        assert(a + b =~= a);
        assert(run_events(m, a).1 + seq![] =~= run_events(m, a).1);
    } else {
        lemma_run_events_append(m, a, b.drop_last());
        assert((a + b).drop_last() =~= a + b.drop_last());
        assert((a + b).last() == b.last());
        let ra = run_events(m, a);
        let rb = run_events(ra.0, b.drop_last());
        let s = step(rb.0, b.last());
        assert(ra.1 + rb.1 + s.1 =~= ra.1 + (rb.1 + s.1));
    }
}

/// The renderer's mutable state together with the text written so far.
struct RendererState {
    writer: String,
    end_newline: bool,
    list_indent_lvl: usize,
    curr_ordered_list_item_num: usize,
    numbers: Vec<String>,
}

impl RendererState {
    spec fn model(&self) -> RenderModel {
        RenderModel {
            end_newline: self.end_newline,
            depth: self.list_indent_lvl as nat,
            counter: self.curr_ordered_list_item_num as nat,
            labels: self.numbers@.map_values(|l: String| l@),
            alt: None,
        }
    }

    /// Writes `s`, noting whether a line was ended.
    fn write(&mut self, s: &str)
        ensures
            final(self).model() == after_write(old(self).model(), s@),
            final(self).writer@ == old(self).writer@ + s@,
    {
        push_str(&mut self.writer, s);
        if s.unicode_len() > 0 {
            self.end_newline = str_ends_with_newline(s);
        }
    }

    /// Writes a line break.
    fn write_newline(&mut self)
        ensures
            final(self).model() == after_write(old(self).model(), "\n"@),
            final(self).writer@ == old(self).writer@ + "\n"@,
    {
        self.write("\n");
    }

    /// The number of footnote `name`, assigning the next one to a new label.
    fn footnote(&mut self, name: &String) -> (n: usize)
        requires
            old(self).numbers.len() < usize::MAX,
        ensures
            n == footnote_number(old(self).model().labels, name@),
            final(self).model() == with_label(old(self).model(), name@),
            final(self).writer@ == old(self).writer@,
    {
        let ghost labels = self.model().labels;
        let mut i: usize = self.numbers.len();
        assert(labels.subrange(0, i as int) =~= labels);
        while i > 0
            invariant
                i <= self.numbers.len(),
                self.model() == old(self).model(),
                self.writer@ == old(self).writer@,
                self.numbers.len() < usize::MAX,
                labels == self.model().labels,
                label_index(labels.subrange(0, i as int), name@) == label_index(labels, name@),
            decreases i,
        {
            let j: usize = i - 1;
            assert(labels.subrange(0, i as int).drop_last() =~= labels.subrange(0, j as int));
            if self.numbers[j] == *name {
                assert(labels.subrange(0, i as int).last() == name@);
                return j + 1;
            }
            i = j;
        }
        assert(labels.subrange(0, 0).len() == 0);
        self.numbers.push(name.clone());
        assert(self.model().labels =~= labels.push(name@));
        self.numbers.len()
    }

    /// A leaf event inside an image's alt text, written as plain text.
    fn alt_leaf(&mut self, e: &Event, a: Ghost<AltText>)
        requires
            !(e is Start),
            !(e is End),
            old(self).numbers.len() < usize::MAX,
        ensures
            ({
                let m = RenderModel { alt: Some(a@), ..old(self).model() };
                let r = alt_step(m, a@, *e);
                &&& final(self).model() == outside_alt(r.0)
                &&& r.0.alt == Some(a@)
                &&& final(self).writer@ == old(self).writer@ + r.1
            }),
    {
        proof {
            reveal(alt_step);
        }
        match e {
            Event::InlineHtml(t) => self.write(t.as_str()),
            Event::Code(t) => self.write(t.as_str()),
            Event::Text(t) => self.write(t.as_str()),
            Event::SoftBreak => self.write(" "),
            Event::HardBreak => self.write(" "),
            Event::FootnoteReference(name) => {
                let n = self.footnote(name);
                push_str(&mut self.writer, "[");
                push_decimal(&mut self.writer, n);
                push_str(&mut self.writer, "]");
                assert(self.writer@ =~= old(self).writer@ + ("["@ + decimal(n as nat) + "]"@));
            },
            Event::TaskListMarker(checked) => {
                if *checked {
                    self.write("[x]");
                } else {
                    self.write("[ ]");
                }
            },
            _ => {
                assert(self.writer@ =~= old(self).writer@ + seq![]);
            },
        }
    }

    /// Consumes an image's alt text up to the tag that closes the image,
    /// writing its leaves as plain text, then closes the image element.
    fn raw_text(&mut self, events: &Vec<Event>, pos: &mut usize, title: &String)
        requires
            *old(pos) <= events.len(),
            within(old(self).model(), *old(pos) as int),
        ensures
            *old(pos) <= *final(pos) <= events.len(),
            within(final(self).model(), *final(pos) as int),
            ({
                let m0 = RenderModel {
                    alt: Some(AltText { nest: 0, title: title@ }),
                    ..old(self).model()
                };
                let r = run_events(m0, events@.subrange(*old(pos) as int, *final(pos) as int));
                &&& final(self).model() == outside_alt(r.0)
                &&& final(self).writer@ == old(self).writer@ + r.1 + finish(r.0)
                &&& (r.0.alt is Some ==> *final(pos) == events.len())
                &&& forall|k: int|
                    *old(pos) <= k < *final(pos) ==> (#[trigger] run_events(
                        m0,
                        events@.subrange(*old(pos) as int, k),
                    )).0.alt is Some
            }),
    {
        proof {
            reveal(alt_step);
        }
        let ghost from: int = *pos as int;
        let ghost w0 = self.writer@;
        let ghost m0 = RenderModel {
            alt: Some(AltText { nest: 0, title: title@ }),
            ..self.model()
        };
        let mut nest: usize = 0;
        assert(events@.subrange(from, from).len() == 0);
        while *pos < events.len()
            invariant
                0 <= from <= *pos <= events.len(),
                from == *old(pos),
                w0 == old(self).writer@,
                m0 == (RenderModel {
                    alt: Some(AltText { nest: 0, title: title@ }),
                    ..old(self).model()
                }),
                nest <= *pos - from,
                forall|k: int|
                    from <= k <= *pos ==> (#[trigger] run_events(
                        m0,
                        events@.subrange(from, k),
                    )).0.alt is Some,
                within(self.model(), *pos as int),
                ({
                    let r = run_events(m0, events@.subrange(from, *pos as int));
                    &&& r.0 == RenderModel {
                        alt: Some(AltText { nest: nest as nat, title: title@ }),
                        ..self.model()
                    }
                    &&& self.writer@ == w0 + r.1
                }),
            decreases events.len() - *pos,
        {
            proof {
                reveal(alt_step);
            }
            let ghost r = run_events(m0, events@.subrange(from, *pos as int));
            let ghost wp = self.writer@;
            let e = &events[*pos];
            *pos = *pos + 1;
            assert(events@.subrange(from, *pos as int).drop_last() =~= events@.subrange(
                from,
                *pos - 1,
            ));
            let ghost s = step(r.0, *e);
            match e {
                Event::Start(_) => {
                    nest = nest + 1;
                },
                Event::End(_) => {
                    if nest == 0 {
                        if title.as_str().unicode_len() > 0 {
                            self.write("\" title=\"");
                            self.write(title.as_str());
                        }
                        self.write("\" />");
                        assert(self.writer@ =~= w0 + (r.1 + s.1));
                        return ;
                    }
                    nest = nest - 1;
                },
                _ => self.alt_leaf(e, Ghost(r.0.alt.unwrap())),
            }
            assert(self.writer@ =~= w0 + (r.1 + s.1));
        }
        let ghost r = run_events(m0, events@.subrange(from, *pos as int));
        let ghost w1 = self.writer@;
        if title.as_str().unicode_len() > 0 {
            push_str(&mut self.writer, "\" title=\"");
            push_str(&mut self.writer, title.as_str());
        }
        push_str(&mut self.writer, "\" />");
        assert(self.writer@ =~= w1 + finish(r.0));
    }

    /// The start tags that neither consume events nor assign footnotes.
    fn start_plain(&mut self, tag: &Tag)
        requires
            !(tag is Image),
            !(tag is FootnoteDefinition),
            !(tag is Item),
            old(self).list_indent_lvl < usize::MAX,
        ensures
            final(self).model() == start_step(old(self).model(), *tag).0,
            final(self).writer@ == old(self).writer@ + start_step(old(self).model(), *tag).1,
    {
        proof {
            reveal(start_step);
        }
        match tag {
            Tag::Paragraph => {
                if !self.end_newline {
                    self.write(" ");
                } else {
                    assert(self.writer@ =~= old(self).writer@ + seq![]);
                }
            },
            Tag::Heading(_) => {
                if self.end_newline {
                    self.write("*");
                } else {
                    self.write("\n*");
                }
            },
            Tag::BlockQuote => {
                if self.end_newline {
                    self.write(">");
                } else {
                    self.write("\n>");
                }
            },
            Tag::CodeBlock(_) => {
                if !self.end_newline {
                    self.write_newline();
                }
                self.write("```");
            },
            Tag::List(Some(n)) => {
                if *n == 1 {
                    self.list_indent_lvl = self.list_indent_lvl + 1;
                    self.curr_ordered_list_item_num = 1;
                } else {
                    self.curr_ordered_list_item_num = *n;
                }
                assert(self.writer@ =~= old(self).writer@ + seq![]);
            },
            Tag::List(None) => {
                self.list_indent_lvl = self.list_indent_lvl + 1;
                if !self.end_newline {
                    self.write("\n");
                } else {
                    assert(self.writer@ =~= old(self).writer@ + seq![]);
                }
            },
            Tag::Emphasis => self.write("_"),
            Tag::Strong => self.write("*"),
            Tag::Strikethrough => self.write("~"),
            _ => {
                assert(self.writer@ =~= old(self).writer@ + seq![]);
            },
        }
    }

    /// Starts a list item: indentation for the open lists, then the item's
    /// number or a bullet.
    fn start_item(&mut self)
        ensures
            final(self).model() == start_step(old(self).model(), Tag::Item).0,
            final(self).writer@ == old(self).writer@ + start_step(old(self).model(), Tag::Item).1,
    {
        proof {
            reveal(start_step);
        }
        let steps: usize = if self.list_indent_lvl > 0 {
            self.list_indent_lvl - 1
        } else {
            0
        };
        let mut tabs = String::new();
        let mut k: usize = 0;
        while k < steps
            invariant
                k <= steps,
                tabs@ == indent(k as nat),
            decreases steps - k,
        {
            push_str(&mut tabs, "    ");
            k = k + 1;
        }
        self.write(tabs.as_str());
        let mut marker = String::new();
        if self.curr_ordered_list_item_num > 0 {
            push_decimal(&mut marker, self.curr_ordered_list_item_num);
            push_str(&mut marker, ". ");
        } else {
            push_str(&mut marker, "â€¢ ");
        }
        self.write(marker.as_str());
        assert(self.writer@ =~= old(self).writer@ + start_step(old(self).model(), Tag::Item).1);
    }

    /// Starts a footnote definition, marked with the label's number.
    fn start_footnote_definition(&mut self, name: &String)
        requires
            old(self).numbers.len() < usize::MAX,
        ensures
            final(self).model() == start_step(old(self).model(), Tag::FootnoteDefinition(*name)).0,
            final(self).writer@ == old(self).writer@ + start_step(
                old(self).model(),
                Tag::FootnoteDefinition(*name),
            ).1,
    {
        proof {
            reveal(start_step);
        }
        if self.end_newline {
            self.write("<div class=\"footnote-definition\" id=\"");
        } else {
            self.write("\n<div class=\"footnote-definition\" id=\"");
        }
        self.write(name.as_str());
        self.write("\"><sup class=\"footnote-definition-label\">");
        let n = self.footnote(name);
        push_decimal(&mut self.writer, n);
        self.write("</sup>");
        assert(self.writer@ =~= old(self).writer@ + start_step(
            old(self).model(),
            Tag::FootnoteDefinition(*name),
        ).1);
    }

    fn start_tag(&mut self, tag: &Tag, events: &Vec<Event>, pos: &mut usize)
        requires
            *old(pos) <= events.len(),
            within(old(self).model(), *old(pos) - 1),
        ensures
            *old(pos) <= *final(pos) <= events.len(),
            within(final(self).model(), *final(pos) as int),
            ({
                let r1 = start_step(old(self).model(), *tag);
                let r2 = run_events(r1.0, events@.subrange(*old(pos) as int, *final(pos) as int));
                &&& final(self).model() == outside_alt(r2.0)
                &&& final(self).writer@ == old(self).writer@ + r1.1 + r2.1 + finish(r2.0)
                &&& (r2.0.alt is Some ==> *final(pos) == events.len())
                &&& forall|k: int|
                    *old(pos) <= k < *final(pos) ==> (#[trigger] run_events(
                        r1.0,
                        events@.subrange(*old(pos) as int, k),
                    )).0.alt is Some
            }),
            !(*tag is Image) ==> *final(pos) == *old(pos),
    {
        proof {
            reveal(start_step);
        }
        let ghost m = self.model();
        let ghost w = self.writer@;
        let ghost p = *pos as int;
        match tag {
            Tag::Image(dest, title) => {
                self.write("<img src=\"");
                escape_href(&mut self.writer, dest.as_str());
                self.write("\" alt=\"");
                let ghost m1 = self.model();
                assert(self.writer@ =~= w + start_step(m, *tag).1);
                assert(start_step(m, *tag).0 == RenderModel {
                    alt: Some(AltText { nest: 0, title: title@ }),
                    ..m1
                });
                self.raw_text(events, pos, title);
            },
            Tag::FootnoteDefinition(name) => {
                self.start_footnote_definition(name);
                assert(events@.subrange(p, p).len() == 0);
                assert(self.writer@ =~= w + start_step(m, *tag).1 + seq![] + seq![]);
            },
            Tag::Item => {
                self.start_item();
                assert(events@.subrange(p, p).len() == 0);
                assert(self.writer@ =~= w + start_step(m, *tag).1 + seq![] + seq![]);
            },
            _ => {
                self.start_plain(tag);
                assert(events@.subrange(p, p).len() == 0);
                assert(self.writer@ =~= w + start_step(m, *tag).1 + seq![] + seq![]);
            },
        }
    }

    /// The state after the first `pos` events of `evs`, with `w0` the text
    /// written before them.
    spec fn tracks(&self, w0: Seq<char>, evs: Seq<Event>, pos: int) -> bool {
        let r = run_events(initial_model(), evs.take(pos));
        &&& within(self.model(), pos)
        &&& self.model() == outside_alt(r.0)
        &&& self.writer@ == w0 + r.1 + finish(r.0)
        &&& (r.0.alt is Some ==> pos == evs.len())
    }

    /// Renders the event at `pos`, and the events that it consumes.
    #[verifier::rlimit(40)]
    fn advance(&mut self, events: &Vec<Event>, pos: &mut usize, w0: Ghost<Seq<char>>)
        requires
            *old(pos) < events.len(),
            old(self).tracks(w0@, events@, *old(pos) as int),
        ensures
            *old(pos) < *final(pos) <= events.len(),
            final(self).tracks(w0@, events@, *final(pos) as int),
    {
        let ghost r = run_events(initial_model(), events@.take(*pos as int));
        let e = &events[*pos];
        *pos = *pos + 1;
        assert(events@.take(*pos as int).drop_last() =~= events@.take(*pos - 1));
        assert(events@.take(*pos as int).last() == *e);
        let ghost s = step(r.0, *e);
        assert(run_events(initial_model(), events@.take(*pos as int)) == (s.0, r.1 + s.1));
        match e {
            Event::Start(tag) => {
                assert(s == start_step(r.0, *tag)) by {
                    reveal(normal_step);
                }
                let ghost next = *pos as int;
                self.start_tag(tag, events, pos);
                proof {
                    let sub = events@.subrange(next, *pos as int);
                    lemma_run_events_append(initial_model(), events@.take(next), sub);
                    assert(events@.take(next) + sub =~= events@.take(*pos as int));
                    let r2 = run_events(s.0, sub);
                    assert(outside_alt(r.0) == r.0);
                    assert(run_events(initial_model(), events@.take(*pos as int)) == (r2.0, r.1
                        + s.1 + r2.1));
                    assert(self.writer@ =~= w0@ + (r.1 + s.1 + r2.1) + finish(r2.0));
                }
            },
            _ => {
                self.event(e);
                assert(self.writer@ =~= w0@ + (r.1 + s.1) + finish(s.0));
            },
        }
    }

    /// Any event but a start tag, outside raw-text mode.
    #[verifier::rlimit(40)]
    fn event(&mut self, e: &Event)
        requires
            !(e is Start),
            old(self).numbers.len() < usize::MAX,
        ensures
            final(self).model() == normal_step(old(self).model(), *e).0,
            final(self).writer@ == old(self).writer@ + normal_step(old(self).model(), *e).1,
            final(self).model().depth <= old(self).model().depth,
            final(self).model().labels.len() <= old(self).model().labels.len() + 1,
    {
        proof {
            reveal(normal_step);
            reveal(end_step);
        }
        match e {
            Event::End(tag) => self.end_tag(tag),
            Event::Text(t) => self.write(t.as_str()),
            Event::Code(t) => {
                self.write("`");
                self.write(t.as_str());
                self.write("`");
                assert(self.writer@ =~= old(self).writer@ + normal_step(old(self).model(), *e).1);
            },
            Event::Html(t) => self.write(t.as_str()),
            Event::InlineHtml(t) => self.write(t.as_str()),
            Event::SoftBreak => self.write_newline(),
            Event::HardBreak => self.write("<br />\n"),
            Event::FootnoteReference(name) => {
                self.write("<sup class=\"footnote-reference\"><a href=\"#");
                self.write(name.as_str());
                self.write("\">");
                let n = self.footnote(name);
                push_decimal(&mut self.writer, n);
                self.write("</a></sup>");
                assert(self.writer@ =~= old(self).writer@ + normal_step(old(self).model(), *e).1);
            },
            Event::TaskListMarker(checked) => {
                if *checked {
                    self.write("<input disabled=\"\" type=\"checkbox\" checked=\"\"/>\n");
                } else {
                    self.write("<input disabled=\"\" type=\"checkbox\"/>\n");
                }
            },
            _ => {},
        }
    }

    fn end_tag(&mut self, tag: &Tag)
        ensures
            final(self).model() == end_step(old(self).model(), *tag).0,
            final(self).writer@ == old(self).writer@ + end_step(old(self).model(), *tag).1,
    {
        proof {
            reveal(end_step);
        }
        match tag {
            Tag::Heading(_) => self.write("*\n"),
            Tag::BlockQuote => self.write("\n"),
            Tag::CodeBlock(_) => self.write("```\n"),
            Tag::List(Some(n)) => {
                self.curr_ordered_list_item_num = 0;
                if *n == 1 && self.list_indent_lvl > 0 {
                    self.list_indent_lvl = self.list_indent_lvl - 1;
                }
            },
            Tag::List(None) => {
                if self.list_indent_lvl > 0 {
                    self.list_indent_lvl = self.list_indent_lvl - 1;
                }
            },
            Tag::Item => {
                self.write("\n");
                if self.curr_ordered_list_item_num > 0 && self.curr_ordered_list_item_num
                    < usize::MAX {
                    self.curr_ordered_list_item_num = self.curr_ordered_list_item_num + 1;
                }
            },
            Tag::Emphasis => self.write("_"),
            Tag::Strong => self.write("*"),
            Tag::Strikethrough => self.write("~"),
            Tag::FootnoteDefinition(_) => self.write("\n"),
            _ => {
                assert(self.writer@ =~= old(self).writer@ + seq![]);
            },
        }
    }
}

/// Renders a stream of events into a `String`, consuming the stream once.
pub struct SlackdownWriter {
    iter: Vec<Event>,
    state: RendererState,
}

impl SlackdownWriter {
    /// The events still to be rendered.
    pub closed spec fn events(&self) -> Seq<Event> {
        self.iter@
    }

    /// The text written so far.
    pub closed spec fn written(&self) -> Seq<char> {
        self.state.writer@
    }

    /// Whether no event has been rendered yet.
    pub closed spec fn is_fresh(&self) -> bool {
        self.state.model() == initial_model()
    }

    /// A renderer for `iter` that appends to `writer`.
    pub fn new(iter: Vec<Event>, writer: String) -> (w: Self)
        ensures
            w.events() == iter@,
            w.written() == writer@,
            w.is_fresh(),
    {
        let w = SlackdownWriter {
            iter,
            state: RendererState {
                writer,
                end_newline: true,
                list_indent_lvl: 0,
                curr_ordered_list_item_num: 0,
                numbers: Vec::new(),
            },
        };
        assert(w.state.model().labels =~= seq![]);
        w
    }

    /// Renders every event and returns the writer with the text appended.
    pub fn run(self) -> (r: String)
        requires
            self.is_fresh(),
        ensures
            r@ == self.written() + rendered(self.events()),
    {
        let events = self.iter;
        let mut state = self.state;
        let ghost w0 = state.writer@;
        let mut pos: usize = 0;
        assert(events@.take(0).len() == 0);
        while pos < events.len()
            invariant
                pos <= events.len(),
                state.tracks(w0, events@, pos as int),
            decreases events.len() - pos,
        {
            state.advance(&events, &mut pos, Ghost(w0));
        }
        assert(events@.take(pos as int) =~= events@);
        state.writer
    }
}

/// Appends the mrkdwn text of `iter` to `s`.
pub fn push_slackdown(s: &mut String, iter: Vec<Event>)
    ensures
        final(s)@ == old(s)@ + rendered(iter@),
{
    let out = SlackdownWriter::new(iter, String::new()).run();
    push_str(s, out.as_str());
    assert(out@ =~= rendered(iter@));
}

} // verus!
