//! Facts about rendered text that hold for every input of a given shape:
//! headings, emphasis spans, lists, footnotes and links.
use vstd::prelude::*;

use crate::event::{Event, Tag};
use crate::slackdown::{
    alt_step, end_step, normal_step, start_step,
    footnote_number, indent, item_marker, label_index, labels_after, after_write, initial_model, lemma_run_events_append, rendered, run_events, step, RenderModel,
};
use crate::text::decimal;

verus! {

/// Whether every event of `evs` is plain text.
pub open spec fn all_text(evs: Seq<Event>) -> bool {
    forall|i: int| 0 <= i < evs.len() ==> (#[trigger] evs[i]) is Text
}

/// The text that the plain-text events `evs` carry, concatenated.
pub open spec fn plain_text(evs: Seq<Event>) -> Seq<char>
    decreases evs.len(),
{
    if evs.len() == 0 {
        seq![]
    } else {
        plain_text(evs.drop_last()) + match evs.last() {
            Event::Text(s) => s@,
            _ => seq![],
        }
    }
}

/// Running one event is one step.
pub proof fn lemma_run_one(m: RenderModel, e: Event)
    ensures
        run_events(m, seq![e]) == step(m, e),
{
    let one = seq![e];
    assert(one.drop_last() =~= Seq::<Event>::empty());
    assert(one.last() == e);
    let r = run_events(m, one.drop_last());
    assert(r == (m, Seq::<char>::empty()));
    assert(r.1 + step(m, e).1 =~= step(m, e).1);
}

/// Running `a`, then `e`, then `b`.
proof fn lemma_run_around(m: RenderModel, a: Event, body: Seq<Event>, b: Event)
    ensures
        run_events(m, seq![a] + body + seq![b]) == ({
            let r1 = step(m, a);
            let r2 = run_events(r1.0, body);
            let r3 = step(r2.0, b);
            (r3.0, r1.1 + r2.1 + r3.1)
        }),
{
    lemma_run_events_append(m, seq![a] + body, seq![b]);
    lemma_run_events_append(m, seq![a], body);
    lemma_run_one(m, a);
    let r1 = step(m, a);
    let r2 = run_events(r1.0, body);
    lemma_run_one(r2.0, b);
}

/// Plain text is written as it is, and changes nothing but the line-start
/// flag.
pub proof fn lemma_plain_text(m: RenderModel, body: Seq<Event>)
    requires
        m.alt is None,
        all_text(body),
    ensures
        run_events(m, body).1 == plain_text(body),
        run_events(m, body).0 == (RenderModel {
            end_newline: run_events(m, body).0.end_newline,
            ..m
        }),
    decreases body.len(),
{
    reveal(normal_step);
    reveal(start_step);
    reveal(end_step);
    reveal(alt_step);
    if body.len() > 0 {
        let init = body.drop_last();
        assert forall|i: int| 0 <= i < init.len() implies (#[trigger] init[i]) is Text by {
            assert(init[i] == body[i]);
        }
        lemma_plain_text(m, init);
        assert(body[body.len() - 1] is Text);
    }
}

/// A heading of any level is written in bold on a line of its own, whatever
/// its content: `*`, the content's own text, then `*` and a line feed, after
/// a line feed of its own unless a line has just ended.
pub proof fn lemma_heading_wraps_content(
    m: RenderModel,
    level: u32,
    end_level: u32,
    body: Seq<Event>,
)
    requires
        m.alt is None,
        run_events(
            after_write(
                m,
                if m.end_newline {
                    "*"@
                } else {
                    "\n*"@
                },
            ),
            body,
        ).0.alt is None,
    ensures
        ({
            let open = if m.end_newline {
                "*"@
            } else {
                "\n*"@
            };
            let r = run_events(
                m,
                seq![Event::Start(Tag::Heading(level))] + body + seq![
                    Event::End(Tag::Heading(end_level)),
                ],
            );
            &&& r.1 == open + run_events(after_write(m, open), body).1 + "*\n"@
            &&& r.0.end_newline
            &&& r.0.alt is None
        }),
{
    reveal(normal_step);
    reveal(start_step);
    reveal(end_step);
    reveal(alt_step);
    lemma_run_around(
        m,
        Event::Start(Tag::Heading(level)),
        body,
        Event::End(Tag::Heading(end_level)),
    );
    reveal_strlit("*\n");
}

/// A link writes only what its content writes, whatever the content: the
/// destination and title are dropped.
pub proof fn lemma_link_wraps_content(
    m: RenderModel,
    dest: String,
    title: String,
    body: Seq<Event>,
)
    requires
        m.alt is None,
        run_events(m, body).0.alt is None,
    ensures
        run_events(
            m,
            seq![Event::Start(Tag::Link(dest, title))] + body + seq![
                Event::End(Tag::Link(dest, title)),
            ],
        ).1 == run_events(m, body).1,
{
    reveal(normal_step);
    reveal(start_step);
    reveal(end_step);
    reveal(alt_step);
    lemma_run_around(
        m,
        Event::Start(Tag::Link(dest, title)),
        body,
        Event::End(Tag::Link(dest, title)),
    );
    assert(seq![] + run_events(m, body).1 + seq![] =~= run_events(m, body).1);
}

/// A heading of any level is written in bold on a line of its own: `*`,
/// the heading's text, then `*` and a line feed, after a line feed of its
/// own unless a line has just ended.
pub proof fn lemma_heading_is_bold_line(
    m: RenderModel,
    level: u32,
    end_level: u32,
    body: Seq<Event>,
)
    requires
        m.alt is None,
        all_text(body),
    ensures
        ({
            let r = run_events(
                m,
                seq![Event::Start(Tag::Heading(level))] + body + seq![
                    Event::End(Tag::Heading(end_level)),
                ],
            );
            &&& r.1 == (if m.end_newline {
                "*"@
            } else {
                "\n*"@
            }) + plain_text(body) + "*\n"@
            &&& r.0.end_newline
            &&& r.0.alt is None
        }),
{
    reveal(normal_step);
    reveal(start_step);
    reveal(end_step);
    reveal(alt_step);
    lemma_run_around(
        m,
        Event::Start(Tag::Heading(level)),
        body,
        Event::End(Tag::Heading(end_level)),
    );
    let r1 = step(m, Event::Start(Tag::Heading(level)));
    lemma_plain_text(r1.0, body);
    reveal_strlit("*\n");
}

/// A whole document that is one heading renders as `*text*` and a line
/// feed, whatever the heading's level.
pub proof fn lemma_heading_document(level: u32, end_level: u32, body: Seq<Event>)
    requires
        all_text(body),
    ensures
        rendered(
            seq![Event::Start(Tag::Heading(level))] + body + seq![
                Event::End(Tag::Heading(end_level)),
            ],
        ) == "*"@ + plain_text(body) + "*\n"@,
{
    lemma_heading_is_bold_line(initial_model(), level, end_level, body);
    let evs = seq![Event::Start(Tag::Heading(level))] + body + seq![
        Event::End(Tag::Heading(end_level)),
    ];
    assert(rendered(evs) =~= run_events(initial_model(), evs).1);
}

/// The marker that opens and closes an inline span of kind `tag`.
pub open spec fn span_marker(tag: Tag) -> Seq<char> {
    match tag {
        Tag::Emphasis => "_"@,
        Tag::Strong => "*"@,
        Tag::Strikethrough => "~"@,
        _ => seq![],
    }
}

/// An emphasis, strong or strikethrough span is written as its content
/// between two single markers (`_`, `*` or `~`); spans nested in the content
/// keep their own markers, so nesting concatenates markers.
pub proof fn lemma_span_wraps_content(m: RenderModel, tag: Tag, body: Seq<Event>)
    requires
        m.alt is None,
        tag is Emphasis || tag is Strong || tag is Strikethrough,
        run_events(after_write(m, span_marker(tag)), body).0.alt is None,
    ensures
        run_events(m, seq![Event::Start(tag)] + body + seq![Event::End(tag)]).1 == span_marker(
            tag,
        ) + run_events(after_write(m, span_marker(tag)), body).1 + span_marker(tag),
{
    reveal(normal_step);
    reveal(start_step);
    reveal(end_step);
    reveal(alt_step);
    lemma_run_around(m, Event::Start(tag), body, Event::End(tag));
}

/// An emphasis, strong or strikethrough span of plain text is that text
/// between two single markers.
pub proof fn lemma_span_of_text(m: RenderModel, tag: Tag, body: Seq<Event>)
    requires
        m.alt is None,
        tag is Emphasis || tag is Strong || tag is Strikethrough,
        all_text(body),
    ensures
        run_events(m, seq![Event::Start(tag)] + body + seq![Event::End(tag)]).1 == span_marker(
            tag,
        ) + plain_text(body) + span_marker(tag),
{
    let m1 = after_write(m, span_marker(tag));
    lemma_plain_text(m1, body);
    lemma_span_wraps_content(m, tag, body);
}

/// A link writes only its content: the destination and title are dropped,
/// whether or not the text equals the destination.
pub proof fn lemma_link_keeps_only_text(
    m: RenderModel,
    dest: String,
    title: String,
    body: Seq<Event>,
)
    requires
        m.alt is None,
        all_text(body),
    ensures
        run_events(
            m,
            seq![Event::Start(Tag::Link(dest, title))] + body + seq![
                Event::End(Tag::Link(dest, title)),
            ],
        ).1 == plain_text(body),
{
    reveal(normal_step);
    reveal(start_step);
    reveal(end_step);
    reveal(alt_step);
    lemma_run_around(
        m,
        Event::Start(Tag::Link(dest, title)),
        body,
        Event::End(Tag::Link(dest, title)),
    );
    lemma_plain_text(m, body);
    assert(seq![] + plain_text(body) + seq![] =~= plain_text(body));
}

/// One list item holding the text `t`.
pub open spec fn item(t: String) -> Seq<Event> {
    seq![Event::Start(Tag::Item), Event::Text(t), Event::End(Tag::Item)]
}

/// One list item for each of `ts`, in order.
pub open spec fn items(ts: Seq<String>) -> Seq<Event>
    decreases ts.len(),
{
    if ts.len() == 0 {
        seq![]
    } else {
        items(ts.drop_last()) + item(ts.last())
    }
}

/// How many indentation steps an item gets at list depth `depth`.
pub open spec fn item_steps(depth: nat) -> nat {
    if depth > 0 {
        (depth - 1) as nat
    } else {
        0
    }
}

/// The lines of a list whose items hold `ts`: each indented by `steps`
/// steps, numbered from `first` (or bulleted when `first` is 0), and ended
/// by a line feed.
pub open spec fn listed(steps: nat, first: nat, ts: Seq<String>) -> Seq<char>
    decreases ts.len(),
{
    if ts.len() == 0 {
        seq![]
    } else {
        listed(steps, first, ts.drop_last()) + indent(steps) + item_marker(
            if first > 0 {
                (first + ts.len() - 1) as nat
            } else {
                0
            },
        ) + ts.last()@ + "\n"@
    }
}

/// Items of plain text are written one line each, numbered on from the
/// current count inside an ordered list and bulleted outside one.
#[verifier::rlimit(100)]
pub proof fn lemma_items(m: RenderModel, ts: Seq<String>)
    requires
        m.alt is None,
        m.counter + ts.len() <= usize::MAX,
    ensures
        ({
            let r = run_events(m, items(ts));
            &&& r.1 == listed(item_steps(m.depth), m.counter, ts)
            &&& r.0.alt is None
            &&& r.0.depth == m.depth
            &&& r.0.labels == m.labels
            &&& r.0.counter == if m.counter > 0 {
                m.counter + ts.len()
            } else {
                0
            }
        }),
    decreases ts.len(),
{
    reveal(normal_step);
    reveal(start_step);
    reveal(end_step);
    if ts.len() > 0 {
        let init = ts.drop_last();
        let t = ts.last();
        lemma_items(m, init);
        lemma_run_events_append(m, items(init), item(t));
        let r0 = run_events(m, items(init));
        assert(item(t) =~= seq![Event::Start(Tag::Item)] + seq![Event::Text(t)] + seq![
            Event::End(Tag::Item),
        ]);
        lemma_run_around(r0.0, Event::Start(Tag::Item), seq![Event::Text(t)], Event::End(Tag::Item));
        let r1 = step(r0.0, Event::Start(Tag::Item));
        lemma_run_one(r1.0, Event::Text(t));
        let r = run_events(m, items(ts));
        let n: nat = if m.counter > 0 {
            (m.counter + ts.len() - 1) as nat
        } else {
            0
        };
        assert(r.1 =~= listed(item_steps(m.depth), m.counter, init) + indent(item_steps(m.depth))
            + item_marker(n) + t@ + "\n"@);
    }
}

/// An ordered list numbers its items one after another from its start
/// value; a list that starts at 1 opens a level of nesting.
pub proof fn lemma_ordered_list_numbering(m: RenderModel, start: usize, ts: Seq<String>)
    requires
        m.alt is None,
        start >= 1,
        start + ts.len() <= usize::MAX,
    ensures
        run_events(m, seq![Event::Start(Tag::List(Some(start)))] + items(ts)).1 == listed(
            item_steps(
                if start == 1 {
                    m.depth + 1
                } else {
                    m.depth
                },
            ),
            start as nat,
            ts,
        ),
{
    reveal(normal_step);
    reveal(start_step);
    reveal(end_step);
    reveal(alt_step);
    let e = Event::Start(Tag::List(Some(start)));
    lemma_run_events_append(m, seq![e], items(ts));
    lemma_run_one(m, e);
    let m1 = step(m, e).0;
    lemma_items(m1, ts);
    assert(seq![] + listed(item_steps(m1.depth), start as nat, ts) =~= listed(
        item_steps(m1.depth),
        start as nat,
        ts,
    ));
}

/// `n` indentation steps are `4 * n` spaces.
pub proof fn lemma_indent_is_spaces(n: nat)
    ensures
        indent(n) == Seq::new(4 * n, |i: int| ' '),
    decreases n,
{
    reveal_strlit("    ");
    if n > 0 {
        lemma_indent_is_spaces((n - 1) as nat);
        assert(indent(n) =~= Seq::new(4 * n, |i: int| ' '));
    } else {
        assert(indent(n) =~= Seq::new(4 * n, |i: int| ' '));
    }
}

/// A list item starts with four spaces for each open list beyond the first,
/// then its number or a bullet.
pub proof fn lemma_item_indentation(m: RenderModel)
    requires
        m.alt is None,
        m.depth >= 1,
    ensures
        run_events(m, seq![Event::Start(Tag::Item)]).1 == Seq::new(
            4 * (m.depth - 1) as nat,
            |i: int| ' ',
        ) + item_marker(m.counter),
{
    reveal(normal_step);
    reveal(start_step);
    reveal(end_step);
    reveal(alt_step);
    lemma_run_one(m, Event::Start(Tag::Item));
    lemma_indent_is_spaces((m.depth - 1) as nat);
}

/// Whether no label occurs twice in `labels`.
pub open spec fn distinct(labels: Seq<Seq<char>>) -> bool {
    forall|i: int, j: int| 0 <= i < j < labels.len() ==> labels[i] != labels[j]
}

proof fn lemma_label_index(labels: Seq<Seq<char>>, l: Seq<char>)
    ensures
        -1 <= label_index(labels, l) < labels.len(),
        label_index(labels, l) >= 0 ==> labels[label_index(labels, l)] == l,
        label_index(labels, l) < 0 ==> forall|i: int| 0 <= i < labels.len() ==> labels[i] != l,
    decreases labels.len(),
{
    if labels.len() > 0 {
        lemma_label_index(labels.drop_last(), l);
        if labels.last() != l {
            assert forall|i: int| 0 <= i < labels.len() && label_index(labels, l) < 0 implies labels[i]
                != l by {
                if i < labels.len() - 1 {
                    assert(labels[i] == labels.drop_last()[i]);
                }
            }
        }
    }
}

/// Footnote numbers follow first occurrence: a label already seen keeps
/// its number (its position among the labels, counting from 1), a new label
/// gets the next number, above every earlier one, and seeing a label never
/// renumbers another.
pub proof fn lemma_footnote_numbering(labels: Seq<Seq<char>>, l: Seq<char>)
    requires
        distinct(labels),
    ensures
        distinct(labels_after(labels, l)),
        labels_after(labels, l).subrange(0, labels.len() as int) == labels,
        forall|i: int| 0 <= i < labels.len() && labels[i] == l ==> footnote_number(labels, l) == i + 1,
        (forall|i: int| 0 <= i < labels.len() ==> labels[i] != l) ==> footnote_number(labels, l)
            == labels.len() + 1,
        footnote_number(labels_after(labels, l), l) == footnote_number(labels, l),
{
    lemma_label_index(labels, l);
    let after = labels_after(labels, l);
    lemma_label_index(after, l);
    assert(after.subrange(0, labels.len() as int) =~= labels);
    if label_index(labels, l) < 0 {
        assert(after[labels.len() as int] == l);
    }
}

/// Over any stream of events, the footnote labels stay distinct and only
/// grow at the end, so no number is ever reassigned.
pub proof fn lemma_labels_only_grow(m: RenderModel, evs: Seq<Event>)
    requires
        distinct(m.labels),
    ensures
        distinct(run_events(m, evs).0.labels),
        run_events(m, evs).0.labels.len() >= m.labels.len(),
        run_events(m, evs).0.labels.subrange(0, m.labels.len() as int) == m.labels,
    decreases evs.len(),
{
    reveal(normal_step);
    reveal(start_step);
    reveal(end_step);
    reveal(alt_step);
    if evs.len() > 0 {
        lemma_labels_only_grow(m, evs.drop_last());
        let r = run_events(m, evs.drop_last());
        let e = evs.last();
        match e {
            Event::FootnoteReference(name) => lemma_footnote_numbering(r.0.labels, name@),
            Event::Start(Tag::FootnoteDefinition(name)) => lemma_footnote_numbering(
                r.0.labels,
                name@,
            ),
            _ => {},
        }
        let after = step(r.0, e).0.labels;
        assert(after.subrange(0, m.labels.len() as int) =~= r.0.labels.subrange(
            0,
            m.labels.len() as int,
        ));
    }
}

/// Whether `e` is inline content: text, code, or the start or end of an
/// emphasis, strong, strikethrough or link span.
pub open spec fn is_inline(e: Event) -> bool {
    match e {
        Event::Text(_) => true,
        Event::Code(_) => true,
        Event::Start(t) => t is Emphasis || t is Strong || t is Strikethrough || t is Link,
        Event::End(t) => t is Emphasis || t is Strong || t is Strikethrough || t is Link,
        _ => false,
    }
}

/// Whether every event of `evs` is inline content.
pub open spec fn all_inline(evs: Seq<Event>) -> bool {
    forall|i: int| 0 <= i < evs.len() ==> is_inline(#[trigger] evs[i])
}

/// The text that inline content writes: text as it is, code between
/// backticks, a single marker for each span boundary, nothing for links.
pub open spec fn inline_text(evs: Seq<Event>) -> Seq<char>
    decreases evs.len(),
{
    if evs.len() == 0 {
        seq![]
    } else {
        inline_text(evs.drop_last()) + match evs.last() {
            Event::Text(s) => s@,
            Event::Code(s) => "`"@ + s@ + "`"@,
            Event::Start(t) => span_marker(t),
            Event::End(t) => span_marker(t),
            _ => seq![],
        }
    }
}

/// Inline content writes the same text from every state outside raw-text
/// mode, and does not enter raw-text mode.
pub proof fn lemma_inline(m: RenderModel, body: Seq<Event>)
    requires
        m.alt is None,
        all_inline(body),
    ensures
        run_events(m, body).1 == inline_text(body),
        run_events(m, body).0.alt is None,
    decreases body.len(),
{
    reveal(normal_step);
    reveal(start_step);
    reveal(end_step);
    reveal(alt_step);
    if body.len() > 0 {
        let init = body.drop_last();
        assert forall|i: int| 0 <= i < init.len() implies is_inline(#[trigger] init[i]) by {
            assert(init[i] == body[i]);
        }
        lemma_inline(m, init);
        assert(is_inline(body[body.len() - 1]));
        let r = run_events(m, init);
        let s = step(r.0, body.last());
        match body.last() {
            Event::Code(c) => {
                assert(s.1 =~= "`"@ + c@ + "`"@);
            },
            _ => {},
        }
    }
}

/// Inline content rendered on its own is its inline text.
pub proof fn lemma_inline_rendered(body: Seq<Event>)
    requires
        all_inline(body),
    ensures
        rendered(body) == inline_text(body),
{
    lemma_inline(initial_model(), body);
    assert(rendered(body) =~= inline_text(body));
}

/// A document that is one heading around inline content renders as `*`,
/// the content rendered on its own, then `*` and a line feed.
pub proof fn lemma_heading_of_inline(level: u32, end_level: u32, body: Seq<Event>)
    requires
        all_inline(body),
    ensures
        rendered(
            seq![Event::Start(Tag::Heading(level))] + body + seq![
                Event::End(Tag::Heading(end_level)),
            ],
        ) == "*"@ + rendered(body) + "*\n"@,
{
    let m1 = after_write(initial_model(), "*"@);
    lemma_inline(m1, body);
    lemma_inline_rendered(body);
    lemma_heading_wraps_content(initial_model(), level, end_level, body);
    let evs = seq![Event::Start(Tag::Heading(level))] + body + seq![
        Event::End(Tag::Heading(end_level)),
    ];
    assert(rendered(evs) =~= run_events(initial_model(), evs).1);
}

/// A document that is one emphasis, strong or strikethrough span around
/// inline content renders as the content rendered on its own between two
/// single markers.
pub proof fn lemma_span_of_inline(tag: Tag, body: Seq<Event>)
    requires
        tag is Emphasis || tag is Strong || tag is Strikethrough,
        all_inline(body),
    ensures
        rendered(seq![Event::Start(tag)] + body + seq![Event::End(tag)]) == span_marker(tag)
            + rendered(body) + span_marker(tag),
{
    reveal(normal_step);
    reveal(start_step);
    reveal(end_step);
    reveal(alt_step);
    let m1 = after_write(initial_model(), span_marker(tag));
    lemma_inline(m1, body);
    lemma_inline_rendered(body);
    lemma_span_wraps_content(initial_model(), tag, body);
    let evs = seq![Event::Start(tag)] + body + seq![Event::End(tag)];
    lemma_run_around(initial_model(), Event::Start(tag), body, Event::End(tag));
    assert(rendered(evs) =~= run_events(initial_model(), evs).1);
}

/// A document that is one link around inline content renders as the
/// content rendered on its own.
pub proof fn lemma_link_of_inline(dest: String, title: String, body: Seq<Event>)
    requires
        all_inline(body),
    ensures
        rendered(
            seq![Event::Start(Tag::Link(dest, title))] + body + seq![
                Event::End(Tag::Link(dest, title)),
            ],
        ) == rendered(body),
{
    reveal(normal_step);
    reveal(start_step);
    reveal(end_step);
    reveal(alt_step);
    lemma_inline(initial_model(), body);
    lemma_inline_rendered(body);
    lemma_link_wraps_content(initial_model(), dest, title, body);
    let evs = seq![Event::Start(Tag::Link(dest, title))] + body + seq![
        Event::End(Tag::Link(dest, title)),
    ];
    lemma_run_around(
        initial_model(),
        Event::Start(Tag::Link(dest, title)),
        body,
        Event::End(Tag::Link(dest, title)),
    );
    assert(rendered(evs) =~= run_events(initial_model(), evs).1);
}

/// `e` with any heading level replaced by 0.
pub open spec fn without_level(e: Event) -> Event {
    match e {
        Event::Start(Tag::Heading(_)) => Event::Start(Tag::Heading(0)),
        Event::End(Tag::Heading(_)) => Event::End(Tag::Heading(0)),
        _ => e,
    }
}

proof fn lemma_step_ignores_level(m: RenderModel, e: Event)
    ensures
        step(m, e) == step(m, without_level(e)),
{
    reveal(normal_step);
    reveal(start_step);
    reveal(end_step);
    reveal(alt_step);
}

proof fn lemma_run_ignores_levels(m: RenderModel, a: Seq<Event>, b: Seq<Event>)
    requires
        a.len() == b.len(),
        forall|i: int| 0 <= i < a.len() ==> without_level(#[trigger] a[i]) == without_level(b[i]),
    ensures
        run_events(m, a) == run_events(m, b),
    decreases a.len(),
{
    if a.len() > 0 {
        let a0 = a.drop_last();
        let b0 = b.drop_last();
        assert forall|i: int| 0 <= i < a0.len() implies without_level(#[trigger] a0[i])
            == without_level(b0[i]) by {
            assert(a0[i] == a[i] && b0[i] == b[i]);
        }
        lemma_run_ignores_levels(m, a0, b0);
        let r = run_events(m, a0);
        assert(without_level(a[a.len() - 1]) == without_level(b[b.len() - 1]));
        lemma_step_ignores_level(r.0, a.last());
        lemma_step_ignores_level(r.0, b.last());
    }
}

/// Heading levels never change the output: two streams that differ only in
/// the levels of their heading tags render to the same text.
pub proof fn lemma_heading_level_is_ignored(a: Seq<Event>, b: Seq<Event>)
    requires
        a.len() == b.len(),
        forall|i: int| 0 <= i < a.len() ==> without_level(#[trigger] a[i]) == without_level(b[i]),
    ensures
        rendered(a) == rendered(b),
{
    lemma_run_ignores_levels(initial_model(), a, b);
}

/// The marker written for a footnote reference carries the label's number:
/// the position of its first occurrence among the labels seen, counting
/// from 1, or the next number for a new label.
pub proof fn lemma_footnote_reference_marker(m: RenderModel, name: String)
    requires
        m.alt is None,
    ensures
        run_events(m, seq![Event::FootnoteReference(name)]).1
            == "<sup class=\"footnote-reference\"><a href=\"#"@ + name@ + "\">"@ + decimal(
            footnote_number(m.labels, name@),
        ) + "</a></sup>"@,
        run_events(m, seq![Event::FootnoteReference(name)]).0.labels == labels_after(
            m.labels,
            name@,
        ),
{
    reveal(normal_step);
    reveal(start_step);
    reveal(end_step);
    reveal(alt_step);
    lemma_run_one(m, Event::FootnoteReference(name));
    let s = step(m, Event::FootnoteReference(name));
    assert(s.1 =~= "<sup class=\"footnote-reference\"><a href=\"#"@ + name@ + "\">"@ + decimal(
        footnote_number(m.labels, name@),
    ) + "</a></sup>"@);
}

} // verus!
