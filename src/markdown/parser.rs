use vstd::prelude::*;

use crate::error::Result;
pub use crate::markdown::segment::Segment;
use crate::markdown::segment::{SegmentView, segments_view};
use crate::text::{trim_text, trimmed};
use pulldown_cmark::{CodeBlockKind, Event, Parser, Tag, TagEnd};
use vstd::string::StringExecFns;

verus! {

/// The events of a markdown parse that the segmenter reads; every other event
/// is `Other`.
#[derive(Debug, PartialEq, Eq)]
pub enum MdEvent {
    HeadingStart(u8),
    HeadingEnd,
    ParagraphStart,
    ParagraphEnd,
    CodeBlockStart(Option<String>),
    CodeBlockEnd,
    Rule,
    Text(String),
    Code(String),
    Other,
}

/// The abstract value of an [`MdEvent`].
pub enum MdEventView {
    HeadingStart(u8),
    HeadingEnd,
    ParagraphStart,
    ParagraphEnd,
    CodeBlockStart(Option<Seq<char>>),
    CodeBlockEnd,
    Rule,
    Text(Seq<char>),
    Code(Seq<char>),
    Other,
}

impl View for MdEvent {
    type V = MdEventView;

    open spec fn view(&self) -> MdEventView {
        match self {
            MdEvent::HeadingStart(l) => MdEventView::HeadingStart(*l),
            MdEvent::HeadingEnd => MdEventView::HeadingEnd,
            MdEvent::ParagraphStart => MdEventView::ParagraphStart,
            MdEvent::ParagraphEnd => MdEventView::ParagraphEnd,
            MdEvent::CodeBlockStart(l) => MdEventView::CodeBlockStart(
                match l {
                    Some(s) => Some(s@),
                    None => None,
                },
            ),
            MdEvent::CodeBlockEnd => MdEventView::CodeBlockEnd,
            MdEvent::Rule => MdEventView::Rule,
            MdEvent::Text(t) => MdEventView::Text(t@),
            MdEvent::Code(c) => MdEventView::Code(c@),
            MdEvent::Other => MdEventView::Other,
        }
    }
}

pub open spec fn events_view(s: Seq<MdEvent>) -> Seq<MdEventView> {
    s.map_values(|e: MdEvent| e@)
}

/// The events that pulldown-cmark reports for a markdown text.
pub uninterp spec fn cmark_events(markdown: Seq<char>) -> Seq<MdEventView>;

/// Relies on `pulldown_cmark::Parser::new` and its iterator: the events of a
/// CommonMark parse of the text, each mapped to the variant it stands for.
#[verifier::external_body]
fn markdown_events(markdown: &str) -> (r: Vec<MdEvent>)
    ensures
        events_view(r@) == cmark_events(markdown@),
{
    Parser::new(markdown).map(|e| match e {
        Event::Start(Tag::Heading { level, .. }) => MdEvent::HeadingStart(level as u8),
        Event::End(TagEnd::Heading(_)) => MdEvent::HeadingEnd,
        Event::Start(Tag::Paragraph) => MdEvent::ParagraphStart,
        Event::End(TagEnd::Paragraph) => MdEvent::ParagraphEnd,
        Event::Start(Tag::CodeBlock(CodeBlockKind::Fenced(l))) => MdEvent::CodeBlockStart(Some(l.to_string())),
        Event::Start(Tag::CodeBlock(_)) => MdEvent::CodeBlockStart(None),
        Event::End(TagEnd::CodeBlock) => MdEvent::CodeBlockEnd,
        Event::Rule => MdEvent::Rule,
        Event::Text(t) => MdEvent::Text(t.to_string()),
        Event::Code(c) => MdEvent::Code(c.to_string()),
        _ => MdEvent::Other,
    }).collect()
}

/// What the segmenter holds between two events.
pub struct SegmenterState {
    pub segments: Seq<SegmentView>,
    pub current: Seq<char>,
    pub in_heading: bool,
    pub level: u8,
    pub in_paragraph: bool,
    pub in_code: bool,
    pub language: Option<Seq<char>>,
    pub code: Seq<char>,
}

pub open spec fn initial_state() -> SegmenterState {
    SegmenterState {
        segments: Seq::empty(),
        current: Seq::empty(),
        in_heading: false,
        level: 0,
        in_paragraph: false,
        in_code: false,
        language: None,
        code: Seq::empty(),
    }
}

/// One event read by the segmenter. Headings and paragraphs collect their
/// text (inline code in backquotes) and are emitted trimmed when they close;
/// code blocks collect their text verbatim; a rule is emitted at once.
pub open spec fn segment_step(st: SegmenterState, ev: MdEventView) -> SegmenterState {
    match ev {
        MdEventView::HeadingStart(l) => SegmenterState {
            in_heading: true,
            level: l,
            current: Seq::empty(),
            ..st
        },
        MdEventView::HeadingEnd => if st.in_heading {
            SegmenterState {
                segments: st.segments.push(
                    SegmentView::Heading { level: st.level, text: trimmed(st.current) },
                ),
                in_heading: false,
                current: Seq::empty(),
                ..st
            }
        } else {
            st
        },
        MdEventView::ParagraphStart => SegmenterState {
            in_paragraph: true,
            current: Seq::empty(),
            ..st
        },
        MdEventView::ParagraphEnd => if st.in_paragraph {
            SegmenterState {
                segments: st.segments.push(SegmentView::Paragraph { text: trimmed(st.current) }),
                in_paragraph: false,
                current: Seq::empty(),
                ..st
            }
        } else {
            st
        },
        MdEventView::CodeBlockStart(l) => SegmenterState {
            in_code: true,
            language: l,
            code: Seq::empty(),
            ..st
        },
        MdEventView::CodeBlockEnd => if st.in_code {
            SegmenterState {
                segments: st.segments.push(
                    SegmentView::CodeBlock { language: st.language, code: st.code },
                ),
                in_code: false,
                code: Seq::empty(),
                ..st
            }
        } else {
            st
        },
        MdEventView::Rule => SegmenterState {
            segments: st.segments.push(SegmentView::HorizontalRule),
            ..st
        },
        MdEventView::Text(t) => if st.in_code {
            SegmenterState { code: st.code + t, ..st }
        } else if st.in_heading || st.in_paragraph {
            SegmenterState { current: st.current + t, ..st }
        } else {
            st
        },
        MdEventView::Code(c) => if st.in_heading || st.in_paragraph {
            SegmenterState { current: st.current.push('`') + c.push('`'), ..st }
        } else {
            st
        },
        MdEventView::Other => st,
    }
}

/// The state after reading `evs` from the start.
pub open spec fn segment_run(evs: Seq<MdEventView>) -> SegmenterState
    decreases evs.len(),
{
    if evs.len() == 0 {
        initial_state()
    } else {
        segment_step(segment_run(evs.drop_last()), evs.last())
    }
}

/// The units that a sequence of events describes.
pub open spec fn segments_of(evs: Seq<MdEventView>) -> Seq<SegmentView> {
    segment_run(evs).segments
}

/// Splits a stream of markdown events into units, in document order.
pub fn segments_from_events(events: &Vec<MdEvent>) -> (r: Vec<Segment>)
    ensures
        segments_view(r@) == segments_of(events_view(events@)),
{
    let ghost evs = events_view(events@);
    let mut segments: Vec<Segment> = Vec::new();
    let mut current = String::new();
    let mut in_heading = false;
    let mut level: u8 = 0;
    let mut in_paragraph = false;
    let mut in_code = false;
    let mut language: Option<String> = None;
    let mut code = String::new();
    let mut i: usize = 0;
    while i < events.len()
        invariant
            i <= events@.len(),
            evs == events_view(events@),
            ({
                let st = segment_run(evs.take(i as int));
                &&& segments_view(segments@) == st.segments
                &&& current@ == st.current
                &&& in_heading == st.in_heading
                &&& level == st.level
                &&& in_paragraph == st.in_paragraph
                &&& in_code == st.in_code
                &&& (match language {
                    Some(s) => Some(s@),
                    None => None,
                }) == st.language
                &&& code@ == st.code
            }),
        decreases events@.len() - i,
    {
        proof {
            assert(evs.take(i + 1).drop_last() =~= evs.take(i as int));
            assert(evs.take(i + 1).last() == events@[i as int]@);
        }
        let ghost prev = segments@;
        match &events[i] {
            MdEvent::HeadingStart(l) => {
                in_heading = true;
                level = *l;
                current = String::new();
            },
            MdEvent::HeadingEnd => {
                if in_heading {
                    let text = trim_text(current.as_str());
                    segments.push(Segment::Heading { level, text });
                    in_heading = false;
                    current = String::new();
                }
            },
            MdEvent::ParagraphStart => {
                in_paragraph = true;
                current = String::new();
            },
            MdEvent::ParagraphEnd => {
                if in_paragraph {
                    let text = trim_text(current.as_str());
                    segments.push(Segment::Paragraph { text });
                    in_paragraph = false;
                    current = String::new();
                }
            },
            MdEvent::CodeBlockStart(l) => {
                in_code = true;
                language = match l {
                    Some(s) => Some(s.clone()),
                    None => None,
                };
                code = String::new();
            },
            MdEvent::CodeBlockEnd => {
                if in_code {
                    let lang = language.clone();
                    segments.push(Segment::CodeBlock { language: lang, code });
                    in_code = false;
                    code = String::new();
                }
            },
            MdEvent::Rule => {
                segments.push(Segment::HorizontalRule);
            },
            MdEvent::Text(t) => {
                if in_code {
                    code.append(t.as_str());
                } else if in_heading || in_paragraph {
                    current.append(t.as_str());
                }
            },
            MdEvent::Code(c) => {
                if in_heading || in_paragraph {
                    proof {
                        reveal_strlit("`");
                    }
                    current.append("`");
                    current.append(c.as_str());
                    current.append("`");
                    assert(current@ =~= segment_run(evs.take(i as int)).current.push('`') + c@.push('`'));
                }
            },
            MdEvent::Other => {},
        }
        assert(segments_view(segments@) =~= segment_run(evs.take(i + 1)).segments);
        i += 1;
    }
    assert(evs.take(events@.len() as int) =~= evs);
    segments
}

/// Splits markdown into units.
pub struct MarkdownProcessor;

impl MarkdownProcessor {
    /// The units of a markdown document, in document order: the parse never
    /// fails.
    pub fn parse(markdown: &str) -> (r: Result<Vec<Segment>>)
        ensures
            r matches Ok(v) && segments_view(v@) == segments_of(cmark_events(markdown@)),
    {
        let events = markdown_events(markdown);
        Ok(segments_from_events(&events))
    }
}

} // verus!
