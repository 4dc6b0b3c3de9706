use vstd::prelude::*;

verus! {

/// The abstract value of a [`Segment`]: the same variants, with text as
/// sequences of characters.
pub enum SegmentView {
    Heading { level: u8, text: Seq<char> },
    Paragraph { text: Seq<char> },
    CodeBlock { language: Option<Seq<char>>, code: Seq<char> },
    List { ordered: bool, items: Seq<Seq<char>> },
    BlockQuote { content: Seq<char> },
    HorizontalRule,
}

impl SegmentView {
    /// Units whose text is subject to translation.
    pub open spec fn translatable(self) -> bool {
        match self {
            SegmentView::Heading { .. } => true,
            SegmentView::Paragraph { .. } => true,
            SegmentView::List { .. } => true,
            SegmentView::BlockQuote { .. } => true,
            _ => false,
        }
    }

    /// The single text field of a unit, where it has one.
    pub open spec fn text(self) -> Option<Seq<char>> {
        match self {
            SegmentView::Heading { text, .. } => Some(text),
            SegmentView::Paragraph { text } => Some(text),
            SegmentView::BlockQuote { content } => Some(content),
            _ => None,
        }
    }

    /// The same unit with its text field replaced; units without one stay as
    /// they are.
    pub open spec fn with_text(self, t: Seq<char>) -> SegmentView {
        match self {
            SegmentView::Heading { level, .. } => SegmentView::Heading { level, text: t },
            SegmentView::Paragraph { .. } => SegmentView::Paragraph { text: t },
            SegmentView::BlockQuote { .. } => SegmentView::BlockQuote { content: t },
            _ => self,
        }
    }

    /// Two units are of the same variant (and, for headings, the same level).
    pub open spec fn same_kind(self, other: SegmentView) -> bool {
        match (self, other) {
            (SegmentView::Heading { level: a, .. }, SegmentView::Heading { level: b, .. }) => a == b,
            (SegmentView::Paragraph { .. }, SegmentView::Paragraph { .. }) => true,
            (SegmentView::CodeBlock { .. }, SegmentView::CodeBlock { .. }) => true,
            (SegmentView::List { .. }, SegmentView::List { .. }) => true,
            (SegmentView::BlockQuote { .. }, SegmentView::BlockQuote { .. }) => true,
            (SegmentView::HorizontalRule, SegmentView::HorizontalRule) => true,
            _ => false,
        }
    }
}

/// One structural unit of a markdown document.
#[derive(Debug, PartialEq, Eq)]
pub enum Segment {
    Heading { level: u8, text: String },
    Paragraph { text: String },
    CodeBlock { language: Option<String>, code: String },
    List { ordered: bool, items: Vec<String> },
    BlockQuote { content: String },
    HorizontalRule,
}

pub open spec fn option_string_view(o: Option<String>) -> Option<Seq<char>> {
    match o {
        Some(s) => Some(s@),
        None => None,
    }
}

pub open spec fn strings_view(v: Seq<String>) -> Seq<Seq<char>> {
    v.map_values(|s: String| s@)
}

impl View for Segment {
    type V = SegmentView;

    open spec fn view(&self) -> SegmentView {
        match self {
            Segment::Heading { level, text } => SegmentView::Heading { level: *level, text: text@ },
            Segment::Paragraph { text } => SegmentView::Paragraph { text: text@ },
            Segment::CodeBlock { language, code } => SegmentView::CodeBlock {
                language: option_string_view(*language),
                code: code@,
            },
            Segment::List { ordered, items } => SegmentView::List {
                ordered: *ordered,
                items: strings_view(items@),
            },
            Segment::BlockQuote { content } => SegmentView::BlockQuote { content: content@ },
            Segment::HorizontalRule => SegmentView::HorizontalRule,
        }
    }
}

/// The abstract values of a sequence of units, position by position.
pub open spec fn segments_view(s: Seq<Segment>) -> Seq<SegmentView> {
    s.map_values(|x: Segment| x@)
}

impl Clone for Segment {
    fn clone(&self) -> (r: Segment)
        ensures
            r@ == self@,
    {
        match self {
            Segment::Heading { level, text } => Segment::Heading { level: *level, text: text.clone() },
            Segment::Paragraph { text } => Segment::Paragraph { text: text.clone() },
            Segment::CodeBlock { language, code } => {
                let language = match language {
                    Some(l) => Some(l.clone()),
                    None => None,
                };
                Segment::CodeBlock { language, code: code.clone() }
            },
            Segment::List { ordered, items } => {
                let items = items.clone();
                assert(strings_view(items@) =~= strings_view(self->items@));
                Segment::List { ordered: *ordered, items }
            },
            Segment::BlockQuote { content } => Segment::BlockQuote { content: content.clone() },
            Segment::HorizontalRule => Segment::HorizontalRule,
        }
    }
}

impl Segment {
    /// Whether the unit carries text that is sent for translation.
    pub fn is_translatable(&self) -> (r: bool)
        ensures
            r == self@.translatable(),
    {
        match self {
            Segment::Heading { .. } => true,
            Segment::Paragraph { .. } => true,
            Segment::List { .. } => true,
            Segment::BlockQuote { .. } => true,
            _ => false,
        }
    }

    /// The text of a heading, paragraph or block quote; `None` for the rest.
    pub fn get_text(&self) -> (r: Option<&str>)
        ensures
            match r {
                Some(t) => self@.text() == Some(t@),
                None => self@.text() is None,
            },
    {
        match self {
            Segment::Heading { text, .. } => Some(text.as_str()),
            Segment::Paragraph { text } => Some(text.as_str()),
            Segment::BlockQuote { content } => Some(content.as_str()),
            _ => None,
        }
    }

    /// Replaces the text of a heading, paragraph or block quote; other units
    /// are left unchanged.
    pub fn set_text(&mut self, new_text: String)
        ensures
            final(self)@ == old(self)@.with_text(new_text@),
    {
        match self {
            Segment::Heading { text, .. } => *text = new_text,
            Segment::Paragraph { text } => *text = new_text,
            Segment::BlockQuote { content } => *content = new_text,
            _ => {},
        }
    }
}

} // verus!
