use vstd::prelude::*;

use crate::markdown::segment::{Segment, SegmentView, segments_view, strings_view};
use vstd::string::StringExecFns;

verus! {

/// The list items in markdown, one line each, bulleted or numbered.
pub open spec fn list_markdown(ordered: bool, items: Seq<Seq<char>>) -> Seq<char>
    decreases items.len(),
{
    if items.len() == 0 {
        Seq::empty()
    } else {
        list_markdown(ordered, items.drop_last()) + (if ordered {
            "1. "@
        } else {
            "- "@
        }) + items.last() + "\n"@
    }
}

/// The markdown of one unit, followed by a blank line.
pub open spec fn markdown_of(seg: SegmentView) -> Seq<char> {
    match seg {
        SegmentView::Heading { level, text } => Seq::new(level as nat, |i: int| '#') + " "@ + text
            + "\n\n"@,
        SegmentView::Paragraph { text } => text + "\n\n"@,
        SegmentView::CodeBlock { language, code } => "```"@ + match language {
            Some(l) => l,
            None => Seq::empty(),
        } + "\n"@ + code + "\n```\n\n"@,
        SegmentView::List { ordered, items } => list_markdown(ordered, items) + if items.len()
            == 0 {
            "\n\n"@
        } else {
            "\n"@
        },
        SegmentView::BlockQuote { content } => "> "@ + content + "\n\n"@,
        SegmentView::HorizontalRule => "---\n\n"@,
    }
}

/// The markdown of a sequence of units, one after the other.
pub open spec fn markdown_text(segs: Seq<SegmentView>) -> Seq<char>
    decreases segs.len(),
{
    if segs.len() == 0 {
        Seq::empty()
    } else {
        markdown_text(segs.drop_last()) + markdown_of(segs.last())
    }
}

fn push_list(out: &mut String, ordered: bool, items: &Vec<String>)
    ensures
        final(out)@ == old(out)@ + list_markdown(ordered, strings_view(items@)),
{
    let ghost view = strings_view(items@);
    let ghost start = out@;
    let mut i: usize = 0;
    while i < items.len()
        invariant
            i <= items@.len(),
            view == strings_view(items@),
            out@ == start + list_markdown(ordered, view.take(i as int)),
        decreases items@.len() - i,
    {
        proof {
            assert(view.take(i + 1).drop_last() =~= view.take(i as int));
        }
        if ordered {
            out.append("1. ");
        } else {
            out.append("- ");
        }
        out.append(items[i].as_str());
        out.append("\n");
        assert(out@ =~= start + list_markdown(ordered, view.take(i + 1)));
        i += 1;
    }
    assert(view.take(items@.len() as int) =~= view);
}

fn push_markdown(out: &mut String, seg: &Segment)
    ensures
        final(out)@ == old(out)@ + markdown_of(seg@),
{
    let ghost start = out@;
    match seg {
        Segment::Heading { level, text } => {
            let mut k: u8 = 0;
            while k < *level
                invariant
                    k <= *level,
                    out@ == start + Seq::new(k as nat, |i: int| '#'),
                decreases *level - k,
            {
                out.append("#");
                proof {
                    reveal_strlit("#");
                }
                k += 1;
                assert(out@ =~= start + Seq::new(k as nat, |i: int| '#'));
            }
            out.append(" ");
            out.append(text.as_str());
            out.append("\n\n");
            assert(out@ =~= start + markdown_of(seg@));
        },
        Segment::Paragraph { text } => {
            out.append(text.as_str());
            out.append("\n\n");
            assert(out@ =~= start + markdown_of(seg@));
        },
        Segment::CodeBlock { language, code } => {
            out.append("```");
            match language {
                Some(l) => out.append(l.as_str()),
                None => {},
            }
            out.append("\n");
            out.append(code.as_str());
            out.append("\n```\n\n");
            assert(out@ =~= start + markdown_of(seg@));
        },
        Segment::List { ordered, items } => {
            push_list(out, *ordered, items);
            if items.len() == 0 {
                out.append("\n\n");
            } else {
                out.append("\n");
            }
            assert(out@ =~= start + markdown_of(seg@));
        },
        Segment::BlockQuote { content } => {
            out.append("> ");
            out.append(content.as_str());
            out.append("\n\n");
            assert(out@ =~= start + markdown_of(seg@));
        },
        Segment::HorizontalRule => {
            out.append("---\n\n");
        },
    }
}

/// Writes units back as markdown, in their order, each followed by a blank
/// line.
pub fn reconstruct_markdown(segments: &[Segment]) -> (r: String)
    ensures
        r@ == markdown_text(segments_view(segments@)),
{
    let ghost segs = segments_view(segments@);
    let mut out = String::new();
    let mut i: usize = 0;
    while i < segments.len()
        invariant
            i <= segments@.len(),
            segs == segments_view(segments@),
            out@ == markdown_text(segs.take(i as int)),
        decreases segments@.len() - i,
    {
        proof {
            assert(segs.take(i + 1).drop_last() =~= segs.take(i as int));
        }
        push_markdown(&mut out, &segments[i]);
        i += 1;
    }
    assert(segs.take(segments@.len() as int) =~= segs);
    out
}

} // verus!
