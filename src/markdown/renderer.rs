use vstd::prelude::*;

use crate::markdown::segment::{Segment, SegmentView, segments_view};
use crate::text::push_char;
use vstd::string::StringExecFns;

verus! {

/// The decimal digit `d`.
pub open spec fn digit_char(d: nat) -> char {
    ((48 + d) as u8) as char
}

/// The decimal notation of `n`, without leading zeros.
pub open spec fn decimal(n: nat) -> Seq<char>
    decreases n,
{
    if n < 10 {
        seq![digit_char(n)]
    } else {
        decimal(n / 10).push(digit_char(n % 10))
    }
}

/// The decimal notation of a byte.
pub fn u8_decimal(n: u8) -> (r: String)
    ensures
        r@ == decimal(n as nat),
{
    let mut s = String::new();
    if n >= 100 {
        push_char(&mut s, ((48 + n / 100) as u8) as char);
    }
    if n >= 10 {
        push_char(&mut s, ((48 + (n / 10) % 10) as u8) as char);
    }
    push_char(&mut s, ((48 + n % 10) as u8) as char);
    proof {
        let m = n as nat;
        if m >= 100 {
            assert(decimal(m / 10) == decimal(m / 100).push(digit_char((m / 10) % 10)));
            assert(decimal(m / 100) == seq![digit_char(m / 100)]);
        } else if m >= 10 {
            assert(decimal(m / 10) == seq![digit_char(m / 10)]);
        }
        assert(s@ =~= decimal(m));
    }
    s
}

/// The HTML escape of one character.
pub open spec fn escape_char(c: char) -> Seq<char> {
    if c == '&' {
        "&amp;"@
    } else if c == '<' {
        "&lt;"@
    } else if c == '>' {
        "&gt;"@
    } else if c == '"' {
        "&quot;"@
    } else if c == '\'' {
        "&#39;"@
    } else {
        seq![c]
    }
}

/// `s` with `&`, `<`, `>`, `"` and `'` replaced by their HTML entities.
pub open spec fn escape(s: Seq<char>) -> Seq<char>
    decreases s.len(),
{
    if s.len() == 0 {
        Seq::empty()
    } else {
        escape(s.drop_last()) + escape_char(s.last())
    }
}

pub const PAGE_HEAD: &'static str = "<!DOCTYPE html>
<html lang=\"ja\">
<head>
    <meta charset=\"UTF-8\">
    <meta name=\"viewport\" content=\"width=device-width, initial-scale=1.0\">
    <title>";

pub const PAGE_STYLE: &'static str = "</title>
    <style>
        body {
            font-family: -apple-system, BlinkMacSystemFont, \"Segoe UI\", \"Noto Sans\", Helvetica, Arial, sans-serif;
            line-height: 1.6;
            color: #24292f;
            background-color: #ffffff;
            max-width: 980px;
            margin: 0 auto;
            padding: 45px;
        }

        h1, h2, h3, h4, h5, h6 {
            margin-top: 24px;
            margin-bottom: 16px;
            font-weight: 600;
            line-height: 1.25;
            border-bottom: 1px solid #d8dee4;
            padding-bottom: 0.3em;
        }

        h1 { font-size: 2em; }
        h2 { font-size: 1.5em; }
        h3 { font-size: 1.25em; }

        p {
            margin-top: 0;
            margin-bottom: 16px;
        }

        pre {
            background-color: #f6f8fa;
            border-radius: 6px;
            padding: 16px;
            overflow: auto;
            font-size: 85%;
            line-height: 1.45;
        }

        code {
            background-color: rgba(175,184,193,0.2);
            padding: 0.2em 0.4em;
            margin: 0;
            font-size: 85%;
            border-radius: 6px;
            font-family: ui-monospace, SFMono-Regular, \"SF Mono\", Menlo, Consolas, monospace;
        }

        pre code {
            background-color: transparent;
            padding: 0;
        }

        hr {
            height: 0.25em;
            padding: 0;
            margin: 24px 0;
            background-color: #d8dee4;
            border: 0;
        }
    </style>
</head>
<body>
";

pub const PAGE_TAIL: &'static str = "
</body>
</html>";

/// The HTML of one unit. Heading text and the code language go in as they
/// are; paragraph text and code are escaped. Lists and block quotes are not
/// rendered.
pub open spec fn html_of(seg: SegmentView) -> Seq<char> {
    match seg {
        SegmentView::Heading { level, text } => "<h"@ + decimal(level as nat) + ">"@ + text + "</h"@
            + decimal(level as nat) + ">\n"@,
        SegmentView::Paragraph { text } => "<p>"@ + escape(text) + "</p>\n"@,
        SegmentView::CodeBlock { language, code } => "<pre><code"@ + match language {
            Some(l) => " class=\"language-"@ + l + "\""@,
            None => Seq::empty(),
        } + ">"@ + escape(code) + "</code></pre>\n"@,
        SegmentView::HorizontalRule => "<hr>\n"@,
        _ => Seq::empty(),
    }
}

/// The HTML of a sequence of units, one after the other.
pub open spec fn html_body(segs: Seq<SegmentView>) -> Seq<char>
    decreases segs.len(),
{
    if segs.len() == 0 {
        Seq::empty()
    } else {
        html_body(segs.drop_last()) + html_of(segs.last())
    }
}

/// A whole page: the body inside the fixed template, under the escaped title.
pub open spec fn html_page(body: Seq<char>, title: Seq<char>) -> Seq<char> {
    PAGE_HEAD@ + escape(title) + PAGE_STYLE@ + body + PAGE_TAIL@
}

/// Renders units as an HTML page.
pub struct HtmlRenderer;

impl HtmlRenderer {
    /// The HTML page of `segments`, in their order, titled `title`.
    pub fn render(segments: &[Segment], title: &str) -> (r: String)
        ensures
            r@ == html_page(html_body(segments_view(segments@)), title@),
    {
        let ghost segs = segments_view(segments@);
        let mut body = String::new();
        let mut i: usize = 0;
        while i < segments.len()
            invariant
                i <= segments@.len(),
                segs == segments_view(segments@),
                body@ == html_body(segs.take(i as int)),
            decreases segments@.len() - i,
        {
            proof {
                assert(segs.take(i + 1).drop_last() =~= segs.take(i as int));
            }
            Self::push_html(&mut body, &segments[i]);
            i += 1;
        }
        assert(segs.take(segments@.len() as int) =~= segs);
        Self::wrap_with_template(body.as_str(), title)
    }

    fn push_html(out: &mut String, seg: &Segment)
        ensures
            final(out)@ == old(out)@ + html_of(seg@),
    {
        let ghost start = out@;
        match seg {
            Segment::Heading { level, text } => {
                let digits = u8_decimal(*level);
                out.append("<h");
                out.append(digits.as_str());
                out.append(">");
                out.append(text.as_str());
                out.append("</h");
                out.append(digits.as_str());
                out.append(">\n");
                assert(out@ =~= start + html_of(seg@));
            },
            Segment::Paragraph { text } => {
                let escaped = Self::escape_html(text.as_str());
                out.append("<p>");
                out.append(escaped.as_str());
                out.append("</p>\n");
                assert(out@ =~= start + html_of(seg@));
            },
            Segment::CodeBlock { language, code } => {
                let escaped = Self::escape_html(code.as_str());
                out.append("<pre><code");
                match language {
                    Some(l) => {
                        out.append(" class=\"language-");
                        out.append(l.as_str());
                        out.append("\"");
                    },
                    None => {},
                }
                out.append(">");
                out.append(escaped.as_str());
                out.append("</code></pre>\n");
                assert(out@ =~= start + html_of(seg@));
            },
            Segment::HorizontalRule => {
                out.append("<hr>\n");
            },
            _ => {
                assert(out@ =~= start + html_of(seg@));
            },
        }
    }

    /// `text` with the HTML special characters escaped.
    pub fn escape_html(text: &str) -> (r: String)
        ensures
            r@ == escape(text@),
    {
        broadcast use vstd::string::group_string_axioms;
        let mut out = String::new();
        for c in it: text.chars()
            invariant
                it.seq() == text@,
                out@ == escape(text@.take(it.index() as int)),
        {
            proof {
                assert(text@.take(it.index() + 1).drop_last() =~= text@.take(it.index() as int));
            }
            if c == '&' {
                out.append("&amp;");
            } else if c == '<' {
                out.append("&lt;");
            } else if c == '>' {
                out.append("&gt;");
            } else if c == '"' {
                out.append("&quot;");
            } else if c == '\'' {
                out.append("&#39;");
            } else {
                push_char(&mut out, c);
            }
        }
        assert(text@.take(text@.len() as int) =~= text@);
        out
    }

    fn wrap_with_template(body: &str, title: &str) -> (r: String)
        ensures
            r@ == html_page(body@, title@),
    {
        let mut page = String::from_str(PAGE_HEAD);
        let escaped = Self::escape_html(title);
        page.append(escaped.as_str());
        page.append(PAGE_STYLE);
        page.append(body);
        page.append(PAGE_TAIL);
        page
    }
}

} // verus!
