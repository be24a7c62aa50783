//! Assembly of a document from extracted per-page text: each page's lines
//! become unstyled render lines, and pages after the first are preceded by a
//! dim page banner between blank lines.

use vstd::prelude::*;
use vstd::string::StringExecFns;
use vstd::string::StrSliceExecFns;
use crate::document::DIM;
use crate::document::Document;
use crate::document::LineV;
use crate::document::RenderLine;
use crate::document::SpanV;
use crate::document::TextSpan;
use crate::document::TextStyle;
use crate::document::blank_line;
use crate::markdown::spec_digits;
use crate::markdown::spec_split_lines;
use crate::markdown::split_lines;
use crate::markdown::u64_to_string;
use crate::markdown::views_of;

verus! {

/// The kind tag of the binary page-oriented document format.
#[derive(Debug)]
pub struct PdfFormat;

/// `p` without one trailing carriage return, if it ends in one.
pub open spec fn strip_cr(p: Seq<char>) -> Seq<char> {
    if p.len() > 0 && p.last() == '\r' {
        p.drop_last()
    } else {
        p
    }
}

/// Each piece without its trailing carriage return.
pub open spec fn strip_crs(v: Seq<Seq<char>>) -> Seq<Seq<char>> {
    v.map_values(|p: Seq<char>| strip_cr(p))
}

/// The lines of a text: split on newlines, without a trailing empty piece,
/// each line without a trailing carriage return.
pub open spec fn spec_text_lines(t: Seq<char>) -> Seq<Seq<char>> {
    let ps = spec_split_lines(t);
    let ps2 = if ps.len() > 0 && ps.last().len() == 0 {
        ps.drop_last()
    } else {
        ps
    };
    strip_crs(ps2)
}

/// The lines of `text`, as `str::lines` yields them.
pub fn text_lines(text: &str) -> (r: Vec<String>)
    ensures
        views_of(r@) == spec_text_lines(text@),
{
    let mut ps = split_lines(text);
    if ps.len() > 0 && ps[ps.len() - 1].as_str().is_empty() {
        let ghost before = views_of(ps@);
        let _ = ps.pop();
        proof {
            assert(views_of(ps@) =~= before.drop_last());
        }
    }
    let ghost ps2 = views_of(ps@);
    let ghost target = strip_crs(ps2);
    let mut out: Vec<String> = Vec::new();
    let mut i: usize = 0;
    while i < ps.len()
        invariant
            i <= ps.len(),
            ps2 == views_of(ps@),
            target == strip_crs(ps2),
            out@.len() == i,
            forall|j: int| 0 <= j < i ==> views_of(out@)[j] == target[j],
        decreases ps.len() - i,
    {
        let s = ps[i].as_str();
        let n = s.unicode_len();
        let piece: String = if n > 0 && s.get_char(n - 1) == '\r' {
            let p = s.substring_char(0, n - 1).to_owned();
            proof {
                assert(p@ =~= strip_cr(ps2[i as int]));
            }
            p
        } else {
            let p = s.to_owned();
            proof {
                assert(p@ =~= strip_cr(ps2[i as int]));
            }
            p
        };
        out.push(piece);
        i = i + 1;
    }
    proof {
        assert(views_of(out@) =~= target);
    }
    out
}

/// The page banner text shown above every page after the first.
pub open spec fn spec_page_banner(n: int) -> Seq<char> {
    "\u{2500}\u{2500} \u{7b2c} "@ + spec_digits(n) + " \u{9875} \u{2500}\u{2500}"@
}

/// Builds the page banner for page number `n`.
fn build_banner(n: u64) -> (r: String)
    ensures
        r@ == spec_page_banner(n as int),
{
    let mut b = "\u{2500}\u{2500} \u{7b2c} ".to_owned();
    let digits = u64_to_string(n);
    b.append(digits.as_str());
    b.append(" \u{9875} \u{2500}\u{2500}");
    proof {
        assert(b@ =~= spec_page_banner(n as int));
    }
    b
}

/// One unstyled render line holding exactly the given text.
pub open spec fn plain_line(text: Seq<char>) -> LineV {
    LineV { spans: seq![SpanV { text, style: 0 }], indent: 0 }
}

/// The dim banner line for page number `n`.
pub open spec fn banner_line(n: int) -> LineV {
    LineV { spans: seq![SpanV { text: spec_page_banner(n), style: DIM }], indent: 0 }
}

/// The plain render lines of a sequence of text lines.
pub open spec fn plain_lines(ls: Seq<Seq<char>>) -> Seq<LineV> {
    ls.map_values(|t: Seq<char>| plain_line(t))
}

/// The render lines contributed by page `i` (zero-based): its text's lines,
/// preceded for every page after the first by a blank line, the page banner
/// and another blank line.
pub open spec fn spec_page_lines(p: Seq<char>, i: int) -> Seq<LineV> {
    let body = plain_lines(spec_text_lines(p));
    if i > 0 {
        seq![blank_line(), banner_line(i + 1), blank_line()] + body
    } else {
        body
    }
}

/// The document assembled from per-page text.
pub open spec fn spec_pages_doc(pages: Seq<Seq<char>>) -> Seq<LineV>
    decreases pages.len(),
{
    if pages.len() == 0 {
        Seq::empty()
    } else {
        spec_pages_doc(pages.drop_last()) + spec_page_lines(pages.last(), pages.len() - 1)
    }
}

/// Assembles the document shown for a page-oriented binary format, from the
/// plain text already extracted for each page.
pub fn pages_to_document(pages: &Vec<String>) -> (d: Document)
    ensures
        d@ == spec_pages_doc(views_of(pages@)),
{
    let ghost pv = views_of(pages@);
    let mut doc = Document::new();
    proof {
        assert(pv.take(0) =~= Seq::<Seq<char>>::empty());
        assert(doc@ =~= spec_pages_doc(pv.take(0)));
    }
    let mut i: usize = 0;
    while i < pages.len()
        invariant
            i <= pages.len(),
            pv == views_of(pages@),
            doc@ == spec_pages_doc(pv.take(i as int)),
        decreases pages.len() - i,
    {
        let ghost doc0 = doc@;
        if i > 0 {
            doc.lines.push(RenderLine::new());
            let banner = build_banner((i + 1) as u64);
            let mut bl = RenderLine::new();
            bl.spans.push(TextSpan::new(banner, TextStyle(DIM)));
            proof {
                assert(bl@ =~~= banner_line(i + 1));
            }
            doc.lines.push(bl);
            doc.lines.push(RenderLine::new());
            proof {
                assert(doc@ =~= doc0 + seq![
                    blank_line(),
                    banner_line(i + 1),
                    blank_line(),
                ]);
            }
        }
        let ghost head = doc@;
        let lines = text_lines(pages[i].as_str());
        let ghost lv = views_of(lines@);
        proof {
            assert(lv == spec_text_lines(pv[i as int]));
        }
        let mut j: usize = 0;
        while j < lines.len()
            invariant
                j <= lines.len(),
                lv == views_of(lines@),
                doc@ == head + plain_lines(lv).take(j as int),
            decreases lines.len() - j,
        {
            let ghost mid = doc@;
            let t = lines[j].as_str().to_owned();
            let mut l = RenderLine::new();
            l.spans.push(TextSpan::new(t, TextStyle::none()));
            proof {
                assert(l@ =~~= plain_line(lv[j as int]));
            }
            doc.lines.push(l);
            proof {
                assert(doc@ =~= mid.push(plain_line(lv[j as int])));
                assert(plain_lines(lv).take(j + 1) =~= plain_lines(lv).take(j as int).push(
                    plain_lines(lv)[j as int],
                ));
                assert(doc@ =~= head + plain_lines(lv).take(j + 1));
            }
            j = j + 1;
        }
        proof {
            assert(plain_lines(lv).take(lv.len() as int) =~= plain_lines(lv));
            assert(doc@ =~= head + plain_lines(lv));
            assert(pv.take(i + 1).drop_last() =~= pv.take(i as int));
            assert(pv.take(i + 1).last() == pv[i as int]);
            assert(doc@ =~= spec_pages_doc(pv.take(i + 1)));
        }
        i = i + 1;
    }
    proof {
        assert(pv.take(pages@.len() as int) =~= pv);
    }
    doc
}

} // verus!
