//! The document model: a composable bit-set of style attributes, styled text
//! fragments, render lines, and the document as an ordered sequence of lines.

use vstd::prelude::*;

verus! {

/// Bit for bold text.
pub const BOLD: u32 = 1;
/// Bit for italic text.
pub const ITALIC: u32 = 2;
/// Bit for dimmed text.
pub const DIM: u32 = 4;
/// Bit for heading text.
pub const HEADING: u32 = 8;
/// Bit for quoted text.
pub const QUOTE: u32 = 16;
/// Bit for code text.
pub const CODE: u32 = 32;

/// A composable bit-set over the fixed style attributes.
#[derive(Clone, Copy, Debug, PartialEq, Eq, Structural)]
pub struct TextStyle(pub u32);

impl TextStyle {
    /// The empty style set.
    pub fn none() -> (r: TextStyle)
        ensures
            r.0 == 0,
    {
        TextStyle(0)
    }

    /// True exactly when every bit of `other` is present in `self`.
    pub fn contains(self, other: TextStyle) -> (r: bool)
        ensures
            r == (self.0 & other.0 == other.0),
    {
        self.0 & other.0 == other.0
    }

    /// Adds every bit of `other` to `self`.
    pub fn insert(&mut self, other: TextStyle)
        ensures
            final(self).0 == (old(self).0 | other.0),
    {
        self.0 = self.0 | other.0;
    }

    /// Removes every bit of `other` from `self`.
    pub fn remove(&mut self, other: TextStyle)
        ensures
            final(self).0 == (old(self).0 & !other.0),
    {
        self.0 = self.0 & !other.0;
    }
}

/// The union of two style sets, as a pure operation.
pub fn union(a: TextStyle, b: TextStyle) -> (r: TextStyle)
    ensures
        r.0 == (a.0 | b.0),
{
    TextStyle(a.0 | b.0)
}

/// Inserting an attribute that is not already present and then removing it
/// restores the prior style set.
pub proof fn lemma_insert_remove_round_trip(s: u32, a: u32)
    requires
        s & a == 0,
    ensures
        (s | a) & !a == s,
{
    assert((s | a) & !a == s) by (bit_vector)
        requires
            s & a == 0,
    ;
}

/// After inserting two disjoint, non-empty attributes both are contained;
/// after removing the first, the second is still contained and the first
/// no longer is.
pub proof fn lemma_disjoint_insert_remove(s: u32, a: u32, b: u32)
    requires
        a & b == 0,
        a != 0,
        b != 0,
    ensures
        ((s | a) | b) & a == a,
        ((s | a) | b) & b == b,
        (((s | a) | b) & !a) & b == b,
        (((s | a) | b) & !a) & a != a,
{
    assert(((s | a) | b) & a == a) by (bit_vector);
    assert(((s | a) | b) & b == b) by (bit_vector);
    assert((((s | a) | b) & !a) & b == b) by (bit_vector)
        requires
            a & b == 0,
    ;
    assert((((s | a) | b) & !a) & a != a) by (bit_vector)
        requires
            a != 0,
    ;
}

/// The foreground color class a fragment's style calls for, at most one,
/// chosen in a fixed priority order.
#[derive(Debug, Clone, Copy, PartialEq, Eq, Structural)]
pub enum Foreground {
    Heading,
    Quote,
    Code,
}

/// The foreground chosen for a style set: heading wins over quote, quote
/// over code; a style with none of the three gets no foreground color.
pub open spec fn spec_foreground(bits: u32) -> Option<Foreground> {
    if bits & HEADING == HEADING {
        Some(Foreground::Heading)
    } else if bits & QUOTE == QUOTE {
        Some(Foreground::Quote)
    } else if bits & CODE == CODE {
        Some(Foreground::Code)
    } else {
        None
    }
}

/// Picks the at-most-one foreground color class of a style set, evaluated
/// in the fixed priority order heading, quote, code. The bold, italic and
/// dim modifiers are independent of this choice and are read off with
/// `contains`.
pub fn foreground_of(ts: TextStyle) -> (r: Option<Foreground>)
    ensures
        r == spec_foreground(ts.0),
{
    if ts.contains(TextStyle(HEADING)) {
        Some(Foreground::Heading)
    } else if ts.contains(TextStyle(QUOTE)) {
        Some(Foreground::Quote)
    } else if ts.contains(TextStyle(CODE)) {
        Some(Foreground::Code)
    } else {
        None
    }
}

/// The mathematical value of a text fragment: its characters and style bits.
#[verifier::ext_equal]
pub ghost struct SpanV {
    pub text: Seq<char>,
    pub style: u32,
}

/// The mathematical value of a render line: its fragments and indent.
#[verifier::ext_equal]
pub ghost struct LineV {
    pub spans: Seq<SpanV>,
    pub indent: u16,
}

/// A contiguous run of text sharing one style.
#[derive(Debug)]
pub struct TextSpan {
    pub text: String,
    pub style: TextStyle,
}

impl View for TextSpan {
    type V = SpanV;

    open spec fn view(&self) -> SpanV {
        SpanV { text: self.text@, style: self.style.0 }
    }
}

impl TextSpan {
    /// Builds a fragment from its text and style.
    pub fn new(text: String, style: TextStyle) -> (r: TextSpan)
        ensures
            r@ == (SpanV { text: text@, style: style.0 }),
    {
        TextSpan { text, style }
    }
}

/// One terminal row's worth of fragments plus a leading indent in columns.
#[derive(Debug)]
pub struct RenderLine {
    pub spans: Vec<TextSpan>,
    pub indent: u16,
}

impl View for RenderLine {
    type V = LineV;

    open spec fn view(&self) -> LineV {
        LineV { spans: self.spans@.map_values(|s: TextSpan| s@), indent: self.indent }
    }
}

/// The value of a blank line: no fragments, no indent.
pub open spec fn blank_line() -> LineV {
    LineV { spans: Seq::empty(), indent: 0 }
}

impl RenderLine {
    /// Builds an empty line with no indent.
    pub fn new() -> (r: RenderLine)
        ensures
            r@ == blank_line(),
    {
        let r = RenderLine { spans: Vec::new(), indent: 0 };
        proof {
            assert(r@.spans =~= Seq::<SpanV>::empty());
        }
        r
    }
}

/// An ordered sequence of render lines: append-only while it is built,
/// read-only afterward.
#[derive(Debug)]
pub struct Document {
    pub lines: Vec<RenderLine>,
}

impl View for Document {
    type V = Seq<LineV>;

    open spec fn view(&self) -> Seq<LineV> {
        self.lines@.map_values(|l: RenderLine| l@)
    }
}

impl Document {
    /// Builds an empty document.
    pub fn new() -> (r: Document)
        ensures
            r@ == Seq::<LineV>::empty(),
    {
        let r = Document { lines: Vec::new() };
        proof {
            assert(r@ =~= Seq::<LineV>::empty());
        }
        r
    }

    /// The number of navigable lines.
    pub fn len(&self) -> (n: usize)
        ensures
            n == self@.len(),
    {
        self.lines.len()
    }
}

} // verus!
