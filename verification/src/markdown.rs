//! The markup-to-document transducer: consumes an ordered stream of semantic
//! markup events and incrementally builds the styled document model, tracking
//! nested list, quote, table and code-block state.

use vstd::prelude::*;
use vstd::string::StringExecFns;
use vstd::string::StrSliceExecFns;
use crate::document::BOLD;
use crate::document::CODE;
use crate::document::DIM;
use crate::document::HEADING;
use crate::document::ITALIC;
use crate::document::union;
use crate::document::QUOTE;
use crate::document::Document;
use crate::document::LineV;
use crate::document::RenderLine;
use crate::document::SpanV;
use crate::document::TextSpan;
use crate::document::TextStyle;
use crate::document::blank_line;
use crate::width::display_width;
use crate::width::pad_to_width;
use crate::width::spec_pad;

verus! {

/// The kind tag of the markup document format.
#[derive(Debug)]
pub struct MarkdownFormat;

/// One semantic markup event, as handed over by an upstream markup parser:
/// block and inline start and end markers, and leaf events carrying text.
#[derive(Debug)]
pub enum MarkupEvent {
    HeadingStart,
    HeadingEnd,
    ParagraphStart,
    ParagraphEnd,
    CodeBlockStart,
    CodeBlockEnd,
    /// A list opens; `Some(n)` is an ordered list whose declared first index
    /// is `n`, `None` an unordered list.
    ListStart(Option<u64>),
    ListEnd,
    ItemStart,
    ItemEnd,
    BlockQuoteStart,
    BlockQuoteEnd,
    Rule,
    TableStart,
    TableEnd,
    TableHeadStart,
    TableHeadEnd,
    TableRowStart,
    TableRowEnd,
    TableCellStart,
    TableCellEnd,
    StrongStart,
    StrongEnd,
    EmphasisStart,
    EmphasisEnd,
    /// An inline code leaf.
    Code(String),
    /// A plain text leaf.
    Text(String),
    SoftBreak,
    HardBreak,
}

/// The mathematical value of one list context.
#[verifier::ext_equal]
pub ghost struct ListV {
    pub is_ordered: bool,
    pub item_index: u64,
}

/// Whether the enclosing list is ordered, and the index of its latest item.
#[derive(Debug)]
pub struct ListContext {
    pub is_ordered: bool,
    pub item_index: u64,
}

impl View for ListContext {
    type V = ListV;

    open spec fn view(&self) -> ListV {
        ListV { is_ordered: self.is_ordered, item_index: self.item_index }
    }
}

/// The mathematical value of the transducer's working state.
#[verifier::ext_equal]
pub ghost struct StateV {
    pub doc: Seq<LineV>,
    pub line: Seq<SpanV>,
    pub style: u32,
    pub indent: u16,
    pub in_code_block: bool,
    pub line_has_content: bool,
    pub lists: Seq<ListV>,
    pub in_table: bool,
    pub in_table_head: bool,
    pub in_table_cell: bool,
    pub rows: Seq<Seq<Seq<char>>>,
    pub row: Seq<Seq<char>>,
    pub cell: Seq<char>,
}

/// The transducer's working memory for one pass over an event stream.
#[derive(Debug)]
pub struct ParseState {
    pub doc: Document,
    pub current_line: RenderLine,
    pub current_style: TextStyle,
    pub indent_level: u16,
    pub in_code_block: bool,
    pub line_has_content: bool,
    pub list_stack: Vec<ListContext>,
    pub in_table: bool,
    pub in_table_head: bool,
    pub in_table_cell: bool,
    pub table_rows: Vec<Vec<String>>,
    pub current_row: Vec<String>,
    pub current_cell_text: String,
}

impl View for ParseState {
    type V = StateV;

    open spec fn view(&self) -> StateV {
        StateV {
            doc: self.doc@,
            line: self.current_line@.spans,
            style: self.current_style.0,
            indent: self.indent_level,
            in_code_block: self.in_code_block,
            line_has_content: self.line_has_content,
            lists: self.list_stack@.map_values(|c: ListContext| c@),
            in_table: self.in_table,
            in_table_head: self.in_table_head,
            in_table_cell: self.in_table_cell,
            rows: self.table_rows@.map_values(|r: Vec<String>| r@.map_values(|c: String| c@)),
            row: self.current_row@.map_values(|c: String| c@),
            cell: self.current_cell_text@,
        }
    }
}

/// The state before the first event: everything empty.
pub open spec fn spec_initial() -> StateV {
    StateV {
        doc: Seq::empty(),
        line: Seq::empty(),
        style: 0,
        indent: 0,
        in_code_block: false,
        line_has_content: false,
        lists: Seq::empty(),
        in_table: false,
        in_table_head: false,
        in_table_cell: false,
        rows: Seq::empty(),
        row: Seq::empty(),
        cell: Seq::empty(),
    }
}

/// Freezing the current line into the document under the current indent.
pub open spec fn spec_flush(s: StateV) -> StateV {
    StateV {
        doc: s.doc.push(LineV { spans: s.line, indent: s.indent }),
        line: Seq::empty(),
        line_has_content: false,
        ..s
    }
}

/// Appending one blank line to the document.
pub open spec fn spec_blank(s: StateV) -> StateV {
    StateV { doc: s.doc.push(blank_line()), ..s }
}

/// Appending a non-empty fragment to the current line; empty text changes
/// nothing.
pub open spec fn spec_push_span(s: StateV, text: Seq<char>, style: u32) -> StateV {
    if text.len() == 0 {
        s
    } else {
        StateV { line: s.line.push(SpanV { text, style }), line_has_content: true, ..s }
    }
}

impl ParseState {
    /// Builds the state for one fresh transduction pass.
    pub fn new() -> (r: ParseState)
        ensures
            r@ == spec_initial(),
    {
        let r = ParseState {
            doc: Document::new(),
            current_line: RenderLine::new(),
            current_style: TextStyle::none(),
            indent_level: 0,
            in_code_block: false,
            line_has_content: false,
            list_stack: Vec::new(),
            in_table: false,
            in_table_head: false,
            in_table_cell: false,
            table_rows: Vec::new(),
            current_row: Vec::new(),
            current_cell_text: String::new(),
        };
        proof {
            assert(r@ =~~= spec_initial());
        }
        r
    }

    /// Freezes the current line into the document under the current indent
    /// and starts a fresh one.
    pub fn flush_line(&mut self)
        ensures
            final(self)@ == spec_flush(old(self)@),
    {
        self.current_line.indent = self.indent_level;
        let mut line = RenderLine::new();
        core::mem::swap(&mut line, &mut self.current_line);
        self.doc.lines.push(line);
        self.line_has_content = false;
        proof {
            assert(self@ =~~= spec_flush(old(self)@));
        }
    }

    /// Appends one blank line to the document.
    pub fn add_empty_line(&mut self)
        ensures
            final(self)@ == spec_blank(old(self)@),
    {
        self.doc.lines.push(RenderLine::new());
        proof {
            assert(self@ =~~= spec_blank(old(self)@));
        }
    }

    /// Appends a fragment with the given style to the current line; empty
    /// text is dropped.
    pub fn push_span(&mut self, text: String, style: TextStyle)
        ensures
            final(self)@ == spec_push_span(old(self)@, text@, style.0),
    {
        if !text.as_str().is_empty() {
            self.current_line.spans.push(TextSpan::new(text, style));
            self.line_has_content = true;
            proof {
                assert(self@ =~~= spec_push_span(old(self)@, text@, style.0));
            }
        } else {
            proof {
                assert(self@ =~~= spec_push_span(old(self)@, text@, style.0));
            }
        }
    }
}

/// The decimal digit `d` as a character.
pub open spec fn digit_char(d: int) -> char {
    if d == 0 {
        '0'
    } else if d == 1 {
        '1'
    } else if d == 2 {
        '2'
    } else if d == 3 {
        '3'
    } else if d == 4 {
        '4'
    } else if d == 5 {
        '5'
    } else if d == 6 {
        '6'
    } else if d == 7 {
        '7'
    } else if d == 8 {
        '8'
    } else {
        '9'
    }
}

/// The decimal digits of `n`, most significant first.
pub open spec fn spec_digits(n: int) -> Seq<char>
    decreases n,
{
    if n < 10 {
        seq![digit_char(n)]
    } else {
        spec_digits(n / 10) + seq![digit_char(n % 10)]
    }
}

/// One decimal digit as a string.
fn digit_string(d: u64) -> (r: String)
    requires
        d < 10,
    ensures
        r@ == seq![digit_char(d as int)],
{
    if d == 0 {
        let s = "0".to_owned();
        proof {
            reveal_strlit("0");
            assert(s@ =~= seq![digit_char(0)]);
        }
        s
    } else if d == 1 {
        let s = "1".to_owned();
        proof {
            reveal_strlit("1");
            assert(s@ =~= seq![digit_char(1)]);
        }
        s
    } else if d == 2 {
        let s = "2".to_owned();
        proof {
            reveal_strlit("2");
            assert(s@ =~= seq![digit_char(2)]);
        }
        s
    } else if d == 3 {
        let s = "3".to_owned();
        proof {
            reveal_strlit("3");
            assert(s@ =~= seq![digit_char(3)]);
        }
        s
    } else if d == 4 {
        let s = "4".to_owned();
        proof {
            reveal_strlit("4");
            assert(s@ =~= seq![digit_char(4)]);
        }
        s
    } else if d == 5 {
        let s = "5".to_owned();
        proof {
            reveal_strlit("5");
            assert(s@ =~= seq![digit_char(5)]);
        }
        s
    } else if d == 6 {
        let s = "6".to_owned();
        proof {
            reveal_strlit("6");
            assert(s@ =~= seq![digit_char(6)]);
        }
        s
    } else if d == 7 {
        let s = "7".to_owned();
        proof {
            reveal_strlit("7");
            assert(s@ =~= seq![digit_char(7)]);
        }
        s
    } else if d == 8 {
        let s = "8".to_owned();
        proof {
            reveal_strlit("8");
            assert(s@ =~= seq![digit_char(8)]);
        }
        s
    } else {
        let s = "9".to_owned();
        proof {
            reveal_strlit("9");
            assert(s@ =~= seq![digit_char(9)]);
        }
        s
    }
}

/// `n` written in decimal.
pub fn u64_to_string(n: u64) -> (r: String)
    ensures
        r@ == spec_digits(n as int),
    decreases n,
{
    if n < 10 {
        digit_string(n)
    } else {
        let mut s = u64_to_string(n / 10);
        let d = digit_string(n % 10);
        s.append(d.as_str());
        proof {
            assert(s@ =~= spec_digits(n as int));
        }
        s
    }
}

/// The pieces of `t` split on newline characters; a string without a newline
/// is one piece, and every newline separates two (possibly empty) pieces.
pub open spec fn spec_split_lines(t: Seq<char>) -> Seq<Seq<char>>
    decreases t.len(),
{
    if t.len() == 0 {
        seq![Seq::<char>::empty()]
    } else if t[0] == '\n' {
        seq![Seq::<char>::empty()] + spec_split_lines(t.drop_first())
    } else {
        let rest = spec_split_lines(t.drop_first());
        seq![seq![t[0]] + rest[0]] + rest.drop_first()
    }
}

/// Splitting always yields at least one piece.
pub proof fn lemma_split_lines_len(t: Seq<char>)
    ensures
        spec_split_lines(t).len() >= 1,
    decreases t.len(),
{
    if t.len() == 0 {
    } else {
        lemma_split_lines_len(t.drop_first());
    }
}

/// Where the first newline of `t` sits at `i`, the split is the piece before
/// it followed by the split of what comes after it; where `t` has no newline
/// (`i == t.len()`), the split is `t` alone.
proof fn lemma_split_lines_head(t: Seq<char>, i: int)
    requires
        0 <= i <= t.len(),
        forall|j: int| 0 <= j < i ==> t[j] != '\n',
        i < t.len() ==> t[i] == '\n',
    ensures
        i == t.len() ==> spec_split_lines(t) == seq![t],
        i < t.len() ==> spec_split_lines(t) == seq![t.subrange(0, i)] + spec_split_lines(
            t.subrange(i + 1, t.len() as int),
        ),
    decreases t.len(),
{
    lemma_split_lines_len(t);
    if t.len() == 0 {
        assert(spec_split_lines(t) =~~= seq![t]);
    } else if i == 0 {
        if i < t.len() {
            assert(spec_split_lines(t) =~= seq![t.subrange(0, 0)] + spec_split_lines(
                t.subrange(1, t.len() as int),
            )) by {
                assert(t.drop_first() =~= t.subrange(1, t.len() as int));
                assert(t.subrange(0, 0) =~= Seq::<char>::empty());
            }
        }
    } else {
        let td = t.drop_first();
        lemma_split_lines_head(td, i - 1);
        lemma_split_lines_len(td);
        if i == t.len() {
            assert(spec_split_lines(td) == seq![td]);
            assert(spec_split_lines(t) =~= seq![t]) by {
                assert(seq![t[0]] + td =~= t);
            }
        } else {
            assert(spec_split_lines(td) == seq![td.subrange(0, i - 1)] + spec_split_lines(
                td.subrange(i, td.len() as int),
            ));
            assert(td.subrange(i, td.len() as int) =~= t.subrange(i + 1, t.len() as int));
            assert(seq![t[0]] + td.subrange(0, i - 1) =~= t.subrange(0, i));
            assert(spec_split_lines(t) =~= seq![t.subrange(0, i)] + spec_split_lines(
                t.subrange(i + 1, t.len() as int),
            ));
        }
    }
}

/// The views of a sequence of owned strings.
pub open spec fn views_of(v: Seq<String>) -> Seq<Seq<char>> {
    v.map_values(|s: String| s@)
}

/// Splits `text` on newline characters, keeping empty pieces.
pub fn split_lines(text: &str) -> (r: Vec<String>)
    ensures
        views_of(r@) == spec_split_lines(text@),
{
    let n = text.unicode_len();
    let mut pieces: Vec<String> = Vec::new();
    let mut start: usize = 0;
    proof {
        assert(text@.subrange(0, n as int) =~= text@);
        assert(views_of(pieces@) =~= Seq::<Seq<char>>::empty());
    }
    loop
        invariant
            start <= n,
            n == text@.len(),
            spec_split_lines(text@) == views_of(pieces@) + spec_split_lines(
                text@.subrange(start as int, n as int),
            ),
        decreases n - start,
    {
        let mut j = start;
        while j < n && text.get_char(j) != '\n'
            invariant
                start <= j <= n,
                n == text@.len(),
                forall|k: int| start <= k < j ==> text@[k] != '\n',
            decreases n - j,
        {
            j = j + 1;
        }
        let ghost prev = views_of(pieces@);
        let piece = text.substring_char(start, j).to_owned();
        pieces.push(piece);
        proof {
            assert(views_of(pieces@) =~= prev.push(piece@));
            let tail = text@.subrange(start as int, n as int);
            lemma_split_lines_head(tail, j - start);
            if j < n {
                assert(tail[j - start] == text@[j as int]);
                assert(tail.subrange(0, j - start) =~= text@.subrange(start as int, j as int));
                assert(tail.subrange(j - start + 1, tail.len() as int) =~= text@.subrange(
                    j + 1,
                    n as int,
                ));
                assert(spec_split_lines(text@) =~= views_of(pieces@) + spec_split_lines(
                    text@.subrange(j + 1, n as int),
                ));
            } else {
                assert(tail =~= text@.subrange(start as int, j as int));
                assert(spec_split_lines(tail) == seq![tail]);
                assert(views_of(pieces@) =~= spec_split_lines(text@));
            }
        }
        if j < n {
            start = j + 1;
        } else {
            return pieces;
        }
    }
}



/// The number of columns of a table: the longest row's length.
pub open spec fn spec_max_cols(rows: Seq<Seq<Seq<char>>>) -> int
    decreases rows.len(),
{
    if rows.len() == 0 {
        0
    } else {
        let m = spec_max_cols(rows.drop_last());
        if rows.last().len() > m {
            rows.last().len() as int
        } else {
            m
        }
    }
}

/// The text of one table cell; a missing cell is empty.
pub open spec fn spec_cell(rows: Seq<Seq<Seq<char>>>, r: int, c: int) -> Seq<char> {
    if 0 <= r < rows.len() && 0 <= c < rows[r].len() {
        rows[r][c]
    } else {
        Seq::empty()
    }
}

/// The width of one column: the maximum display width of that column's cells
/// over all rows (missing cells count as zero).
pub open spec fn spec_col_width(rows: Seq<Seq<Seq<char>>>, c: int) -> nat
    decreases rows.len(),
{
    if rows.len() == 0 {
        0
    } else {
        let m = spec_col_width(rows.drop_last(), c);
        let w = if 0 <= c < rows.last().len() {
            display_width(rows.last()[c])
        } else {
            0
        };
        if w > m {
            w
        } else {
            m
        }
    }
}

/// A column's width is at least the display width of each of its cells.
pub proof fn lemma_col_width_bound(rows: Seq<Seq<Seq<char>>>, r: int, c: int)
    requires
        0 <= r < rows.len(),
        0 <= c < rows[r].len(),
    ensures
        spec_col_width(rows, c) >= display_width(rows[r][c]),
    decreases rows.len(),
{
    if r == rows.len() - 1 {
        assert(rows.last() == rows[r]);
    } else {
        lemma_col_width_bound(rows.drop_last(), r, c);
        assert(rows.drop_last()[r] == rows[r]);
    }
}

/// The two-space separator placed between table columns.
pub open spec fn table_sep_span() -> SpanV {
    SpanV { text: "  "@, style: 0 }
}

/// `n` repetitions of the horizontal-rule character.
pub open spec fn spec_dashes(n: nat) -> Seq<char> {
    Seq::new(n, |i: int| '\u{2500}')
}

/// The fragments of one rendered table row: cells padded to their column's
/// width, separated by two spaces; the header row (row zero) is styled
/// bold heading, data rows carry no style.
pub open spec fn spec_row_spans(rows: Seq<Seq<Seq<char>>>, r: int, ncols: int) -> Seq<SpanV> {
    Seq::new(
        (2 * ncols - 1) as nat,
        |i: int|
            if i % 2 == 1 {
                table_sep_span()
            } else {
                SpanV {
                    text: spec_pad(spec_cell(rows, r, i / 2), spec_col_width(rows, i / 2)),
                    style: if r == 0 {
                        BOLD | HEADING
                    } else {
                        0
                    },
                }
            },
    )
}

/// The fragments of the dim separator line drawn under the header row: one
/// dash rule per column, each as wide as its column.
pub open spec fn spec_sep_spans(rows: Seq<Seq<Seq<char>>>, ncols: int) -> Seq<SpanV> {
    Seq::new(
        (2 * ncols - 1) as nat,
        |i: int|
            if i % 2 == 1 {
                table_sep_span()
            } else {
                SpanV { text: spec_dashes(spec_col_width(rows, i / 2)), style: DIM }
            },
    )
}

/// The rendered lines of a table: the header row, the dash separator line,
/// then every data row, all under the given indent.
pub open spec fn spec_table_lines(rows: Seq<Seq<Seq<char>>>, indent: u16) -> Seq<LineV> {
    let ncols = spec_max_cols(rows);
    Seq::new(
        (rows.len() + 1) as nat,
        |i: int|
            if i == 0 {
                LineV { spans: spec_row_spans(rows, 0, ncols), indent }
            } else if i == 1 {
                LineV { spans: spec_sep_spans(rows, ncols), indent }
            } else {
                LineV { spans: spec_row_spans(rows, i - 1, ncols), indent }
            },
    )
}

/// Closing a table: when any cells were accumulated, the rendered table
/// lines and one blank line are appended and the accumulator is cleared;
/// a table without rows or columns changes nothing.
pub open spec fn spec_render_table(s: StateV) -> StateV {
    if s.rows.len() == 0 || spec_max_cols(s.rows) == 0 {
        s
    } else {
        StateV {
            doc: s.doc + spec_table_lines(s.rows, s.indent) + seq![blank_line()],
            rows: Seq::empty(),
            ..s
        }
    }
}

/// A dash rule of `n` columns.
fn dash_rule(n: usize) -> (r: String)
    ensures
        r@ == spec_dashes(n as nat),
{
    let mut s = String::new();
    let mut i: usize = 0;
    proof {
        assert(s@ =~= spec_dashes(0));
    }
    while i < n
        invariant
            i <= n,
            s@ == spec_dashes(i as nat),
        decreases n - i,
    {
        s.append("\u{2500}");
        proof {
            reveal_strlit("\u{2500}");
            assert(s@ =~= spec_dashes((i + 1) as nat));
        }
        i = i + 1;
    }
    s
}

/// Every cell of `rows` padded to its column's width has a display width of
/// exactly that column's width.
pub open spec fn padded_widths_exact(rows: Seq<Seq<Seq<char>>>) -> bool {
    forall|r: int, c: int|
        0 <= r < rows.len() && 0 <= c < spec_max_cols(rows) ==> display_width(
            #[trigger] spec_pad(spec_cell(rows, r, c), spec_col_width(rows, c)),
        ) == spec_col_width(rows, c)
}

impl ParseState {
    /// Renders the accumulated table rows into document lines: cells padded
    /// column by column to the widest cell of the column, a bold header row,
    /// a dim dash separator under it, and a closing blank line.
    pub fn render_table(&mut self)
        ensures
            final(self)@ == spec_render_table(old(self)@),
            padded_widths_exact(old(self)@.rows),
    {
        let ghost rv = self@.rows;
        let nrows = self.table_rows.len();
        if nrows == 0 {
            return;
        }
        // Number of columns: the longest row.
        let mut ncols: usize = 0;
        let mut r: usize = 0;
        proof {
            assert(rv.take(0) =~= Seq::<Seq<Seq<char>>>::empty());
        }
        while r < nrows
            invariant
                r <= nrows,
                nrows == rv.len(),
                rv == self@.rows,
                self == old(self),
                ncols == spec_max_cols(rv.take(r as int)),
            decreases nrows - r,
        {
            let len = self.table_rows[r].len();
            proof {
                assert(rv.take(r + 1).drop_last() =~= rv.take(r as int));
                assert(rv.take(r + 1).last() == rv[r as int]);
            }
            if len > ncols {
                ncols = len;
            }
            r = r + 1;
        }
        proof {
            assert(rv.take(nrows as int) =~= rv);
        }
        if ncols == 0 {
            return;
        }
        // Width of each column: the widest cell in it.
        let mut widths: Vec<usize> = Vec::new();
        let mut c: usize = 0;
        while c < ncols
            invariant
                c <= ncols,
                nrows == rv.len(),
                rv == self@.rows,
                self == old(self),
                widths@.len() == c,
                forall|k: int| 0 <= k < c ==> widths@[k] == spec_col_width(rv, k),
            decreases ncols - c,
        {
            let mut w: usize = 0;
            let mut r2: usize = 0;
            proof {
                assert(rv.take(0) =~= Seq::<Seq<Seq<char>>>::empty());
            }
            while r2 < nrows
                invariant
                    r2 <= nrows,
                    nrows == rv.len(),
                    rv == self@.rows,
                    self == old(self),
                    w == spec_col_width(rv.take(r2 as int), c as int),
                decreases nrows - r2,
            {
                proof {
                    assert(rv.take(r2 + 1).drop_last() =~= rv.take(r2 as int));
                    assert(rv.take(r2 + 1).last() == rv[r2 as int]);
                }
                if c < self.table_rows[r2].len() {
                    let cw = crate::width::str_width(self.table_rows[r2][c].as_str());
                    if cw > w {
                        w = cw;
                    }
                }
                r2 = r2 + 1;
            }
            proof {
                assert(rv.take(nrows as int) =~= rv);
            }
            widths.push(w);
            c = c + 1;
        }
        // Emit the rendered lines.
        let ghost table = spec_table_lines(rv, self.indent_level);
        let ghost old_doc = self@.doc;
        let ghost ncols_i = ncols as int;
        let mut r3: usize = 0;
        while r3 < nrows
            invariant
                r3 <= nrows,
                nrows == rv.len(),
                rv == old(self)@.rows,
                ncols_i == spec_max_cols(rv),
                0 < ncols_i <= usize::MAX,
                ncols == ncols_i,
                widths@.len() == ncols_i,
                forall|k: int| 0 <= k < ncols_i ==> widths@[k] == spec_col_width(rv, k),
                table == spec_table_lines(rv, old(self).indent_level),
                old_doc == old(self)@.doc,
                self@ == (StateV {
                    doc: old_doc + table.take(if r3 == 0 { 0int } else { r3 + 1 }),
                    ..old(self)@
                }),
                forall|a: int, b: int|
                    0 <= a < r3 && 0 <= b < ncols_i ==> display_width(
                        #[trigger] spec_pad(spec_cell(rv, a, b), spec_col_width(rv, b)),
                    ) == spec_col_width(rv, b),
            decreases nrows - r3,
        {
            let ghost line_target = spec_row_spans(rv, r3 as int, ncols_i);
            let mut line = RenderLine::new();
            line.indent = self.indent_level;
            let mut c2: usize = 0;
            while c2 < ncols
                invariant
                    c2 <= ncols,
                    r3 < nrows,
                    nrows == rv.len(),
                    rv == old(self)@.rows,
                    ncols_i == spec_max_cols(rv),
                    0 < ncols_i <= usize::MAX,
                    ncols == ncols_i,
                    widths@.len() == ncols_i,
                    forall|k: int| 0 <= k < ncols_i ==> widths@[k] == spec_col_width(rv, k),
                    line_target == spec_row_spans(rv, r3 as int, ncols_i),
                    self@.rows == rv,
                    self.indent_level == old(self).indent_level,
                    line@.indent == old(self).indent_level,
                    line@.spans == line_target.take(if c2 == 0 { 0int } else { 2 * c2 - 1 }),
                    forall|b: int|
                        0 <= b < c2 ==> display_width(
                            #[trigger] spec_pad(spec_cell(rv, r3 as int, b), spec_col_width(rv, b)),
                        ) == spec_col_width(rv, b),
                decreases ncols - c2,
            {
                let ghost prev_spans = line@.spans;
                if c2 > 0 {
                    line.spans.push(TextSpan::new("  ".to_owned(), TextStyle::none()));
                    proof {
                        assert(line_target[2 * c2 - 1] == table_sep_span());
                        assert(line@.spans =~= prev_spans.push(table_sep_span()));
                    }
                }
                let ghost mid_spans = line@.spans;
                let style = if r3 == 0 {
                    TextStyle(BOLD | HEADING)
                } else {
                    TextStyle::none()
                };
                proof {
                    assert(rv[r3 as int] == self.table_rows@[r3 as int]@.map_values(
                        |cl: String| cl@,
                    ));
                }
                let padded: String = if c2 < self.table_rows[r3].len() {
                    proof {
                        assert(spec_cell(rv, r3 as int, c2 as int) == self.table_rows@[r3 as int]@[
                            c2 as int]@);
                        lemma_col_width_bound(rv, r3 as int, c2 as int);
                    }
                    pad_to_width(self.table_rows[r3][c2].as_str(), widths[c2])
                } else {
                    let p = pad_to_width("", widths[c2]);
                    proof {
                        reveal_strlit("");
                        assert(""@ =~= Seq::<char>::empty());
                        assert(spec_cell(rv, r3 as int, c2 as int) == Seq::<char>::empty());
                    }
                    p
                };
                proof {
                    assert(padded@ == spec_pad(spec_cell(rv, r3 as int, c2 as int), spec_col_width(rv, c2 as int)));
                    assert(display_width(padded@) == spec_col_width(rv, c2 as int));
                }
                line.spans.push(TextSpan::new(padded, style));
                proof {
                    assert(line_target[2 * c2] == (SpanV { text: padded@, style: style.0 }));
                    assert(line@.spans =~= mid_spans.push(SpanV { text: padded@, style: style.0 }));
                    assert(line@.spans =~= line_target.take(2 * (c2 + 1) - 1));
                }
                c2 = c2 + 1;
            }
            proof {
                assert(line@.spans =~= line_target);
                assert(line@ =~~= table[if r3 == 0 { 0int } else { r3 + 1 }]);
            }
            let ghost doc_before = self@.doc;
            self.doc.lines.push(line);
            proof {
                assert(self@.doc =~= doc_before.push(line@));
            }
            if r3 == 0 {
                // The dim dash separator line under the header.
                let ghost sep_target = spec_sep_spans(rv, ncols_i);
                let mut sep = RenderLine::new();
                sep.indent = self.indent_level;
                let mut c3: usize = 0;
                while c3 < ncols
                    invariant
                        c3 <= ncols,
                        nrows == rv.len(),
                        rv == old(self)@.rows,
                        ncols_i == spec_max_cols(rv),
                        0 < ncols_i <= usize::MAX,
                        ncols == ncols_i,
                        widths@.len() == ncols_i,
                        forall|k: int| 0 <= k < ncols_i ==> widths@[k] == spec_col_width(rv, k),
                        sep_target == spec_sep_spans(rv, ncols_i),
                        self@.rows == rv,
                        self.indent_level == old(self).indent_level,
                        sep@.indent == old(self).indent_level,
                        sep@.spans == sep_target.take(if c3 == 0 { 0int } else { 2 * c3 - 1 }),
                    decreases ncols - c3,
                {
                    let ghost prev_spans = sep@.spans;
                    if c3 > 0 {
                        sep.spans.push(TextSpan::new("  ".to_owned(), TextStyle::none()));
                        proof {
                            assert(sep_target[2 * c3 - 1] == table_sep_span());
                            assert(sep@.spans =~= prev_spans.push(table_sep_span()));
                        }
                    }
                    let ghost mid_spans = sep@.spans;
                    let dash = dash_rule(widths[c3]);
                    sep.spans.push(TextSpan::new(dash, TextStyle(DIM)));
                    proof {
                        assert(sep_target[2 * c3] == (SpanV {
                            text: spec_dashes(spec_col_width(rv, c3 as int)),
                            style: DIM,
                        }));
                        assert(sep@.spans =~= sep_target.take(2 * (c3 + 1) - 1));
                    }
                    c3 = c3 + 1;
                }
                proof {
                    assert(sep@.spans =~= sep_target);
                    assert(sep@ =~~= table[1]);
                }
                let ghost doc_mid = self@.doc;
                self.doc.lines.push(sep);
                proof {
                    assert(self@.doc =~= doc_mid.push(sep@));
                    assert(self@.doc =~= old_doc + table.take(2));
                }
            } else {
                proof {
                    assert(self@.doc =~= old_doc + table.take(r3 + 2));
                }
            }
            r3 = r3 + 1;
        }
        proof {
            assert(table.take(nrows + 1) =~= table);
        }
        self.add_empty_line();
        self.table_rows.clear();
        proof {
            assert(self@.rows =~= Seq::<Seq<Seq<char>>>::empty());
            assert(self@.doc =~= old_doc + table + seq![blank_line()]);
            assert(self@ =~~= spec_render_table(old(self)@));
        }
    }
}


/// The text of a code-block fence line.
pub open spec fn fence_text() -> Seq<char> {
    "\u{2500}\u{2500}\u{2500}"@
}

/// The text of a thematic-break rule line.
pub open spec fn rule_text() -> Seq<char> {
    "\u{2500}\u{2500}\u{2500}\u{2500}\u{2500}\u{2500}\u{2500}\u{2500}\u{2500}\u{2500}\u{2500}\u{2500}\u{2500}\u{2500}\u{2500}\u{2500}\u{2500}\u{2500}\u{2500}\u{2500}\u{2500}\u{2500}\u{2500}\u{2500}\u{2500}\u{2500}\u{2500}\u{2500}\u{2500}\u{2500}\u{2500}\u{2500}"@
}

/// The bullet marker of an unordered list item.
pub open spec fn bullet_text() -> Seq<char> {
    "\u{2022} "@
}

/// The prefix marker of a block quote.
pub open spec fn quote_prefix_text() -> Seq<char> {
    "\u{2502} "@
}

/// The marker of an ordered list item: its index in decimal, a dot and a
/// space.
pub open spec fn spec_marker(idx: u64) -> Seq<char> {
    spec_digits(idx as int) + ". "@
}

/// Code-block text after its first piece: each further piece closes the
/// current line, then (when non-empty) opens a fragment on the next one.
pub open spec fn spec_code_rest(s: StateV, pieces: Seq<Seq<char>>) -> StateV
    decreases pieces.len(),
{
    if pieces.len() == 0 {
        s
    } else {
        spec_code_rest(spec_push_span(spec_flush(s), pieces[0], s.style), pieces.drop_first())
    }
}

/// A text leaf inside a code block: the text is split on newlines; the first
/// piece continues the current line, every further piece starts a new one.
pub open spec fn spec_code_text(s: StateV, pieces: Seq<Seq<char>>) -> StateV {
    if pieces.len() == 0 {
        s
    } else {
        spec_code_rest(spec_push_span(s, pieces[0], s.style), pieces.drop_first())
    }
}

/// The transducer's transition function: the state after handling one markup
/// event, following the event-handling rules of the document model.
pub open spec fn spec_step(s: StateV, ev: MarkupEvent) -> StateV {
    match ev {
        MarkupEvent::HeadingStart => StateV { style: s.style | (BOLD | HEADING), ..s },
        MarkupEvent::HeadingEnd => spec_blank(
            spec_flush(StateV { style: s.style & !(BOLD | HEADING), ..s }),
        ),
        MarkupEvent::ParagraphStart => s,
        MarkupEvent::ParagraphEnd => if s.in_table {
            s
        } else {
            spec_blank(spec_flush(s))
        },
        MarkupEvent::CodeBlockStart => {
            let s1 = StateV { in_code_block: true, style: s.style | CODE, ..s };
            spec_flush(spec_push_span(spec_flush(s1), fence_text(), DIM))
        },
        MarkupEvent::CodeBlockEnd => {
            let s1 = if s.line_has_content {
                spec_flush(s)
            } else {
                s
            };
            let s2 = spec_flush(spec_push_span(s1, fence_text(), DIM));
            StateV { in_code_block: false, style: s2.style & !CODE, ..s2 }
        },
        MarkupEvent::ListStart(first) => StateV {
            lists: s.lists.push(
                ListV {
                    is_ordered: first is Some,
                    item_index: match first {
                        Some(n) => n.saturating_sub(1),
                        None => 0u64,
                    },
                },
            ),
            indent: s.indent.saturating_add(4),
            ..s
        },
        MarkupEvent::ListEnd => {
            let s1 = StateV {
                lists: if s.lists.len() > 0 {
                    s.lists.drop_last()
                } else {
                    s.lists
                },
                indent: s.indent.saturating_sub(4),
                ..s
            };
            if s1.indent == 0 {
                spec_blank(s1)
            } else {
                s1
            }
        },
        MarkupEvent::ItemStart => {
            if s.lists.len() == 0 {
                s
            } else {
                let ctx = s.lists.last();
                if ctx.is_ordered {
                    let idx = ctx.item_index.saturating_add(1);
                    let s1 = StateV {
                        lists: s.lists.update(
                            s.lists.len() - 1,
                            ListV { is_ordered: true, item_index: idx },
                        ),
                        ..s
                    };
                    spec_push_span(s1, spec_marker(idx), s.style)
                } else {
                    spec_push_span(s, bullet_text(), s.style)
                }
            }
        },
        MarkupEvent::ItemEnd => spec_flush(s),
        MarkupEvent::BlockQuoteStart => {
            let s1 = StateV { indent: s.indent.saturating_add(2), style: s.style | QUOTE, ..s };
            spec_push_span(s1, quote_prefix_text(), QUOTE | DIM)
        },
        MarkupEvent::BlockQuoteEnd => spec_blank(
            spec_flush(
                StateV { indent: s.indent.saturating_sub(2), style: s.style & !QUOTE, ..s },
            ),
        ),
        MarkupEvent::Rule => spec_flush(spec_push_span(spec_flush(s), rule_text(), DIM)),
        MarkupEvent::TableStart => StateV { in_table: true, rows: Seq::empty(), ..s },
        MarkupEvent::TableEnd => spec_render_table(StateV { in_table: false, ..s }),
        MarkupEvent::TableHeadStart => StateV { in_table_head: true, ..s },
        MarkupEvent::TableHeadEnd => StateV { in_table_head: false, ..s },
        MarkupEvent::TableRowStart => StateV { row: Seq::empty(), ..s },
        MarkupEvent::TableRowEnd => StateV { rows: s.rows.push(s.row), row: Seq::empty(), ..s },
        MarkupEvent::TableCellStart => StateV { in_table_cell: true, cell: Seq::empty(), ..s },
        MarkupEvent::TableCellEnd => StateV {
            in_table_cell: false,
            row: s.row.push(s.cell),
            cell: Seq::empty(),
            ..s
        },
        MarkupEvent::StrongStart => StateV { style: s.style | BOLD, ..s },
        MarkupEvent::StrongEnd => StateV { style: s.style & !BOLD, ..s },
        MarkupEvent::EmphasisStart => StateV { style: s.style | ITALIC, ..s },
        MarkupEvent::EmphasisEnd => StateV { style: s.style & !ITALIC, ..s },
        MarkupEvent::Code(t) => if s.in_table_cell {
            StateV { cell: s.cell + t@, ..s }
        } else {
            spec_push_span(s, t@, s.style | CODE)
        },
        MarkupEvent::Text(t) => if s.in_table_cell {
            StateV { cell: s.cell + t@, ..s }
        } else if s.in_code_block {
            spec_code_text(s, spec_split_lines(t@))
        } else {
            spec_push_span(s, t@, s.style)
        },
        MarkupEvent::SoftBreak => if s.in_table_cell {
            s
        } else {
            spec_push_span(s, " "@, s.style)
        },
        MarkupEvent::HardBreak => if s.in_table_cell {
            s
        } else {
            spec_flush(s)
        },
    }
}

impl ParseState {
    /// Handles one markup event: the state advances by exactly one step of
    /// the transition function.
    #[verifier::rlimit(100)]
    #[verifier::spinoff_prover]
    pub fn handle_event(&mut self, ev: MarkupEvent)
        ensures
            final(self)@ == spec_step(old(self)@, ev),
    {
        let ghost ev0 = ev;
        match ev {
            MarkupEvent::HeadingStart => {
                self.current_style.insert(TextStyle(BOLD | HEADING));
                proof {
                    assert(self@ =~~= spec_step(old(self)@, ev0));
                }
            },
            MarkupEvent::HeadingEnd => {
                self.current_style.remove(TextStyle(BOLD | HEADING));
                proof {
                    assert(self@ =~~= (StateV {
                        style: old(self)@.style & !(BOLD | HEADING),
                        ..old(self)@
                    }));
                }
                self.flush_line();
                self.add_empty_line();
            },
            MarkupEvent::ParagraphStart => {},
            MarkupEvent::ParagraphEnd => {
                if !self.in_table {
                    self.flush_line();
                    self.add_empty_line();
                }
            },
            MarkupEvent::CodeBlockStart => {
                self.in_code_block = true;
                self.current_style.insert(TextStyle(CODE));
                proof {
                    assert(self@ =~~= (StateV {
                        in_code_block: true,
                        style: old(self)@.style | CODE,
                        ..old(self)@
                    }));
                }
                self.flush_line();
                self.push_span("\u{2500}\u{2500}\u{2500}".to_owned(), TextStyle(DIM));
                self.flush_line();
            },
            MarkupEvent::CodeBlockEnd => {
                if self.line_has_content {
                    self.flush_line();
                }
                self.push_span("\u{2500}\u{2500}\u{2500}".to_owned(), TextStyle(DIM));
                self.flush_line();
                self.in_code_block = false;
                self.current_style.remove(TextStyle(CODE));
                proof {
                    assert(self@ =~~= spec_step(old(self)@, ev0));
                }
            },
            MarkupEvent::ListStart(first) => {
                let (ord, idx) = match first {
                    Some(n) => (true, n.saturating_sub(1)),
                    None => (false, 0u64),
                };
                self.list_stack.push(ListContext { is_ordered: ord, item_index: idx });
                self.indent_level = self.indent_level.saturating_add(4);
                proof {
                    assert(self@.lists =~= old(self)@.lists.push(
                        ListV { is_ordered: ord, item_index: idx },
                    ));
                    assert(self@ =~~= spec_step(old(self)@, ev0));
                }
            },
            MarkupEvent::ListEnd => {
                let _ = self.list_stack.pop();
                self.indent_level = self.indent_level.saturating_sub(4);
                proof {
                    if old(self)@.lists.len() > 0 {
                        assert(self@.lists =~= old(self)@.lists.drop_last());
                    } else {
                        assert(self@.lists =~= old(self)@.lists);
                    }
                }
                if self.indent_level == 0 {
                    self.add_empty_line();
                }
                proof {
                    assert(self@ =~~= spec_step(old(self)@, ev0));
                }
            },
            MarkupEvent::ItemStart => {
                if self.list_stack.len() > 0 {
                    let ghost lists0 = self@.lists;
                    let ctx = match self.list_stack.pop() {
                        Some(c) => c,
                        None => ListContext { is_ordered: false, item_index: 0 },
                    };
                    if ctx.is_ordered {
                        let idx = ctx.item_index.saturating_add(1);
                        self.list_stack.push(ListContext { is_ordered: true, item_index: idx });
                        proof {
                            assert(self@.lists =~= lists0.update(
                                lists0.len() - 1,
                                ListV { is_ordered: true, item_index: idx },
                            ));
                        }
                        let mut marker = u64_to_string(idx);
                        marker.append(". ");
                        let st = self.current_style;
                        self.push_span(marker, st);
                        proof {
                            assert(self@ =~~= spec_step(old(self)@, ev0));
                        }
                    } else {
                        self.list_stack.push(ctx);
                        proof {
                            assert(self@.lists =~= lists0);
                            assert(self@ =~~= old(self)@);
                        }
                        let st = self.current_style;
                        self.push_span("\u{2022} ".to_owned(), st);
                        proof {
                            assert(self@ =~~= spec_step(old(self)@, ev0));
                        }
                    }
                }
            },
            MarkupEvent::ItemEnd => {
                self.flush_line();
            },
            MarkupEvent::BlockQuoteStart => {
                self.indent_level = self.indent_level.saturating_add(2);
                self.current_style.insert(TextStyle(QUOTE));
                self.push_span("\u{2502} ".to_owned(), TextStyle(QUOTE | DIM));
                proof {
                    assert(self@ =~~= spec_step(old(self)@, ev0));
                }
            },
            MarkupEvent::BlockQuoteEnd => {
                self.indent_level = self.indent_level.saturating_sub(2);
                self.current_style.remove(TextStyle(QUOTE));
                self.flush_line();
                self.add_empty_line();
                proof {
                    assert(self@ =~~= spec_step(old(self)@, ev0));
                }
            },
            MarkupEvent::Rule => {
                self.flush_line();
                self.push_span(
                    "\u{2500}\u{2500}\u{2500}\u{2500}\u{2500}\u{2500}\u{2500}\u{2500}\u{2500}\u{2500}\u{2500}\u{2500}\u{2500}\u{2500}\u{2500}\u{2500}\u{2500}\u{2500}\u{2500}\u{2500}\u{2500}\u{2500}\u{2500}\u{2500}\u{2500}\u{2500}\u{2500}\u{2500}\u{2500}\u{2500}\u{2500}\u{2500}".to_owned(),
                    TextStyle(DIM),
                );
                self.flush_line();
            },
            MarkupEvent::TableStart => {
                self.in_table = true;
                self.table_rows.clear();
                proof {
                    assert(self@.rows =~= Seq::<Seq<Seq<char>>>::empty());
                    assert(self@ =~~= spec_step(old(self)@, ev0));
                }
            },
            MarkupEvent::TableEnd => {
                self.in_table = false;
                proof {
                    assert(self@ =~~= (StateV { in_table: false, ..old(self)@ }));
                }
                self.render_table();
            },
            MarkupEvent::TableHeadStart => {
                self.in_table_head = true;
            },
            MarkupEvent::TableHeadEnd => {
                self.in_table_head = false;
            },
            MarkupEvent::TableRowStart => {
                self.current_row.clear();
                proof {
                    assert(self@.row =~= Seq::<Seq<char>>::empty());
                    assert(self@ =~~= spec_step(old(self)@, ev0));
                }
            },
            MarkupEvent::TableRowEnd => {
                let mut row: Vec<String> = Vec::new();
                core::mem::swap(&mut row, &mut self.current_row);
                self.table_rows.push(row);
                proof {
                    assert(self@.row =~= Seq::<Seq<char>>::empty());
                    assert(self@.rows =~= old(self)@.rows.push(old(self)@.row));
                    assert(self@ =~~= spec_step(old(self)@, ev0));
                }
            },
            MarkupEvent::TableCellStart => {
                self.in_table_cell = true;
                self.current_cell_text = String::new();
                proof {
                    assert(self@ =~~= spec_step(old(self)@, ev0));
                }
            },
            MarkupEvent::TableCellEnd => {
                self.in_table_cell = false;
                let mut cell = String::new();
                core::mem::swap(&mut cell, &mut self.current_cell_text);
                self.current_row.push(cell);
                proof {
                    assert(self@.row =~= old(self)@.row.push(old(self)@.cell));
                    assert(self@ =~~= spec_step(old(self)@, ev0));
                }
            },
            MarkupEvent::StrongStart => {
                self.current_style.insert(TextStyle(BOLD));
                proof {
                    assert(self@ =~~= spec_step(old(self)@, ev0));
                }
            },
            MarkupEvent::StrongEnd => {
                self.current_style.remove(TextStyle(BOLD));
                proof {
                    assert(self@ =~~= spec_step(old(self)@, ev0));
                }
            },
            MarkupEvent::EmphasisStart => {
                self.current_style.insert(TextStyle(ITALIC));
                proof {
                    assert(self@ =~~= spec_step(old(self)@, ev0));
                }
            },
            MarkupEvent::EmphasisEnd => {
                self.current_style.remove(TextStyle(ITALIC));
                proof {
                    assert(self@ =~~= spec_step(old(self)@, ev0));
                }
            },
            MarkupEvent::Code(t) => {
                if self.in_table_cell {
                    self.current_cell_text.append(t.as_str());
                    proof {
                        assert(self@ =~~= spec_step(old(self)@, ev0));
                    }
                } else {
                    let st = union(self.current_style, TextStyle(CODE));
                    self.push_span(t, st);
                    proof {
                        assert(self@ =~~= spec_step(old(self)@, ev0));
                    }
                }
            },
            MarkupEvent::Text(t) => {
                if self.in_table_cell {
                    self.current_cell_text.append(t.as_str());
                    proof {
                        assert(self@ =~~= spec_step(old(self)@, ev0));
                    }
                } else if self.in_code_block {
                    let ghost s0 = self@;
                    let ghost all = spec_split_lines(t@);
                    let mut pieces = split_lines(t.as_str());
                    proof {
                        lemma_split_lines_len(t@);
                        assert(views_of(pieces@).len() >= 1);
                    }
                    let ghost before = views_of(pieces@);
                    let p0 = pieces.remove(0);
                    proof {
                        assert(views_of(pieces@) =~= before.drop_first());
                        assert(p0@ == all[0]);
                    }
                    let st0 = self.current_style;
                    self.push_span(p0, st0);
                    proof {
                        assert(self@ == spec_push_span(s0, all[0], s0.style));
                        assert(spec_code_text(s0, all) == spec_code_rest(
                            self@,
                            views_of(pieces@),
                        ));
                    }
                    while pieces.len() > 0
                        invariant
                            spec_code_text(s0, all) == spec_code_rest(self@, views_of(pieces@)),
                        decreases pieces.len(),
                    {
                        let ghost cur = self@;
                        let ghost rem = views_of(pieces@);
                        let p = pieces.remove(0);
                        proof {
                            assert(views_of(pieces@) =~= rem.drop_first());
                            assert(p@ == rem[0]);
                        }
                        self.flush_line();
                        let st = self.current_style;
                        self.push_span(p, st);
                        proof {
                            assert(self@ == spec_push_span(spec_flush(cur), rem[0], cur.style));
                        }
                    }
                    proof {
                        assert(views_of(pieces@).len() == 0);
                        assert(self@ =~~= spec_step(old(self)@, ev0));
                    }
                } else {
                    let st = self.current_style;
                    self.push_span(t, st);
                    proof {
                        assert(self@ =~~= spec_step(old(self)@, ev0));
                    }
                }
            },
            MarkupEvent::SoftBreak => {
                if !self.in_table_cell {
                    let st = self.current_style;
                    self.push_span(" ".to_owned(), st);
                    proof {
                        assert(self@ =~~= spec_step(old(self)@, ev0));
                    }
                }
            },
            MarkupEvent::HardBreak => {
                if !self.in_table_cell {
                    self.flush_line();
                }
            },
        }
    }
}

/// The state after a whole event stream, starting from the initial state.
pub open spec fn spec_fold(es: Seq<MarkupEvent>) -> StateV
    decreases es.len(),
{
    if es.len() == 0 {
        spec_initial()
    } else {
        spec_step(spec_fold(es.drop_last()), es.last())
    }
}

/// The document produced from a whole event stream: the final state's
/// document, with the last line flushed when it still holds content.
pub open spec fn spec_transduce(es: Seq<MarkupEvent>) -> Seq<LineV> {
    let s = spec_fold(es);
    if s.line_has_content {
        spec_flush(s).doc
    } else {
        s.doc
    }
}

/// Consumes an ordered markup event stream in one forward pass and produces
/// the styled, line-oriented document it describes.
pub fn transduce(events: Vec<MarkupEvent>) -> (doc: Document)
    ensures
        doc@ == spec_transduce(events@),
{
    let ghost all = events@;
    let mut evs = events;
    let mut state = ParseState::new();
    proof {
        assert(all.take(0) =~= Seq::<MarkupEvent>::empty());
    }
    while evs.len() > 0
        invariant
            evs.len() <= all.len(),
            evs@ == all.subrange(all.len() - evs.len(), all.len() as int),
            state@ == spec_fold(all.take(all.len() - evs.len())),
        decreases evs.len(),
    {
        let ghost done = all.len() - evs.len();
        let e = evs.remove(0);
        proof {
            assert(e == all[done]);
            assert(evs@ =~= all.subrange(all.len() - evs.len(), all.len() as int));
            assert(all.take(done + 1).drop_last() =~= all.take(done));
            assert(all.take(done + 1).last() == all[done]);
        }
        state.handle_event(e);
    }
    proof {
        assert(all.take(all.len() as int) =~= all);
    }
    if state.line_has_content {
        state.flush_line();
    }
    state.doc
}


/// Every rendered table line (the header row, the separator line and every
/// data row) holds the same number of fragments: one per column, plus one
/// separator between each pair of columns.
pub proof fn lemma_table_line_shape(rows: Seq<Seq<Seq<char>>>, indent: u16)
    requires
        rows.len() > 0,
        spec_max_cols(rows) > 0,
    ensures
        forall|i: int|
            0 <= i < spec_table_lines(rows, indent).len() ==> (#[trigger] spec_table_lines(
                rows,
                indent,
            )[i]).spans.len() == 2 * spec_max_cols(rows) - 1,
{
}

} // verus!
