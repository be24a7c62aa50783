use pulldown_cmark::Event;
use pulldown_cmark::Options;
use pulldown_cmark::Parser;
use pulldown_cmark::Tag;
use pulldown_cmark::TagEnd;
use termview::document::Document;
use termview::document::BOLD;
use termview::document::CODE;
use termview::document::DIM;
use termview::document::HEADING;
use termview::document::QUOTE;
use termview::document::TextStyle;
use termview::markdown::transduce;
use termview::markdown::MarkupEvent;

/// Turns raw markup into the event stream the transducer consumes; the
/// header of a table is handed over as an ordinary row so that it is
/// collected with the data rows.
fn events_of(md: &str) -> Vec<MarkupEvent> {
    let mut opts = Options::empty();
    opts.insert(Options::ENABLE_TABLES);
    let parser = Parser::new_ext(md, opts);
    let mut evs = Vec::new();
    for ev in parser {
        match ev {
            Event::Start(tag) => match tag {
                Tag::Heading { .. } => evs.push(MarkupEvent::HeadingStart),
                Tag::Paragraph => evs.push(MarkupEvent::ParagraphStart),
                Tag::CodeBlock(_) => evs.push(MarkupEvent::CodeBlockStart),
                Tag::List(first) => evs.push(MarkupEvent::ListStart(first)),
                Tag::Item => evs.push(MarkupEvent::ItemStart),
                Tag::BlockQuote(_) => evs.push(MarkupEvent::BlockQuoteStart),
                Tag::Table(_) => evs.push(MarkupEvent::TableStart),
                Tag::TableHead => {
                    evs.push(MarkupEvent::TableHeadStart);
                    evs.push(MarkupEvent::TableRowStart);
                }
                Tag::TableRow => evs.push(MarkupEvent::TableRowStart),
                Tag::TableCell => evs.push(MarkupEvent::TableCellStart),
                Tag::Strong => evs.push(MarkupEvent::StrongStart),
                Tag::Emphasis => evs.push(MarkupEvent::EmphasisStart),
                _ => {}
            },
            Event::End(tag) => match tag {
                TagEnd::Heading(_) => evs.push(MarkupEvent::HeadingEnd),
                TagEnd::Paragraph => evs.push(MarkupEvent::ParagraphEnd),
                TagEnd::CodeBlock => evs.push(MarkupEvent::CodeBlockEnd),
                TagEnd::List(_) => evs.push(MarkupEvent::ListEnd),
                TagEnd::Item => evs.push(MarkupEvent::ItemEnd),
                TagEnd::BlockQuote(_) => evs.push(MarkupEvent::BlockQuoteEnd),
                TagEnd::Table => evs.push(MarkupEvent::TableEnd),
                TagEnd::TableHead => {
                    evs.push(MarkupEvent::TableRowEnd);
                    evs.push(MarkupEvent::TableHeadEnd);
                }
                TagEnd::TableRow => evs.push(MarkupEvent::TableRowEnd),
                TagEnd::TableCell => evs.push(MarkupEvent::TableCellEnd),
                TagEnd::Strong => evs.push(MarkupEvent::StrongEnd),
                TagEnd::Emphasis => evs.push(MarkupEvent::EmphasisEnd),
                _ => {}
            },
            Event::Rule => evs.push(MarkupEvent::Rule),
            Event::Code(t) => evs.push(MarkupEvent::Code(t.into_string())),
            Event::Text(t) => evs.push(MarkupEvent::Text(t.into_string())),
            Event::SoftBreak => evs.push(MarkupEvent::SoftBreak),
            Event::HardBreak => evs.push(MarkupEvent::HardBreak),
            _ => {}
        }
    }
    evs
}

fn doc_of(md: &str) -> Document {
    transduce(events_of(md))
}

#[test]
fn heading_and_styled_paragraph() {
    let doc = doc_of("# Title\n\nHello **world**");
    assert_eq!(doc.lines.len(), 4);
    // A bold heading line.
    assert_eq!(doc.lines[0].spans.len(), 1);
    assert_eq!(doc.lines[0].spans[0].text, "Title");
    assert_eq!(doc.lines[0].spans[0].style, TextStyle(BOLD | HEADING));
    // A blank line under it.
    assert_eq!(doc.lines[1].spans.len(), 0);
    // The paragraph: an unstyled fragment and a bold one.
    assert_eq!(doc.lines[2].spans.len(), 2);
    assert_eq!(doc.lines[2].spans[0].text, "Hello ");
    assert_eq!(doc.lines[2].spans[0].style, TextStyle(0));
    assert_eq!(doc.lines[2].spans[1].text, "world");
    assert_eq!(doc.lines[2].spans[1].style, TextStyle(BOLD));
    // The paragraph's closing blank line.
    assert_eq!(doc.lines[3].spans.len(), 0);
}

#[test]
fn unordered_list_items() {
    let doc = doc_of("- a\n- b");
    assert_eq!(doc.lines.len(), 3);
    assert_eq!(doc.lines[0].indent, 4);
    assert_eq!(doc.lines[0].spans[0].text, "\u{2022} ");
    assert_eq!(doc.lines[0].spans[1].text, "a");
    assert_eq!(doc.lines[1].indent, 4);
    assert_eq!(doc.lines[1].spans[0].text, "\u{2022} ");
    assert_eq!(doc.lines[1].spans[1].text, "b");
    assert_eq!(doc.lines[2].spans.len(), 0);
}

#[test]
fn ordered_list_markers() {
    let doc = doc_of("1. x\n2. y");
    assert_eq!(doc.lines[0].spans[0].text, "1. ");
    assert_eq!(doc.lines[0].spans[1].text, "x");
    assert_eq!(doc.lines[1].spans[0].text, "2. ");
    assert_eq!(doc.lines[1].spans[1].text, "y");
}

#[test]
fn ordered_list_respects_declared_start() {
    // The marker counts up from the list's declared starting value.
    let doc = doc_of("3. x\n4. y");
    assert_eq!(doc.lines[0].spans[0].text, "3. ");
    assert_eq!(doc.lines[1].spans[0].text, "4. ");
}

#[test]
fn table_columns_are_padded_to_the_widest_cell() {
    let doc = doc_of("| A | BB |\n|---|----|\n| C | D |");
    assert_eq!(doc.lines.len(), 4);
    // Header row: bold heading cells padded to widths 1 and 2.
    let header = &doc.lines[0];
    assert_eq!(header.spans.len(), 3);
    assert_eq!(header.spans[0].text, "A");
    assert_eq!(header.spans[0].style, TextStyle(BOLD | HEADING));
    assert_eq!(header.spans[1].text, "  ");
    assert_eq!(header.spans[1].style, TextStyle(0));
    assert_eq!(header.spans[2].text, "BB");
    assert_eq!(header.spans[2].style, TextStyle(BOLD | HEADING));
    // The dim dash separator of the same widths.
    let sep = &doc.lines[1];
    assert_eq!(sep.spans.len(), 3);
    assert_eq!(sep.spans[0].text, "\u{2500}");
    assert_eq!(sep.spans[0].style, TextStyle(DIM));
    assert_eq!(sep.spans[2].text, "\u{2500}\u{2500}");
    // The data row with matching padding.
    let data = &doc.lines[2];
    assert_eq!(data.spans.len(), 3);
    assert_eq!(data.spans[0].text, "C");
    assert_eq!(data.spans[0].style, TextStyle(0));
    assert_eq!(data.spans[2].text, "D ");
    // One closing blank line.
    assert_eq!(doc.lines[3].spans.len(), 0);
}

#[test]
fn table_widths_count_wide_characters() {
    let doc = doc_of("| h | x |\n|---|---|\n| \u{6c49}\u{5b57} | y |");
    // Column zero is four columns wide because of the CJK cell.
    assert_eq!(doc.lines[0].spans[0].text, "h   ");
    assert_eq!(doc.lines[1].spans[0].text, "\u{2500}\u{2500}\u{2500}\u{2500}");
    assert_eq!(doc.lines[2].spans[0].text, "\u{6c49}\u{5b57}");
}

#[test]
fn code_block_reconstructs_line_breaks() {
    let doc = doc_of("```\nab\ncd\n```\n");
    assert_eq!(doc.lines.len(), 5);
    // The empty current line flushed when the block opens.
    assert_eq!(doc.lines[0].spans.len(), 0);
    // The dim opening fence.
    assert_eq!(doc.lines[1].spans[0].text, "\u{2500}\u{2500}\u{2500}");
    assert_eq!(doc.lines[1].spans[0].style, TextStyle(DIM));
    // The code lines, styled as code.
    assert_eq!(doc.lines[2].spans[0].text, "ab");
    assert_eq!(doc.lines[2].spans[0].style, TextStyle(CODE));
    assert_eq!(doc.lines[3].spans[0].text, "cd");
    // The dim closing fence.
    assert_eq!(doc.lines[4].spans[0].text, "\u{2500}\u{2500}\u{2500}");
}

#[test]
fn block_quote_prefix_and_indent() {
    let doc = doc_of("> hi");
    assert_eq!(doc.lines[0].indent, 2);
    assert_eq!(doc.lines[0].spans[0].text, "\u{2502} ");
    assert_eq!(doc.lines[0].spans[0].style, TextStyle(QUOTE | DIM));
    assert_eq!(doc.lines[0].spans[1].text, "hi");
    assert_eq!(doc.lines[0].spans[1].style, TextStyle(QUOTE));
}

#[test]
fn inline_code_and_breaks() {
    let doc = doc_of("a `b` c");
    assert_eq!(doc.lines[0].spans[0].text, "a ");
    assert_eq!(doc.lines[0].spans[1].text, "b");
    assert_eq!(doc.lines[0].spans[1].style, TextStyle(CODE));
    assert_eq!(doc.lines[0].spans[2].text, " c");
}

#[test]
fn thematic_break_emits_dim_rule() {
    let doc = doc_of("a\n\n---\n\nb");
    let rule_line = doc
        .lines
        .iter()
        .find(|l| !l.spans.is_empty() && l.spans[0].style == TextStyle(DIM))
        .expect("a dim rule line");
    assert_eq!(rule_line.spans[0].text.chars().count(), 32);
    assert!(rule_line.spans[0].text.chars().all(|c| c == '\u{2500}'));
}

#[test]
fn empty_input_produces_empty_document() {
    let doc = doc_of("");
    assert_eq!(doc.lines.len(), 0);
}

#[test]
fn ragged_table_pads_missing_cells() {
    // A short row yields empty cells for its missing columns.
    let evs = vec![
        MarkupEvent::TableStart,
        MarkupEvent::TableRowStart,
        MarkupEvent::TableCellStart,
        MarkupEvent::Text("a".to_string()),
        MarkupEvent::TableCellEnd,
        MarkupEvent::TableCellStart,
        MarkupEvent::Text("bb".to_string()),
        MarkupEvent::TableCellEnd,
        MarkupEvent::TableRowEnd,
        MarkupEvent::TableRowStart,
        MarkupEvent::TableCellStart,
        MarkupEvent::Text("c".to_string()),
        MarkupEvent::TableCellEnd,
        MarkupEvent::TableRowEnd,
        MarkupEvent::TableEnd,
    ];
    let doc = transduce(evs);
    assert_eq!(doc.lines.len(), 4);
    assert_eq!(doc.lines[0].spans[0].text, "a");
    assert_eq!(doc.lines[0].spans[2].text, "bb");
    let data = &doc.lines[2];
    assert_eq!(data.spans[0].text, "c");
    assert_eq!(data.spans[2].text, "  ");
}

#[test]
fn pending_fragments_are_flushed_at_stream_end() {
    let doc = transduce(vec![MarkupEvent::Text("tail".to_string())]);
    assert_eq!(doc.lines.len(), 1);
    assert_eq!(doc.lines[0].spans[0].text, "tail");
}

#[test]
fn soft_break_becomes_a_space_and_hard_break_a_new_line() {
    let soft = doc_of("a\nb");
    assert_eq!(soft.lines[0].spans.len(), 3);
    assert_eq!(soft.lines[0].spans[1].text, " ");
    let hard = doc_of("a  \nb");
    assert_eq!(hard.lines[0].spans.len(), 1);
    assert_eq!(hard.lines[0].spans[0].text, "a");
    assert_eq!(hard.lines[1].spans[0].text, "b");
}

#[test]
fn nested_list_accumulates_until_inner_item_closes() {
    let doc = doc_of("- a\n  - b");
    // Both items' fragments gather on the current line until the inner item
    // closes, so one line carries both bullets at the inner indent; the
    // outer item then flushes an empty line at the outer indent, and only
    // the outermost list close appends the final blank line.
    assert_eq!(doc.lines.len(), 3);
    assert_eq!(doc.lines[0].indent, 8);
    assert_eq!(doc.lines[0].spans.len(), 4);
    assert_eq!(doc.lines[0].spans[0].text, "\u{2022} ");
    assert_eq!(doc.lines[0].spans[1].text, "a");
    assert_eq!(doc.lines[0].spans[2].text, "\u{2022} ");
    assert_eq!(doc.lines[0].spans[3].text, "b");
    assert_eq!(doc.lines[1].indent, 4);
    assert_eq!(doc.lines[1].spans.len(), 0);
    assert_eq!(doc.lines[2].indent, 0);
    assert_eq!(doc.lines[2].spans.len(), 0);
}
