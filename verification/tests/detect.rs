use termview::detect::detect_format;
use termview::detect::detect_format_by_extension;
use termview::detect::DocumentKind;
use termview::detect::FormatKind;
use termview::pdf::pages_to_document;

#[test]
fn extension_detection_is_case_insensitive() {
    assert_eq!(detect_format_by_extension("png"), Some(FormatKind::Image));
    assert_eq!(detect_format_by_extension("PNG"), Some(FormatKind::Image));
    assert_eq!(detect_format_by_extension("rs"), Some(FormatKind::Text));
    assert_eq!(
        detect_format_by_extension("md"),
        Some(FormatKind::Document(DocumentKind::Markdown))
    );
    assert_eq!(
        detect_format_by_extension("Markdown"),
        Some(FormatKind::Document(DocumentKind::Markdown))
    );
    assert_eq!(
        detect_format_by_extension("pdf"),
        Some(FormatKind::Document(DocumentKind::Pdf))
    );
    assert_eq!(detect_format_by_extension("xyz"), None);
}

#[test]
fn magic_bytes_win_over_extension() {
    let pdf_header = b"%PDF-1.7\n";
    assert_eq!(
        detect_format(pdf_header, Some("txt")),
        Some(FormatKind::Document(DocumentKind::Pdf))
    );
    let png_header = [0x89, 0x50, 0x4E, 0x47, 0x0D, 0x0A, 0x1A, 0x0A];
    assert_eq!(detect_format(&png_header, Some("txt")), Some(FormatKind::Image));
}

#[test]
fn unknown_content_falls_back_to_extension_then_text() {
    assert_eq!(
        detect_format(b"plain words", Some("md")),
        Some(FormatKind::Document(DocumentKind::Markdown))
    );
    assert_eq!(detect_format(b"plain words", Some("weird")), Some(FormatKind::Text));
    assert_eq!(detect_format(b"plain words", None), Some(FormatKind::Text));
}

#[test]
fn pages_become_lines_with_banners() {
    let pages = vec!["line1\nline2".to_string(), "page2".to_string()];
    let doc = pages_to_document(&pages);
    assert_eq!(doc.lines.len(), 6);
    assert_eq!(doc.lines[0].spans[0].text, "line1");
    assert_eq!(doc.lines[1].spans[0].text, "line2");
    assert_eq!(doc.lines[2].spans.len(), 0);
    assert_eq!(
        doc.lines[3].spans[0].text,
        "\u{2500}\u{2500} \u{7b2c} 2 \u{9875} \u{2500}\u{2500}"
    );
    assert_eq!(doc.lines[4].spans.len(), 0);
    assert_eq!(doc.lines[5].spans[0].text, "page2");
}

#[test]
fn page_lines_strip_carriage_returns_and_trailing_newline() {
    let pages = vec!["a\r\nb\n".to_string()];
    let doc = pages_to_document(&pages);
    assert_eq!(doc.lines.len(), 2);
    assert_eq!(doc.lines[0].spans[0].text, "a");
    assert_eq!(doc.lines[1].spans[0].text, "b");
}

#[test]
fn empty_pages_make_an_empty_document() {
    let pages: Vec<String> = vec![];
    let doc = pages_to_document(&pages);
    assert_eq!(doc.lines.len(), 0);
}
