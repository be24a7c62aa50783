use termview::magic::detect_by_magic;
use termview::magic::DetectedFormat;
use termview::magic::DocumentFormat;
use termview::magic::ImageFormat;

#[test]
fn test_png_detection() {
    let png_header = [0x89, 0x50, 0x4E, 0x47, 0x0D, 0x0A, 0x1A, 0x0A, 0x00, 0x00];
    assert_eq!(
        detect_by_magic(&png_header),
        Some(DetectedFormat::Image(ImageFormat::Png))
    );
}

#[test]
fn test_jpeg_detection() {
    let jpeg_header = [0xFF, 0xD8, 0xFF, 0xE0, 0x00, 0x10];
    assert_eq!(
        detect_by_magic(&jpeg_header),
        Some(DetectedFormat::Image(ImageFormat::Jpeg))
    );
}

#[test]
fn test_gif_detection() {
    let gif_header = b"GIF89a";
    assert_eq!(
        detect_by_magic(gif_header),
        Some(DetectedFormat::Image(ImageFormat::Gif))
    );
}

#[test]
fn test_bmp_detection() {
    let bmp_header = b"BM\x00\x00\x00\x00";
    assert_eq!(
        detect_by_magic(bmp_header),
        Some(DetectedFormat::Image(ImageFormat::Bmp))
    );
}

#[test]
fn test_webp_detection() {
    let webp_header = b"RIFF\x00\x00\x00\x00WEBP";
    assert_eq!(
        detect_by_magic(webp_header),
        Some(DetectedFormat::Image(ImageFormat::WebP))
    );
}

#[test]
fn test_tiff_le_detection() {
    let tiff_header = [0x49, 0x49, 0x2A, 0x00];
    assert_eq!(
        detect_by_magic(&tiff_header),
        Some(DetectedFormat::Image(ImageFormat::Tiff))
    );
}

#[test]
fn test_tiff_be_detection() {
    let tiff_header = [0x4D, 0x4D, 0x00, 0x2A];
    assert_eq!(
        detect_by_magic(&tiff_header),
        Some(DetectedFormat::Image(ImageFormat::Tiff))
    );
}

#[test]
fn test_ico_detection() {
    let ico_header = [0x00, 0x00, 0x01, 0x00, 0x01, 0x00];
    assert_eq!(
        detect_by_magic(&ico_header),
        Some(DetectedFormat::Image(ImageFormat::Ico))
    );
}

#[test]
fn test_pdf_detection() {
    let pdf_header = b"%PDF-1.4";
    assert_eq!(
        detect_by_magic(pdf_header),
        Some(DetectedFormat::Document(DocumentFormat::Pdf))
    );
}

#[test]
fn test_unknown_format() {
    let unknown = b"Hello, World!";
    assert_eq!(detect_by_magic(unknown), None);
}

#[test]
fn riff_without_webp_tag_is_unknown() {
    let riff_header = b"RIFF\x00\x00\x00\x00AVI ";
    assert_eq!(detect_by_magic(riff_header), None);
}

#[test]
fn short_buffer_is_unknown() {
    assert_eq!(detect_by_magic(&[0x89]), None);
    assert_eq!(detect_by_magic(&[]), None);
}
