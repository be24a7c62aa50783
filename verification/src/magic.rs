//! File-signature detection: classifies a byte buffer by the magic bytes at
//! its head, more reliable than going by the file name's extension.

use vstd::prelude::*;

verus! {

/// A format recognised from a file signature.
#[derive(Debug, Clone, Copy, PartialEq, Eq, Structural)]
pub enum DetectedFormat {
    Image(ImageFormat),
    Document(DocumentFormat),
}

/// The image formats with a recognised signature.
#[derive(Debug, Clone, Copy, PartialEq, Eq, Structural)]
pub enum ImageFormat {
    Png,
    Jpeg,
    Gif,
    Bmp,
    WebP,
    Tiff,
    Ico,
}

/// The document formats with a recognised signature.
#[derive(Debug, Clone, Copy, PartialEq, Eq, Structural)]
pub enum DocumentFormat {
    Pdf,
}

/// A file signature: magic bytes expected at a fixed offset, an optional
/// bit mask applied before comparing, and the format they identify.
#[derive(Debug)]
pub struct FileSignature {
    pub magic: Vec<u8>,
    pub offset: usize,
    pub mask: Option<Vec<u8>>,
    pub format: DetectedFormat,
}

/// A signature is well formed when a mask, if present, covers exactly the
/// magic bytes, and the checked range's end fits in a machine word.
pub open spec fn sig_wf(sig: &FileSignature) -> bool {
    &&& sig.offset + sig.magic@.len() <= usize::MAX
    &&& match sig.mask {
        Some(m) => m@.len() == sig.magic@.len(),
        None => true,
    }
}

/// `data` matches the signature: it is long enough, and the bytes at the
/// signature's offset equal the magic bytes (after masking, when a mask is
/// present).
pub open spec fn spec_matches(sig: &FileSignature, data: Seq<u8>) -> bool {
    let start = sig.offset as int;
    let end = sig.offset + sig.magic@.len();
    &&& data.len() >= end
    &&& match sig.mask {
        None => data.subrange(start, end as int) == sig.magic@,
        Some(m) => forall|i: int|
            0 <= i < sig.magic@.len() ==> (data[start + i] & m@[i]) == sig.magic@[i],
    }
}

impl FileSignature {
    /// Builds a signature compared byte for byte.
    pub fn exact(magic: Vec<u8>, offset: usize, format: DetectedFormat) -> (r: FileSignature)
        requires
            offset + magic@.len() <= usize::MAX,
        ensures
            r == (FileSignature { magic, offset, mask: None, format }),
            sig_wf(&r),
    {
        FileSignature { magic, offset, mask: None, format }
    }

    /// Builds a signature whose bytes are compared after a bitwise AND with
    /// the mask.
    pub fn with_mask(magic: Vec<u8>, offset: usize, mask: Vec<u8>, format: DetectedFormat) -> (r:
        FileSignature)
        requires
            offset + magic@.len() <= usize::MAX,
            mask@.len() == magic@.len(),
        ensures
            r == (FileSignature { magic, offset, mask: Some(mask), format }),
            sig_wf(&r),
    {
        FileSignature { magic, offset, mask: Some(mask), format }
    }

    /// Tests whether `data` matches this signature.
    pub fn matches(&self, data: &[u8]) -> (r: bool)
        requires
            sig_wf(self),
        ensures
            r == spec_matches(self, data@),
    {
        let start = self.offset;
        let end = start + self.magic.len();
        if data.len() < end {
            return false;
        }
        match &self.mask {
            Some(mask) => {
                let mut i: usize = 0;
                while i < self.magic.len()
                    invariant
                        sig_wf(self),
                        self.mask == Some(*mask),
                        start == self.offset,
                        i <= self.magic@.len(),
                        data@.len() >= start + self.magic@.len(),
                        forall|j: int|
                            0 <= j < i ==> (data@[start + j] & mask@[j]) == self.magic@[j],
                    decreases self.magic@.len() - i,
                {
                    if (data[start + i] & mask[i]) != self.magic[i] {
                        return false;
                    }
                    i = i + 1;
                }
                true
            },
            None => {
                let mut i: usize = 0;
                while i < self.magic.len()
                    invariant
                        sig_wf(self),
                        self.mask is None,
                        start == self.offset,
                        end == start + self.magic@.len(),
                        i <= self.magic@.len(),
                        data@.len() >= start + self.magic@.len(),
                        forall|j: int| 0 <= j < i ==> data@[start + j] == self.magic@[j],
                    decreases self.magic@.len() - i,
                {
                    if data[start + i] != self.magic[i] {
                        proof {
                            let ii = i as int;
                            assert(data@.subrange(start as int, end as int)[ii] != self.magic@[ii]);
                        }
                        return false;
                    }
                    i = i + 1;
                }
                proof {
                    assert(data@.subrange(start as int, end as int) =~= self.magic@);
                }
                true
            },
        }
    }
}

/// The PNG signature.
pub open spec fn png_magic() -> Seq<u8> {
    seq![0x89u8, 0x50u8, 0x4eu8, 0x47u8, 0x0du8, 0x0au8, 0x1au8, 0x0au8]
}

/// The JPEG signature.
pub open spec fn jpeg_magic() -> Seq<u8> {
    seq![0xffu8, 0xd8u8, 0xffu8]
}

/// The GIF signature, `GIF8`.
pub open spec fn gif_magic() -> Seq<u8> {
    seq![0x47u8, 0x49u8, 0x46u8, 0x38u8]
}

/// The BMP signature, `BM`.
pub open spec fn bmp_magic() -> Seq<u8> {
    seq![0x42u8, 0x4du8]
}

/// The RIFF container signature, `RIFF`.
pub open spec fn riff_magic() -> Seq<u8> {
    seq![0x52u8, 0x49u8, 0x46u8, 0x46u8]
}

/// The WebP tag, `WEBP`, expected at offset 8 of a RIFF container.
pub open spec fn webp_tag() -> Seq<u8> {
    seq![0x57u8, 0x45u8, 0x42u8, 0x50u8]
}

/// The little-endian TIFF signature.
pub open spec fn tiff_le_magic() -> Seq<u8> {
    seq![0x49u8, 0x49u8, 0x2au8, 0x00u8]
}

/// The big-endian TIFF signature.
pub open spec fn tiff_be_magic() -> Seq<u8> {
    seq![0x4du8, 0x4du8, 0x00u8, 0x2au8]
}

/// The ICO signature.
pub open spec fn ico_magic() -> Seq<u8> {
    seq![0x00u8, 0x00u8, 0x01u8, 0x00u8]
}

/// The PDF signature, `%PDF`.
pub open spec fn pdf_magic() -> Seq<u8> {
    seq![0x25u8, 0x50u8, 0x44u8, 0x46u8]
}

/// `data` begins with `prefix`.
pub open spec fn starts_with(data: Seq<u8>, prefix: Seq<u8>) -> bool {
    data.len() >= prefix.len() && data.subrange(0, prefix.len() as int) == prefix
}

/// The format identified by the head of `data`: the signatures are tried in
/// a fixed order, and a RIFF container counts as WebP only when the `WEBP`
/// tag follows at offset 8.
pub open spec fn spec_detect_by_magic(data: Seq<u8>) -> Option<DetectedFormat> {
    if starts_with(data, png_magic()) {
        Some(DetectedFormat::Image(ImageFormat::Png))
    } else if starts_with(data, jpeg_magic()) {
        Some(DetectedFormat::Image(ImageFormat::Jpeg))
    } else if starts_with(data, gif_magic()) {
        Some(DetectedFormat::Image(ImageFormat::Gif))
    } else if starts_with(data, bmp_magic()) {
        Some(DetectedFormat::Image(ImageFormat::Bmp))
    } else if starts_with(data, riff_magic()) && data.len() >= 12 && data.subrange(8, 12)
        == webp_tag() {
        Some(DetectedFormat::Image(ImageFormat::WebP))
    } else if starts_with(data, tiff_le_magic()) {
        Some(DetectedFormat::Image(ImageFormat::Tiff))
    } else if starts_with(data, tiff_be_magic()) {
        Some(DetectedFormat::Image(ImageFormat::Tiff))
    } else if starts_with(data, ico_magic()) {
        Some(DetectedFormat::Image(ImageFormat::Ico))
    } else if starts_with(data, pdf_magic()) {
        Some(DetectedFormat::Document(DocumentFormat::Pdf))
    } else {
        None
    }
}

/// Classifies `data` by the magic bytes at its head; `None` when no known
/// signature matches.
pub fn detect_by_magic(data: &[u8]) -> (r: Option<DetectedFormat>)
    ensures
        r == spec_detect_by_magic(data@),
{
    let png = FileSignature::exact(
        vec![0x89u8, 0x50u8, 0x4eu8, 0x47u8, 0x0du8, 0x0au8, 0x1au8, 0x0au8],
        0,
        DetectedFormat::Image(ImageFormat::Png),
    );
    if png.matches(data) {
        return Some(png.format);
    }
    let jpeg = FileSignature::exact(
        vec![0xffu8, 0xd8u8, 0xffu8],
        0,
        DetectedFormat::Image(ImageFormat::Jpeg),
    );
    if jpeg.matches(data) {
        return Some(jpeg.format);
    }
    let gif = FileSignature::exact(
        vec![0x47u8, 0x49u8, 0x46u8, 0x38u8],
        0,
        DetectedFormat::Image(ImageFormat::Gif),
    );
    if gif.matches(data) {
        return Some(gif.format);
    }
    let bmp = FileSignature::exact(
        vec![0x42u8, 0x4du8],
        0,
        DetectedFormat::Image(ImageFormat::Bmp),
    );
    if bmp.matches(data) {
        return Some(bmp.format);
    }
    let riff = FileSignature::exact(
        vec![0x52u8, 0x49u8, 0x46u8, 0x46u8],
        0,
        DetectedFormat::Image(ImageFormat::WebP),
    );
    if riff.matches(data) {
        if data.len() >= 12 && data[8] == 0x57 && data[9] == 0x45 && data[10] == 0x42 && data[11]
            == 0x50 {
            proof {
                assert(data@.subrange(8, 12) =~= webp_tag());
            }
            return Some(riff.format);
        }
        proof {
            if data@.len() >= 12 && data@.subrange(8, 12) == webp_tag() {
                assert(data@[8] == data@.subrange(8, 12)[0]);
                assert(data@[9] == data@.subrange(8, 12)[1]);
                assert(data@[10] == data@.subrange(8, 12)[2]);
                assert(data@[11] == data@.subrange(8, 12)[3]);
            }
        }
    }
    let tiff_le = FileSignature::exact(
        vec![0x49u8, 0x49u8, 0x2au8, 0x00u8],
        0,
        DetectedFormat::Image(ImageFormat::Tiff),
    );
    if tiff_le.matches(data) {
        return Some(tiff_le.format);
    }
    let tiff_be = FileSignature::exact(
        vec![0x4du8, 0x4du8, 0x00u8, 0x2au8],
        0,
        DetectedFormat::Image(ImageFormat::Tiff),
    );
    if tiff_be.matches(data) {
        return Some(tiff_be.format);
    }
    let ico = FileSignature::exact(
        vec![0x00u8, 0x00u8, 0x01u8, 0x00u8],
        0,
        DetectedFormat::Image(ImageFormat::Ico),
    );
    if ico.matches(data) {
        return Some(ico.format);
    }
    let pdf = FileSignature::exact(
        vec![0x25u8, 0x50u8, 0x44u8, 0x46u8],
        0,
        DetectedFormat::Document(DocumentFormat::Pdf),
    );
    if pdf.matches(data) {
        return Some(pdf.format);
    }
    None
}

} // verus!
