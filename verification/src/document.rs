//! The parsed form of the asset's JSON document, reduced to the fields this
//! importer inspects: buffer entries, buffer views and image entries.

use vstd::prelude::*;
use vstd::slice::slice_subrange;
use vstd::string::StringSliceAdditionalSpecFns;

verus! {

/// The declared MIME type of an image entry.
#[derive(Clone, Copy, Debug, PartialEq, Eq, Structural)]
pub enum MimeType {
    /// `image/jpeg`
    Jpeg,
    /// `image/png`
    Png,
    /// A declared type this importer cannot decode.
    Other,
}

/// A concrete format used to decode image bytes.
#[derive(Clone, Copy, Debug, PartialEq, Eq, Structural)]
pub enum ImageFormat {
    Jpeg,
    Png,
}

impl MimeType {
    /// The decodable format a MIME type names, if any.
    pub open spec fn spec_format(self) -> Option<ImageFormat> {
        match self {
            MimeType::Jpeg => Some(ImageFormat::Jpeg),
            MimeType::Png => Some(ImageFormat::Png),
            MimeType::Other => None,
        }
    }

    /// Executable counterpart of [`Self::spec_format`].
    pub fn format(&self) -> (r: Option<ImageFormat>)
        ensures
            r == self.spec_format(),
    {
        match self {
            MimeType::Jpeg => Some(ImageFormat::Jpeg),
            MimeType::Png => Some(ImageFormat::Png),
            MimeType::Other => None,
        }
    }
}

/// A buffer entry: a named block of raw bytes that other parts of the
/// document slice into.
#[derive(Clone, Debug, PartialEq, Eq)]
pub struct Buffer {
    /// Where the bytes live. An absent URI means the bytes are embedded in
    /// the binary container rather than fetched separately.
    pub uri: Option<String>,
    /// The declared length of the buffer in bytes.
    pub byte_length: usize,
}

/// A declared sub-range of a buffer.
#[derive(Clone, Copy, Debug, PartialEq, Eq, Structural)]
pub struct BufferView {
    /// Index of the buffer the view slices into.
    pub buffer: usize,
    /// Byte offset where the viewed range begins.
    pub byte_offset: usize,
    /// Length of the viewed range in bytes.
    pub byte_length: usize,
}

/// An image entry. Its pixel data comes either from its own URI ("owned")
/// or from a buffer view ("borrowed"), never from both and never from
/// neither in a valid document.
#[derive(Clone, Debug, PartialEq, Eq)]
pub struct Image {
    /// External location of the encoded image data, if it has one.
    pub uri: Option<String>,
    /// The declared MIME type of the encoded data, if declared.
    pub mime_type: Option<MimeType>,
    /// Index of the buffer view holding the encoded data, for borrowed images.
    pub buffer_view: Option<usize>,
}

/// The parsed JSON document, reduced to what the import pipeline inspects.
#[derive(Clone, Debug, PartialEq, Eq)]
pub struct Document {
    /// The declared (major, minor) schema version, when the document has one.
    pub asset_version: Option<(u32, u32)>,
    /// The buffer entries, in document order.
    pub buffers: Vec<Buffer>,
    /// The buffer views, in document order.
    pub buffer_views: Vec<BufferView>,
    /// The image entries, in document order.
    pub images: Vec<Image>,
}

/// The UTF-8 bytes of `image/jpeg`.
pub open spec fn jpeg_mime_bytes() -> Seq<u8> {
    seq![
        0x69u8,
        0x6du8,
        0x61u8,
        0x67u8,
        0x65u8,
        0x2fu8,
        0x6au8,
        0x70u8,
        0x65u8,
        0x67u8,
    ]
}

/// The UTF-8 bytes of `image/png`.
pub open spec fn png_mime_bytes() -> Seq<u8> {
    seq![0x69u8, 0x6du8, 0x61u8, 0x67u8, 0x65u8, 0x2fu8, 0x70u8, 0x6eu8, 0x67u8]
}

/// The MIME type a declared type name (as UTF-8 bytes) classifies as.
pub open spec fn spec_mime_of(name: Seq<u8>) -> MimeType {
    if name == jpeg_mime_bytes() {
        MimeType::Jpeg
    } else if name == png_mime_bytes() {
        MimeType::Png
    } else {
        MimeType::Other
    }
}

impl MimeType {
    /// Classify a declared MIME type name: the two decodable types by
    /// exact comparison, everything else as undecodable.
    pub fn from_name(name: &str) -> (r: MimeType)
        ensures
            r == spec_mime_of(name.spec_bytes()),
    {
        let b = name.as_bytes();
        if b.len() == 10 && b[0] == 0x69 && b[1] == 0x6d && b[2] == 0x61 && b[3] == 0x67 && b[4]
            == 0x65 && b[5] == 0x2f && b[6] == 0x6a && b[7] == 0x70 && b[8] == 0x65 && b[9]
            == 0x67 {
            proof {
                assert(b@ =~= jpeg_mime_bytes());
            }
            MimeType::Jpeg
        } else if b.len() == 9 && b[0] == 0x69 && b[1] == 0x6d && b[2] == 0x61 && b[3] == 0x67
            && b[4] == 0x65 && b[5] == 0x2f && b[6] == 0x70 && b[7] == 0x6e && b[8] == 0x67 {
            proof {
                assert(b@ =~= png_mime_bytes());
            }
            MimeType::Png
        } else {
            proof {
                if b@ == jpeg_mime_bytes() {
                    assert(b@[0] == 0x69 && b@[1] == 0x6d && b@[2] == 0x61 && b@[3] == 0x67
                        && b@[4] == 0x65 && b@[5] == 0x2f && b@[6] == 0x6a && b@[7] == 0x70
                        && b@[8] == 0x65 && b@[9] == 0x67);
                }
                if b@ == png_mime_bytes() {
                    assert(b@[0] == 0x69 && b@[1] == 0x6d && b@[2] == 0x61 && b@[3] == 0x67
                        && b@[4] == 0x65 && b@[5] == 0x2f && b@[6] == 0x70 && b@[7] == 0x6e
                        && b@[8] == 0x67);
                }
            }
            MimeType::Other
        }
    }
}

/// Whether the byte is an ASCII decimal digit.
pub open spec fn is_digit(c: u8) -> bool {
    0x30 <= c <= 0x39
}

/// Whether every byte is an ASCII decimal digit.
pub open spec fn all_digits(s: Seq<u8>) -> bool {
    forall|i: int| 0 <= i < s.len() ==> is_digit(#[trigger] s[i])
}

/// The number the digit bytes spell, most significant first.
pub open spec fn digits_value(s: Seq<u8>) -> int
    decreases s.len(),
{
    if s.len() == 0 {
        0
    } else {
        digits_value(s.drop_last()) * 10 + (s.last() - 0x30)
    }
}

/// What parsing the bytes as an unsigned 32-bit decimal yields: a value
/// exactly when the bytes are one or more digits spelling a number in
/// range.
pub open spec fn spec_parse_u32(s: Seq<u8>) -> Option<u32> {
    if s.len() > 0 && all_digits(s) && digits_value(s) <= u32::MAX {
        Some(digits_value(s) as u32)
    } else {
        None
    }
}

proof fn lemma_digits_value_nonneg(s: Seq<u8>)
    requires
        all_digits(s),
    ensures
        digits_value(s) >= 0,
    decreases s.len(),
{
    if s.len() > 0 {
        assert(all_digits(s.drop_last()));
        lemma_digits_value_nonneg(s.drop_last());
    }
}

proof fn lemma_digits_prefix_le(s: Seq<u8>, n: int)
    requires
        all_digits(s),
        0 <= n <= s.len(),
    ensures
        digits_value(s.subrange(0, n)) <= digits_value(s),
    decreases s.len() - n,
{
    if n == s.len() {
        assert(s.subrange(0, n) =~= s);
    } else {
        lemma_digits_prefix_le(s, n + 1);
        let pre = s.subrange(0, n);
        let ext = s.subrange(0, n + 1);
        assert(ext.drop_last() =~= pre);
        assert(all_digits(pre));
        lemma_digits_value_nonneg(pre);
        assert(digits_value(ext) == digits_value(pre) * 10 + (s[n] - 0x30));
    }
}

/// Parse an unsigned 32-bit decimal from bytes: exactly the digit strings
/// whose value fits.
pub fn parse_u32_bytes(b: &[u8]) -> (r: Option<u32>)
    ensures
        r == spec_parse_u32(b@),
{
    if b.len() == 0 {
        return None;
    }
    let mut acc: u32 = 0;
    let mut i: usize = 0;
    while i < b.len()
        invariant
            0 < b@.len(),
            i <= b@.len(),
            forall|k: int| 0 <= k < i ==> is_digit(#[trigger] b@[k]),
            acc == digits_value(b@.subrange(0, i as int)),
        decreases b@.len() - i,
    {
        let c = b[i];
        if c < 0x30 || c > 0x39 {
            return None;
        }
        let d = (c - 0x30) as u32;
        let ghost pre = b@.subrange(0, i as int);
        let ghost ext = b@.subrange(0, i as int + 1);
        proof {
            assert(ext.drop_last() =~= pre);
            assert(digits_value(ext) == digits_value(pre) * 10 + (b@[i as int] - 0x30));
        }
        if acc > (u32::MAX - d) / 10 {
            proof {
                if all_digits(b@) {
                    lemma_digits_prefix_le(b@, i as int + 1);
                }
            }
            return None;
        }
        acc = acc * 10 + d;
        i += 1;
    }
    proof {
        assert(b@.subrange(0, b@.len() as int) =~= b@);
    }
    Some(acc)
}

/// The position of the first `.` in the bytes.
pub open spec fn first_dot(s: Seq<u8>) -> int
    decreases s.len(),
{
    if s.len() == 0 {
        0
    } else if s[0] == 0x2eu8 {
        0
    } else {
        1 + first_dot(s.drop_first())
    }
}

proof fn lemma_first_dot_works(s: Seq<u8>)
    requires
        s.contains(0x2eu8),
    ensures
        0 <= first_dot(s) < s.len(),
        s[first_dot(s)] == 0x2eu8,
        forall|k: int| 0 <= k < first_dot(s) ==> s[k] != 0x2eu8,
    decreases s.len(),
{
    if s[0] == 0x2eu8 {
    } else {
        let t = s.drop_first();
        let i = choose|i: int| 0 <= i < s.len() && s[i] == 0x2eu8;
        assert(t[i - 1] == 0x2eu8);
        assert(t.contains(0x2eu8));
        lemma_first_dot_works(t);
        assert forall|k: int| 0 <= k < first_dot(s) implies s[k] != 0x2eu8 by {
            if k > 0 {
                assert(t[k - 1] == s[k]);
            }
        }
    }
}

/// What parsing a declared version string (as UTF-8 bytes) yields: the
/// numbers on either side of the first `.`, or a lone major number with
/// minor zero; anything else is no version.
pub open spec fn spec_parse_version(s: Seq<u8>) -> Option<(u32, u32)> {
    if s.contains(0x2eu8) {
        let i = first_dot(s);
        match (spec_parse_u32(s.subrange(0, i)), spec_parse_u32(s.subrange(i + 1, s.len() as int))) {
            (Some(major), Some(minor)) => Some((major, minor)),
            _ => None,
        }
    } else {
        match spec_parse_u32(s) {
            Some(major) => Some((major, 0)),
            None => None,
        }
    }
}

/// Parse a declared version string into its (major, minor) numbers.
pub fn parse_version(v: &str) -> (r: Option<(u32, u32)>)
    ensures
        r == spec_parse_version(v.spec_bytes()),
{
    let b = v.as_bytes();
    let mut i: usize = 0;
    while i < b.len()
        invariant
            b@ == v.spec_bytes(),
            i <= b@.len(),
            forall|k: int| 0 <= k < i ==> b@[k] != 0x2eu8,
        decreases b@.len() - i,
    {
        if b[i] == 0x2e {
            proof {
                assert(b@[i as int] == 0x2eu8);
                assert(b@.contains(0x2eu8));
                lemma_first_dot_works(b@);
                let fd = first_dot(b@);
                if fd < i {
                    assert(b@[fd] != 0x2eu8);
                }
                if fd > i {
                    assert(b@[i as int] != 0x2eu8);
                }
                assert(fd == i);
            }
            let major = parse_u32_bytes(slice_subrange(b, 0, i));
            let minor = parse_u32_bytes(slice_subrange(b, i + 1, b.len()));
            return match (major, minor) {
                (Some(major), Some(minor)) => Some((major, minor)),
                _ => None,
            };
        }
        i += 1;
    }
    proof {
        if b@.contains(0x2eu8) {
            let k = choose|k: int| 0 <= k < b@.len() && b@[k] == 0x2eu8;
            assert(b@[k] != 0x2eu8);
        }
    }
    match parse_u32_bytes(b) {
        Some(major) => Some((major, 0)),
        None => None,
    }
}

} // verus!
