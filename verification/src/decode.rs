//! Image decoding: turning an encoded byte blob into pixel data. The
//! codecs themselves live in an outside crate; their outcome is named, and
//! everything around the call — including format detection from the byte
//! content — is verified.

use vstd::prelude::*;

use crate::document::ImageFormat;

verus! {

/// A fully decoded image: its dimensions and raw pixel bytes.
#[derive(Clone, Debug, PartialEq, Eq)]
pub struct DecodedImage {
    /// Width in pixels.
    pub width: u32,
    /// Height in pixels.
    pub height: u32,
    /// The raw pixel bytes of the decoded image.
    pub pixels: Vec<u8>,
}

/// What decoding the given bytes under the given declared format yields:
/// `None` when the codec rejects the bytes, otherwise width, height and
/// pixel bytes. The outcome is a function of the arguments alone.
pub uninterp spec fn decoded_with(bytes: Seq<u8>, format: ImageFormat) -> Option<(u32, u32, Seq<u8>)>;

/// The signature that opens every PNG stream.
pub open spec fn png_signature() -> Seq<u8> {
    seq![0x89u8, 0x50u8, 0x4eu8, 0x47u8, 0x0du8, 0x0au8, 0x1au8, 0x0au8]
}

/// The start-of-image marker that opens every JPEG stream.
pub open spec fn jpeg_signature() -> Seq<u8> {
    seq![0xffu8, 0xd8u8, 0xffu8]
}

/// The format the byte content itself announces, among the formats this
/// importer decodes: an exact prefix comparison against each signature.
pub open spec fn spec_detect_format(bytes: Seq<u8>) -> Option<ImageFormat> {
    if bytes.len() >= 8 && bytes.subrange(0, 8) == png_signature() {
        Some(ImageFormat::Png)
    } else if bytes.len() >= 3 && bytes.subrange(0, 3) == jpeg_signature() {
        Some(ImageFormat::Jpeg)
    } else {
        None
    }
}

/// The decode outcome for bytes with an optional declared format: the
/// declared format is used when present; otherwise the format is read
/// from the byte content's own signature, and bytes announcing no
/// supported format decode to nothing.
pub open spec fn spec_decoded(bytes: Seq<u8>, format: Option<ImageFormat>) -> Option<
    (u32, u32, Seq<u8>),
> {
    match format {
        Some(f) => decoded_with(bytes, f),
        None => match spec_detect_format(bytes) {
            Some(f) => decoded_with(bytes, f),
            None => None,
        },
    }
}

/// Detect the format the byte content announces.
pub fn detect_format(data: &[u8]) -> (r: Option<ImageFormat>)
    ensures
        r == spec_detect_format(data@),
{
    if data.len() >= 8 && data[0] == 0x89 && data[1] == 0x50 && data[2] == 0x4e && data[3] == 0x47
        && data[4] == 0x0d && data[5] == 0x0a && data[6] == 0x1a && data[7] == 0x0a {
        proof {
            assert(data@.subrange(0, 8) =~= png_signature());
        }
        Some(ImageFormat::Png)
    } else if data.len() >= 3 && data[0] == 0xff && data[1] == 0xd8 && data[2] == 0xff {
        proof {
            if data@.len() >= 8 && data@.subrange(0, 8) == png_signature() {
                assert(data@[0] == png_signature()[0]);
            }
            assert(data@.subrange(0, 3) =~= jpeg_signature());
        }
        Some(ImageFormat::Jpeg)
    } else {
        proof {
            if data@.len() >= 8 && data@.subrange(0, 8) == png_signature() {
                assert(data@[0] == png_signature()[0]);
                assert(data@[1] == png_signature()[1]);
                assert(data@[2] == png_signature()[2]);
                assert(data@[3] == png_signature()[3]);
                assert(data@[4] == png_signature()[4]);
                assert(data@[5] == png_signature()[5]);
                assert(data@[6] == png_signature()[6]);
                assert(data@[7] == png_signature()[7]);
            }
            if data@.len() >= 3 && data@.subrange(0, 3) == jpeg_signature() {
                assert(data@[0] == jpeg_signature()[0]);
                assert(data@[1] == jpeg_signature()[1]);
                assert(data@[2] == jpeg_signature()[2]);
            }
        }
        None
    }
}

/// Relies on `image::load_from_memory_with_format`: with the format fixed
/// by the caller, decoding is a pure function of the byte content and the
/// format, yielding a pixel buffer with the image's dimensions, or the
/// codec's diagnostic.
#[verifier::external_body]
fn load_with_format(data: &[u8], format: ImageFormat) -> (r: Result<DecodedImage, String>)
    ensures
        match decoded_with(data@, format) {
            Some(t) => r matches Ok(img) && img.width == t.0 && img.height == t.1 && img.pixels@
                == t.2,
            None => r is Err,
        },
{
    let f = match format {
        ImageFormat::Jpeg => image::ImageFormat::Jpeg,
        ImageFormat::Png => image::ImageFormat::Png,
    };
    match image::load_from_memory_with_format(data, f) {
        Ok(img) => {
            let width = img.width();
            let height = img.height();
            Ok(DecodedImage { width, height, pixels: img.into_bytes() })
        },
        Err(e) => Err(format!("{}", e)),
    }
}

/// Decode one encoded image: with the declared format when there is one,
/// otherwise with the format the byte content itself announces. Succeeds
/// exactly when a format is found and its codec accepts the bytes, and
/// then returns exactly the decoded dimensions and pixels.
pub fn decode_image(data: &[u8], format: Option<ImageFormat>) -> (r: Result<DecodedImage, String>)
    ensures
        r is Ok <==> spec_decoded(data@, format) is Some,
        r matches Ok(img) ==> (spec_decoded(data@, format) matches Some(t) && img.width == t.0
            && img.height == t.1 && img.pixels@ == t.2),
{
    let chosen = match format {
        Some(f) => Some(f),
        None => detect_format(data),
    };
    match chosen {
        Some(f) => load_with_format(data, f),
        None => Err("the bytes announce no format this importer decodes".to_owned()),
    }
}

} // verus!
