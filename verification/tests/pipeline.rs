use std::cell::RefCell;
use std::io::Cursor;

use gltf_importer::config::Config;
use gltf_importer::config::ValidationStrategy;
use gltf_importer::decode::decode_image;
use gltf_importer::document::Buffer;
use gltf_importer::document::BufferView;
use gltf_importer::document::Document;
use gltf_importer::document::Image;
use gltf_importer::document::ImageFormat as LibFormat;
use gltf_importer::document::MimeType;
use gltf_importer::error::Error;
use gltf_importer::error::JsonError;
use gltf_importer::import::import;
use gltf_importer::import::Source;
use gltf_importer::validation::validate_complete;
use gltf_importer::validation::validate_minimal;
use gltf_importer::dispatch::dispatch;
use gltf_importer::document::parse_version;
use gltf_importer::dispatch::DocumentKind;
use gltf_importer::validation::Field;
use gltf_importer::validation::PathSeg;
use gltf_importer::validation::ValidationErrorKind;

/// A source backed by an in-memory table, logging every external fetch.
struct MapSource {
    root: Result<Vec<u8>, String>,
    entries: Vec<(String, Result<Vec<u8>, String>)>,
    log: RefCell<Vec<String>>,
}

impl MapSource {
    fn new(entries: Vec<(String, Result<Vec<u8>, String>)>) -> MapSource {
        MapSource { root: Err("no root".to_string()), entries, log: RefCell::new(Vec::new()) }
    }
}

impl Source for MapSource {
    type Error = String;

    fn source_gltf(&self) -> Result<Vec<u8>, String> {
        self.root.clone()
    }

    fn source_external_data(&self, uri: &str) -> Result<Vec<u8>, String> {
        self.log.borrow_mut().push(uri.to_string());
        for (k, v) in &self.entries {
            if k == uri {
                return v.clone();
            }
        }
        Err(format!("no entry for {}", uri))
    }
}

fn config(strategy: ValidationStrategy) -> Config {
    Config { validation_strategy: strategy }
}

fn empty_document() -> Document {
    Document {
        asset_version: Some((2, 0)),
        buffers: Vec::new(),
        buffer_views: Vec::new(),
        images: Vec::new(),
    }
}

/// A tiny valid PNG, produced by the same codec the importer decodes with.
fn tiny_png() -> Vec<u8> {
    let img = image::RgbaImage::new(2, 2);
    let mut bytes: Vec<u8> = Vec::new();
    image::DynamicImage::ImageRgba8(img)
        .write_to(&mut Cursor::new(&mut bytes), image::ImageFormat::Png)
        .unwrap();
    bytes
}

#[test]
fn empty_document_skip_succeeds_without_fetches() {
    let source = MapSource::new(Vec::new());
    let out = import(Ok(empty_document()), None, &source, &config(ValidationStrategy::Skip))
        .unwrap();
    assert_eq!(out.buffers.len(), 0);
    assert_eq!(out.images.len(), 0);
    assert_eq!(out.root.buffers.len(), 0);
    assert_eq!(source.log.borrow().len(), 0);
}

#[test]
fn skip_ignores_violations_that_complete_rejects() {
    let mut doc = empty_document();
    doc.asset_version = None;
    let source = MapSource::new(Vec::new());
    let r = import(Ok(doc), None, &source, &config(ValidationStrategy::Skip));
    assert!(r.is_ok());
}

#[test]
fn violations_fail_minimal_and_complete_with_full_list() {
    let mut doc = empty_document();
    // One image with no data source at all, and one buffer view whose
    // buffer index is out of range: two distinct violations.
    doc.images.push(Image { uri: None, mime_type: None, buffer_view: None });
    doc.buffer_views.push(BufferView { buffer: 3, byte_offset: 0, byte_length: 1 });
    let minimal = validate_minimal(&doc);
    let complete = validate_complete(&doc);
    assert_eq!(minimal.len(), 2);
    assert!(complete.len() >= 2);
    // Buffer views are walked first, then images.
    assert_eq!(
        minimal[0].0.segs,
        vec![PathSeg::Name(Field::BufferViews), PathSeg::Index(0), PathSeg::Name(Field::Buffer)]
    );
    assert_eq!(minimal[0].1, ValidationErrorKind::IndexOutOfBounds);
    assert_eq!(minimal[1].0.segs, vec![PathSeg::Name(Field::Images), PathSeg::Index(0)]);
    assert_eq!(minimal[1].1, ValidationErrorKind::Missing);
    // The complete list repeats the minimal list as its prefix.
    assert_eq!(complete[0].0.segs, minimal[0].0.segs);
    assert_eq!(complete[1].0.segs, minimal[1].0.segs);

    let source = MapSource::new(Vec::new());
    let r = import(Ok(doc.clone()), None, &source, &config(ValidationStrategy::Minimal));
    match r {
        Err(Error::Validation(list)) => assert_eq!(list.len(), 2),
        other => panic!("expected a validation failure, got {:?}", other.is_ok()),
    }
    let r = import(Ok(doc), None, &source, &config(ValidationStrategy::Complete));
    match r {
        Err(Error::Validation(list)) => assert_eq!(list.len(), 2),
        other => panic!("expected a validation failure, got {:?}", other.is_ok()),
    }
}

#[test]
fn dispatch_depends_only_on_first_four_bytes() {
    assert_eq!(dispatch(b"glTF anything at all"), DocumentKind::Binary);
    assert_eq!(dispatch(b"glTF"), DocumentKind::Binary);
    assert_eq!(dispatch(b"glT"), DocumentKind::Standard);
    assert_eq!(dispatch(b"{ \"asset\": {} }"), DocumentKind::Standard);
    assert_eq!(dispatch(b"GLTF rest"), DocumentKind::Standard);
}

#[test]
fn shared_buffer_is_fetched_once_and_both_images_decode() {
    let png = tiny_png();
    let len = png.len();
    let mut doc = empty_document();
    doc.buffers.push(Buffer { uri: Some("a.bin".to_string()), byte_length: len });
    doc.buffer_views.push(BufferView { buffer: 0, byte_offset: 0, byte_length: len });
    doc.buffer_views.push(BufferView { buffer: 0, byte_offset: 0, byte_length: len });
    doc.images.push(Image { uri: None, mime_type: Some(MimeType::Png), buffer_view: Some(0) });
    doc.images.push(Image { uri: None, mime_type: Some(MimeType::Png), buffer_view: Some(1) });
    let source = MapSource::new(vec![("a.bin".to_string(), Ok(png.clone()))]);
    let out = import(Ok(doc), None, &source, &config(ValidationStrategy::Minimal)).unwrap();
    assert_eq!(source.log.borrow().clone(), vec!["a.bin".to_string()]);
    assert_eq!(out.buffers.len(), 1);
    assert_eq!(out.buffers[0], png);
    assert_eq!(out.images.len(), 2);
    assert_eq!(out.images[0], out.images[1]);
    assert_eq!(out.images[0].width, 2);
    assert_eq!(out.images[0].height, 2);
}

#[test]
fn borrowed_decode_matches_direct_decode() {
    let png = tiny_png();
    let len = png.len();
    let mut doc = empty_document();
    doc.buffers.push(Buffer { uri: Some("a.bin".to_string()), byte_length: len });
    doc.buffer_views.push(BufferView { buffer: 0, byte_offset: 0, byte_length: len });
    doc.images.push(Image { uri: None, mime_type: Some(MimeType::Png), buffer_view: Some(0) });
    let source = MapSource::new(vec![("a.bin".to_string(), Ok(png.clone()))]);
    let out = import(Ok(doc), None, &source, &config(ValidationStrategy::Minimal)).unwrap();
    let direct = decode_image(&png, Some(LibFormat::Png)).unwrap();
    assert_eq!(out.images[0], direct);
    // The decoder really decoded: 2x2 RGBA pixels, not the PNG stream.
    assert_eq!(direct.pixels.len(), 16);
    assert_ne!(direct.pixels, png);
}

#[test]
fn complete_flags_missing_version_that_minimal_accepts() {
    let mut doc = empty_document();
    doc.asset_version = None;
    let source = MapSource::new(Vec::new());
    let r = import(Ok(doc.clone()), None, &source, &config(ValidationStrategy::Minimal));
    assert!(r.is_ok());
    let r = import(Ok(doc), None, &source, &config(ValidationStrategy::Complete));
    match r {
        Err(Error::Validation(list)) => {
            assert_eq!(list.len(), 1);
            assert_eq!(
                list[0].0.segs,
                vec![PathSeg::Name(Field::Asset), PathSeg::Name(Field::Version)]
            );
            assert_eq!(list[0].1, ValidationErrorKind::Missing);
        },
        other => panic!("expected a validation failure, got {:?}", other.is_ok()),
    }
}

#[test]
fn failing_image_fetch_surfaces_as_source_error() {
    let mut doc = empty_document();
    doc.images.push(Image {
        uri: Some("missing.png".to_string()),
        mime_type: None,
        buffer_view: None,
    });
    let source = MapSource::new(vec![(
        "missing.png".to_string(),
        Err("fetch refused".to_string()),
    )]);
    let r = import(Ok(doc), None, &source, &config(ValidationStrategy::Minimal));
    match r {
        Err(Error::Source(e)) => assert_eq!(e, "fetch refused"),
        other => panic!("expected a source failure, got {:?}", other.is_ok()),
    }
}

#[test]
fn owned_image_without_mime_is_auto_detected() {
    let png = tiny_png();
    let mut doc = empty_document();
    doc.images.push(Image { uri: Some("i.png".to_string()), mime_type: None, buffer_view: None });
    let source = MapSource::new(vec![("i.png".to_string(), Ok(png))]);
    let out = import(Ok(doc), None, &source, &config(ValidationStrategy::Minimal)).unwrap();
    assert_eq!(out.images.len(), 1);
    assert_eq!(out.images[0].width, 2);
    assert_eq!(out.images[0].height, 2);
}

#[test]
fn uriless_buffer_fails_as_validation_on_standard_path() {
    let mut doc = empty_document();
    doc.buffers.push(Buffer { uri: None, byte_length: 4 });
    let source = MapSource::new(Vec::new());
    // The reduced rule set does not reject it, but resolution must: there
    // is nothing to fetch and no embedded payload to fall back on.
    let r = import(Ok(doc.clone()), None, &source, &config(ValidationStrategy::Skip));
    match r {
        Err(Error::Validation(list)) => {
            assert_eq!(list.len(), 1);
            assert_eq!(
                list[0].0.segs,
                vec![PathSeg::Name(Field::Buffers), PathSeg::Index(0), PathSeg::Name(Field::Uri)]
            );
            assert_eq!(list[0].1, ValidationErrorKind::Missing);
        },
        other => panic!("expected a validation failure, got {:?}", other.is_ok()),
    }
    let r = import(Ok(doc), None, &source, &config(ValidationStrategy::Minimal));
    assert!(matches!(r, Err(Error::Validation(_))));
    assert_eq!(source.log.borrow().len(), 0);
}

#[test]
fn second_uriless_buffer_fails_even_with_embedded_payload() {
    let mut doc = empty_document();
    doc.buffers.push(Buffer { uri: None, byte_length: 4 });
    doc.buffers.push(Buffer { uri: None, byte_length: 4 });
    let source = MapSource::new(Vec::new());
    let r = import(Ok(doc), Some(vec![1, 2, 3, 4]), &source, &config(ValidationStrategy::Skip));
    match r {
        Err(Error::Validation(list)) => {
            assert_eq!(list.len(), 1);
            assert_eq!(
                list[0].0.segs,
                vec![PathSeg::Name(Field::Buffers), PathSeg::Index(1), PathSeg::Name(Field::Uri)]
            );
            assert_eq!(list[0].1, ValidationErrorKind::Missing);
        },
        other => panic!("expected a validation failure, got {:?}", other.is_ok()),
    }
}

#[test]
fn borrowed_range_beyond_fetched_bytes_is_path_tagged() {
    let mut doc = empty_document();
    // The declared length admits the view, but the source hands back
    // fewer bytes than declared, so the range cannot be honoured.
    doc.buffers.push(Buffer { uri: Some("a.bin".to_string()), byte_length: 100 });
    doc.buffer_views.push(BufferView { buffer: 0, byte_offset: 0, byte_length: 100 });
    doc.images.push(Image { uri: None, mime_type: Some(MimeType::Png), buffer_view: Some(0) });
    let source = MapSource::new(vec![("a.bin".to_string(), Ok(vec![1, 2, 3, 4]))]);
    let r = import(Ok(doc), None, &source, &config(ValidationStrategy::Minimal));
    match r {
        Err(Error::Validation(list)) => {
            assert_eq!(list.len(), 1);
            assert_eq!(
                list[0].0.segs,
                vec![PathSeg::Name(Field::BufferViews), PathSeg::Index(0)]
            );
            assert_eq!(list[0].1, ValidationErrorKind::IndexOutOfBounds);
        },
        other => panic!("expected a validation failure, got {:?}", other.is_ok()),
    }
}

#[test]
fn owned_image_with_unknown_signature_is_rejected() {
    let mut doc = empty_document();
    doc.images.push(Image { uri: Some("x.bin".to_string()), mime_type: None, buffer_view: None });
    let source = MapSource::new(vec![("x.bin".to_string(), Ok(vec![1, 2, 3, 4]))]);
    let r = import(Ok(doc), None, &source, &config(ValidationStrategy::Minimal));
    assert!(matches!(r, Err(Error::Decode(_))));
}

#[test]
fn undecodable_bytes_surface_as_decode_error() {
    let mut doc = empty_document();
    doc.buffers.push(Buffer { uri: Some("junk.bin".to_string()), byte_length: 4 });
    doc.buffer_views.push(BufferView { buffer: 0, byte_offset: 0, byte_length: 4 });
    doc.images.push(Image { uri: None, mime_type: Some(MimeType::Png), buffer_view: Some(0) });
    let source = MapSource::new(vec![("junk.bin".to_string(), Ok(vec![1, 2, 3, 4]))]);
    let r = import(Ok(doc), None, &source, &config(ValidationStrategy::Minimal));
    assert!(matches!(r, Err(Error::Decode(_))));
}

#[test]
fn malformed_json_diagnostic_is_preserved() {
    let source = MapSource::new(Vec::new());
    let diagnostic = JsonError { line: 3, column: 14, message: "expected a value".to_string() };
    let r = import::<MapSource>(
        Err(diagnostic.clone()),
        None,
        &source,
        &config(ValidationStrategy::Minimal),
    );
    match r {
        Err(Error::MalformedJson(e)) => assert_eq!(e, diagnostic),
        other => panic!("expected a JSON failure, got {:?}", other.is_ok()),
    }
}

#[test]
fn structurally_broken_image_fails_even_under_skip() {
    // An image with neither a URI nor a buffer view cannot be resolved;
    // even Skip reports it as a validation failure rather than faulting.
    let mut doc = empty_document();
    doc.images.push(Image { uri: None, mime_type: None, buffer_view: None });
    let source = MapSource::new(Vec::new());
    let r = import(Ok(doc), None, &source, &config(ValidationStrategy::Skip));
    match r {
        Err(Error::Validation(list)) => {
            assert_eq!(list.len(), 1);
            assert_eq!(list[0].0.segs, vec![PathSeg::Name(Field::Images), PathSeg::Index(0)]);
            assert_eq!(list[0].1, ValidationErrorKind::Missing);
        },
        other => panic!("expected a validation failure, got {:?}", other.is_ok()),
    }
}

#[test]
fn default_configuration_validates_minimally() {
    let c: Config = Default::default();
    assert_eq!(c.validation_strategy, ValidationStrategy::Minimal);
}

#[test]
fn mime_names_classify_exactly() {
    assert_eq!(MimeType::from_name("image/jpeg"), MimeType::Jpeg);
    assert_eq!(MimeType::from_name("image/png"), MimeType::Png);
    assert_eq!(MimeType::from_name("image/webp"), MimeType::Other);
    assert_eq!(MimeType::from_name("image/pngg"), MimeType::Other);
    assert_eq!(MimeType::from_name(""), MimeType::Other);
}

#[test]
fn version_strings_parse_exactly() {
    assert_eq!(parse_version("2.0"), Some((2, 0)));
    assert_eq!(parse_version("2"), Some((2, 0)));
    assert_eq!(parse_version("10.42"), Some((10, 42)));
    assert_eq!(parse_version(""), None);
    assert_eq!(parse_version("2."), None);
    assert_eq!(parse_version(".0"), None);
    assert_eq!(parse_version("a.b"), None);
    assert_eq!(parse_version("2.0.1"), None);
    assert_eq!(parse_version("4294967295.0"), Some((4294967295, 0)));
    assert_eq!(parse_version("4294967296.0"), None);
}

#[test]
fn mime_types_name_their_decodable_format() {
    assert_eq!(MimeType::Jpeg.format(), Some(LibFormat::Jpeg));
    assert_eq!(MimeType::Png.format(), Some(LibFormat::Png));
    assert_eq!(MimeType::Other.format(), None);
}

#[test]
fn error_descriptions_and_causes() {
    let decode: Error<String> = Error::Decode("bad stream".to_string());
    assert_eq!(decode.description(), "Image decoding failed");
    assert!(!decode.has_cause());
    let source: Error<String> = Error::Source("io down".to_string());
    assert_eq!(source.description(), "Data source error");
    assert!(source.has_cause());
    let json: Error<String> = Error::MalformedJson(JsonError {
        line: 1,
        column: 1,
        message: "eof".to_string(),
    });
    assert_eq!(json.description(), "Malformed JSON");
    assert!(json.has_cause());
    let validation: Error<String> = Error::Validation(Vec::new());
    assert_eq!(validation.description(), "Asset failed validation tests");
    assert!(!validation.has_cause());
    let glb: Error<String> = Error::MalformedGlb("short".to_string());
    assert_eq!(glb.description(), "Malformed binary container");
    assert!(!glb.has_cause());
    let io: Error<String> = Error::Io("disk gone".to_string());
    assert_eq!(io.description(), "I/O error");
    assert!(io.has_cause());
    let disabled: Error<String> = Error::ExtensionDisabled("EXT_x".to_string());
    assert_eq!(disabled.description(), "Asset requires a disabled extension");
    let unsupported: Error<String> = Error::ExtensionUnsupported("EXT_y".to_string());
    assert_eq!(unsupported.description(), "Asset requires an unsupported extension");
    let version: Error<String> = Error::IncompatibleVersion("3.0".to_string());
    assert_eq!(version.description(), "Asset is not of a supported version");
    let shared: Error<String> = Error::Shared(Box::new(Error::Io("disk gone".to_string())));
    assert_eq!(shared.description(), "Shared error");
    assert!(!shared.has_cause());
}
