use gltf_importer::config::Config;
use gltf_importer::config::ValidationStrategy;
use gltf_importer::document::Buffer;
use gltf_importer::document::Document;
use gltf_importer::error::Error;
use gltf_importer::glb::split;
use gltf_importer::import::begin_import;
use gltf_importer::import::import;
use gltf_importer::import::RawDocument;
use gltf_importer::import::Source;

/// A source that only serves a fixed root document.
struct RootSource {
    root: Vec<u8>,
}

impl Source for RootSource {
    type Error = String;

    fn source_gltf(&self) -> Result<Vec<u8>, String> {
        Ok(self.root.clone())
    }

    fn source_external_data(&self, uri: &str) -> Result<Vec<u8>, String> {
        Err(format!("no entry for {}", uri))
    }
}

fn push_u32_le(out: &mut Vec<u8>, v: u32) {
    out.push((v & 0xff) as u8);
    out.push(((v >> 8) & 0xff) as u8);
    out.push(((v >> 16) & 0xff) as u8);
    out.push(((v >> 24) & 0xff) as u8);
}

/// Assemble a binary container around a JSON payload and an optional
/// binary payload.
fn make_glb(json: &[u8], bin: Option<&[u8]>) -> Vec<u8> {
    let total = 12 + 8 + json.len() + match bin {
        Some(b) => 8 + b.len(),
        None => 0,
    };
    let mut out: Vec<u8> = Vec::new();
    out.extend_from_slice(b"glTF");
    push_u32_le(&mut out, 2);
    push_u32_le(&mut out, total as u32);
    push_u32_le(&mut out, json.len() as u32);
    push_u32_le(&mut out, 0x4E4F534A);
    out.extend_from_slice(json);
    if let Some(b) = bin {
        push_u32_le(&mut out, b.len() as u32);
        push_u32_le(&mut out, 0x004E4942);
        out.extend_from_slice(b);
    }
    out
}

#[test]
fn split_extracts_json_and_bin_chunks() {
    let glb = make_glb(b"{}", Some(&[1, 2, 3, 4]));
    let parts = split(&glb).unwrap();
    assert_eq!(parts.json, b"{}".to_vec());
    assert_eq!(parts.bin, Some(vec![1, 2, 3, 4]));
}

#[test]
fn split_accepts_container_without_bin_chunk() {
    let glb = make_glb(b"{\"asset\":{}}", None);
    let parts = split(&glb).unwrap();
    assert_eq!(parts.json, b"{\"asset\":{}}".to_vec());
    assert_eq!(parts.bin, None);
}

#[test]
fn split_rejects_magic_followed_by_garbage() {
    let r = split(b"glTF garbage that is no container");
    assert!(r.is_err());
    let r = split(b"glTF");
    assert!(r.is_err());
}

#[test]
fn split_rejects_wrong_version_and_wrong_length() {
    let mut glb = make_glb(b"{}", None);
    glb[4] = 3;
    assert!(split(&glb).is_err());
    let mut glb = make_glb(b"{}", None);
    glb[8] = glb[8].wrapping_add(1);
    assert!(split(&glb).is_err());
    let mut glb = make_glb(b"{}", None);
    glb[16] = 0;
    assert!(split(&glb).is_err());
}

#[test]
fn binary_garbage_fails_with_malformed_glb_not_json() {
    let source = RootSource { root: b"glTF followed by garbage".to_vec() };
    let r = begin_import(&source);
    assert!(matches!(r, Err(Error::MalformedGlb(_))));
}

#[test]
fn standard_root_routes_to_the_json_path() {
    let source = RootSource { root: b"{ \"asset\": {} }".to_vec() };
    match begin_import(&source) {
        Ok(RawDocument::Standard { json }) => assert_eq!(json, b"{ \"asset\": {} }".to_vec()),
        _ => panic!("expected the standard path"),
    }
}

#[test]
fn well_formed_container_routes_to_the_binary_path() {
    let source = RootSource { root: make_glb(b"{}", Some(&[9, 9])) };
    match begin_import(&source) {
        Ok(RawDocument::Binary { json, bin }) => {
            assert_eq!(json, b"{}".to_vec());
            assert_eq!(bin, Some(vec![9, 9]));
        },
        _ => panic!("expected the binary path"),
    }
}

#[test]
fn embedded_payload_feeds_the_uriless_first_buffer() {
    let glb = make_glb(b"{}", Some(&[7, 8, 9, 10]));
    let parts = split(&glb).unwrap();
    let doc = Document {
        asset_version: Some((2, 0)),
        buffers: vec![Buffer { uri: None, byte_length: 4 }],
        buffer_views: Vec::new(),
        images: Vec::new(),
    };
    let source = RootSource { root: Vec::new() };
    let out = import(
        Ok(doc),
        parts.bin,
        &source,
        &Config { validation_strategy: ValidationStrategy::Minimal },
    )
    .unwrap();
    assert_eq!(out.buffers.len(), 1);
    assert_eq!(out.buffers[0], vec![7, 8, 9, 10]);
    assert_eq!(out.images.len(), 0);
}
