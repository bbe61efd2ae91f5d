//! Framing of the binary container: a 12-byte header behind the magic tag,
//! a mandatory JSON chunk and an optional trailing binary chunk. This
//! module only splits and checks the frame; the JSON chunk is parsed like
//! any direct-JSON document.

use vstd::prelude::*;
use vstd::slice::slice_subrange;
use vstd::slice::slice_to_vec;

use crate::dispatch::is_binary;

verus! {

/// Chunk tag of the mandatory JSON chunk (ASCII `JSON`, little endian).
pub const JSON_CHUNK_TAG: u32 = 0x4E4F534A;

/// Chunk tag of the optional binary chunk (ASCII `BIN\0`, little endian).
pub const BIN_CHUNK_TAG: u32 = 0x004E4942;

/// The container version this importer accepts.
pub const SUPPORTED_CONTAINER_VERSION: u32 = 2;

/// The unsigned little-endian 32-bit value stored at byte offset `i`.
pub open spec fn u32_le_at(b: Seq<u8>, i: int) -> int
    recommends
        0 <= i,
        i + 4 <= b.len(),
{
    b[i] + 0x100 * b[i + 1] + 0x10000 * b[i + 2] + 0x1000000 * b[i + 3]
}

/// Where the JSON chunk's payload ends: the payload starts at byte 20,
/// after the header and the chunk's own length and tag words.
pub open spec fn json_chunk_end(b: Seq<u8>) -> int {
    20 + u32_le_at(b, 12)
}

/// Whether the bytes form a well-formed binary container: magic tag,
/// supported version, a total length that matches the actual byte count,
/// a JSON chunk in bounds, and either nothing after it or one binary
/// chunk that runs exactly to the end.
pub open spec fn glb_well_formed(b: Seq<u8>) -> bool {
    &&& b.len() >= 20
    &&& is_binary(b)
    &&& u32_le_at(b, 4) == SUPPORTED_CONTAINER_VERSION
    &&& u32_le_at(b, 8) == b.len()
    &&& u32_le_at(b, 16) == JSON_CHUNK_TAG
    &&& json_chunk_end(b) <= b.len()
    &&& {
        let end = json_chunk_end(b);
        ||| end == b.len()
        ||| (end + 8 <= b.len() && u32_le_at(b, end + 4) == BIN_CHUNK_TAG && end + 8 + u32_le_at(
            b,
            end,
        ) == b.len())
    }
}

/// The JSON chunk's payload of a well-formed container.
pub open spec fn glb_json_bytes(b: Seq<u8>) -> Seq<u8>
    recommends
        glb_well_formed(b),
{
    b.subrange(20, json_chunk_end(b))
}

/// The binary chunk's payload of a well-formed container, when it has one.
pub open spec fn glb_bin_bytes(b: Seq<u8>) -> Option<Seq<u8>>
    recommends
        glb_well_formed(b),
{
    let end = json_chunk_end(b);
    if end == b.len() {
        None
    } else {
        Some(b.subrange(end + 8, b.len() as int))
    }
}

/// The two payloads split out of a well-formed binary container.
#[derive(Clone, Debug, PartialEq, Eq)]
pub struct GlbParts {
    /// The JSON chunk's payload.
    pub json: Vec<u8>,
    /// The binary chunk's payload, when the container carries one.
    pub bin: Option<Vec<u8>>,
}

/// Whether an owned optional payload holds exactly the modelled bytes.
pub open spec fn option_bytes_match(v: Option<Vec<u8>>, s: Option<Seq<u8>>) -> bool {
    match v {
        Some(x) => s matches Some(y) && x@ == y,
        None => s is None,
    }
}

/// Read the unsigned little-endian 32-bit value at byte offset `i`.
fn read_u32_le(b: &[u8], i: usize) -> (r: u32)
    requires
        i + 4 <= b@.len(),
    ensures
        r == u32_le_at(b@, i as int),
{
    let x0 = b[i] as u32;
    let x1 = b[i + 1] as u32;
    let x2 = b[i + 2] as u32;
    let x3 = b[i + 3] as u32;
    x0 + 0x100 * x1 + 0x10000 * x2 + 0x1000000 * x3
}

/// Split a binary container into its JSON and binary payloads, checking
/// the frame exactly: the split succeeds if and only if the container is
/// well formed.
pub fn split(bytes: &[u8]) -> (r: Result<GlbParts, String>)
    ensures
        r is Ok <==> glb_well_formed(bytes@),
        r matches Ok(p) ==> p.json@ == glb_json_bytes(bytes@) && option_bytes_match(
            p.bin,
            glb_bin_bytes(bytes@),
        ),
{
    if bytes.len() < 20 {
        return Err("container shorter than its header and first chunk header".to_owned());
    }
    if !(bytes[0] == 0x67 && bytes[1] == 0x6c && bytes[2] == 0x54 && bytes[3] == 0x46) {
        proof {
            if is_binary(bytes@) {
                assert(bytes@.subrange(0, 4)[0] == 0x67);
                assert(bytes@.subrange(0, 4)[1] == 0x6c);
                assert(bytes@.subrange(0, 4)[2] == 0x54);
                assert(bytes@.subrange(0, 4)[3] == 0x46);
            }
        }
        return Err("container does not begin with the magic tag".to_owned());
    }
    proof {
        assert(bytes@.subrange(0, 4) =~= crate::dispatch::magic());
    }
    let version = read_u32_le(bytes, 4);
    if version != SUPPORTED_CONTAINER_VERSION {
        return Err("unsupported container version".to_owned());
    }
    let total = read_u32_le(bytes, 8);
    if total as usize != bytes.len() {
        return Err("declared container length does not match the byte count".to_owned());
    }
    let json_tag = read_u32_le(bytes, 16);
    if json_tag != JSON_CHUNK_TAG {
        return Err("first chunk is not the JSON chunk".to_owned());
    }
    let json_len = read_u32_le(bytes, 12) as usize;
    if json_len > bytes.len() - 20 {
        return Err("JSON chunk runs past the end of the container".to_owned());
    }
    let end = 20 + json_len;
    let json = slice_to_vec(slice_subrange(bytes, 20, end));
    if end == bytes.len() {
        return Ok(GlbParts { json, bin: None });
    }
    if bytes.len() - end < 8 {
        return Err("trailing bytes too short for a binary chunk header".to_owned());
    }
    let bin_tag = read_u32_le(bytes, end + 4);
    if bin_tag != BIN_CHUNK_TAG {
        return Err("second chunk is not the binary chunk".to_owned());
    }
    let bin_len = read_u32_le(bytes, end) as usize;
    if bin_len != bytes.len() - end - 8 {
        return Err("binary chunk does not run exactly to the end".to_owned());
    }
    let bin = slice_to_vec(slice_subrange(bytes, end + 8, bytes.len()));
    Ok(GlbParts { json, bin: Some(bin) })
}

/// Law: a document that begins with the magic tag but is shorter than a
/// container header is routed to the binary path and is malformed there,
/// so it is never parsed as JSON.
pub proof fn lemma_short_binary_garbage_is_malformed(b: Seq<u8>)
    requires
        b.len() >= 4,
        b.subrange(0, 4) == crate::dispatch::magic(),
        b.len() < 20,
    ensures
        crate::dispatch::spec_dispatch(b) == crate::dispatch::DocumentKind::Binary,
        !glb_well_formed(b),
{
}

} // verus!
