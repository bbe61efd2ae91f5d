//! Format dispatch: decide from the leading bytes of the fetched document
//! whether it is a binary container or direct JSON.

use vstd::prelude::*;

verus! {

/// The container kind of a fetched document.
#[derive(Clone, Copy, Debug, PartialEq, Eq, Structural)]
pub enum DocumentKind {
    /// The document is packed in the binary container behind the magic tag.
    Binary,
    /// The document is direct JSON.
    Standard,
}

/// The 4-byte ASCII magic tag that opens the binary container: `glTF`.
pub open spec fn magic() -> Seq<u8> {
    seq![0x67u8, 0x6cu8, 0x54u8, 0x46u8]
}

/// Whether the byte sequence begins with the binary-container magic tag.
pub open spec fn is_binary(bytes: Seq<u8>) -> bool {
    bytes.len() >= 4 && bytes.subrange(0, 4) == magic()
}

/// The dispatch decision for a document with the given bytes.
pub open spec fn spec_dispatch(bytes: Seq<u8>) -> DocumentKind {
    if is_binary(bytes) {
        DocumentKind::Binary
    } else {
        DocumentKind::Standard
    }
}

/// Inspect the leading bytes of the fetched document and pick the decoding
/// path. The check is an exact byte-prefix comparison with no
/// partial-match tolerance.
pub fn dispatch(bytes: &[u8]) -> (k: DocumentKind)
    ensures
        k == spec_dispatch(bytes@),
{
    if bytes.len() >= 4 && bytes[0] == 0x67u8 && bytes[1] == 0x6cu8 && bytes[2] == 0x54u8
        && bytes[3] == 0x46u8 {
        proof {
            assert(bytes@.subrange(0, 4) =~= magic());
        }
        DocumentKind::Binary
    } else {
        proof {
            if bytes@.len() >= 4 && bytes@.subrange(0, 4) == magic() {
                assert(bytes@[0] == magic()[0]);
                assert(bytes@[1] == magic()[1]);
                assert(bytes@[2] == magic()[2]);
                assert(bytes@[3] == magic()[3]);
            }
        }
        DocumentKind::Standard
    }
}

/// Law: the dispatch decision depends only on the first 4 bytes. Two
/// documents that agree on those bytes are routed the same way.
pub proof fn lemma_dispatch_depends_on_prefix(b1: Seq<u8>, b2: Seq<u8>)
    requires
        b1.len() >= 4,
        b2.len() >= 4,
        b1.subrange(0, 4) == b2.subrange(0, 4),
    ensures
        spec_dispatch(b1) == spec_dispatch(b2),
{
}

/// Law: a document shorter than the magic tag is always routed to the
/// standard path.
pub proof fn lemma_dispatch_short(b: Seq<u8>)
    requires
        b.len() < 4,
    ensures
        spec_dispatch(b) == DocumentKind::Standard,
{
}

} // verus!
