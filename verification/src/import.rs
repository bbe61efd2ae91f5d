//! The standard import pipeline: validate the parsed document, resolve
//! every external buffer and image reference through the caller's source
//! with one fetch per distinct URI, decode the images, and assemble the
//! result.

use vstd::prelude::*;
use vstd::slice::slice_subrange;
use vstd::slice::slice_to_vec;

use crate::config::Config;
use crate::config::ValidationStrategy;
use crate::decode::spec_decoded;
use crate::decode::decode_image;
use crate::decode::DecodedImage;
use crate::document::Document;
use crate::document::ImageFormat;
use crate::error::Error;
use crate::error::JsonError;
use crate::validation::matches_abs;
use crate::validation::minimal_violations;
use crate::validation::validation_outcome;
use crate::validation::validate_minimal;
use crate::validation::validate_complete;
use crate::validation::group_entry_path;
use crate::validation::group_entry_field_path;
use crate::validation::AbsViolation;
use crate::validation::Field;
use crate::validation::JsonPath;
use crate::validation::ValidationErrorKind;

verus! {

/// A capability for fetching the asset's raw bytes: the root document, and
/// any externally referenced byte blob by URI. Implementations are
/// supplied by the caller and are not verified; the pipeline assumes
/// nothing about the bytes they return.
pub trait Source: Sized {
    /// The implementation's own error type.
    type Error;

    /// Fetch the root document's bytes.
    fn source_gltf(&self) -> Result<Vec<u8>, Self::Error>;

    /// Fetch the bytes behind one externally referenced URI.
    fn source_external_data(&self, uri: &str) -> Result<Vec<u8>, Self::Error>;
}

/// The view of a list of owned strings.
pub open spec fn abs_strs(v: Seq<String>) -> Seq<Seq<char>> {
    v.map_values(|s: String| s@)
}

/// The view of a list of owned byte buffers.
pub open spec fn abs_bufs(v: Seq<Vec<u8>>) -> Seq<Seq<u8>> {
    v.map_values(|b: Vec<u8>| b@)
}

/// The view of an optional owned byte buffer.
pub open spec fn abs_opt_bytes(v: Option<Vec<u8>>) -> Option<Seq<u8>> {
    match v {
        Some(b) => Some(b@),
        None => None,
    }
}

/// The URIs named by the first `n` buffer entries, in document order.
pub open spec fn buffer_uris_upto(doc: Document, n: int) -> Seq<Seq<char>>
    decreases n,
{
    if n <= 0 {
        Seq::empty()
    } else {
        buffer_uris_upto(doc, n - 1) + match doc.buffers@[n - 1].uri {
            Some(u) => seq![u@],
            None => Seq::<Seq<char>>::empty(),
        }
    }
}

/// The URIs named by the first `n` image entries, in document order.
pub open spec fn image_uris_upto(doc: Document, n: int) -> Seq<Seq<char>>
    decreases n,
{
    if n <= 0 {
        Seq::empty()
    } else {
        image_uris_upto(doc, n - 1) + match doc.images@[n - 1].uri {
            Some(u) => seq![u@],
            None => Seq::<Seq<char>>::empty(),
        }
    }
}

/// Every URI the document references externally: those of its buffer
/// entries, then those of its image entries.
pub open spec fn referenced_uris(doc: Document) -> Seq<Seq<char>> {
    buffer_uris_upto(doc, doc.buffers@.len() as int) + image_uris_upto(
        doc,
        doc.images@.len() as int,
    )
}

/// First-occurrence deduplication: the distinct values of `s`, each at the
/// position of its first occurrence.
pub open spec fn dedup(s: Seq<Seq<char>>) -> Seq<Seq<char>>
    decreases s.len(),
{
    if s.len() == 0 {
        s
    } else {
        let d = dedup(s.drop_last());
        if d.contains(s.last()) {
            d
        } else {
            d.push(s.last())
        }
    }
}

/// The position of the first occurrence of `u` in `s`.
pub open spec fn first_index(s: Seq<Seq<char>>, u: Seq<char>) -> int
    decreases s.len(),
{
    if s.len() == 0 {
        0
    } else if s[0] == u {
        0
    } else {
        1 + first_index(s.drop_first(), u)
    }
}

proof fn lemma_contains_split(s: Seq<Seq<char>>, u: Seq<char>)
    requires
        s.len() > 0,
    ensures
        s.contains(u) <==> (s.drop_last().contains(u) || s.last() == u),
{
    if s.contains(u) {
        let i = choose|i: int| 0 <= i < s.len() && s[i] == u;
        if i < s.len() - 1 {
            assert(s.drop_last()[i] == u);
        }
    }
    if s.drop_last().contains(u) {
        let i = choose|i: int| 0 <= i < s.drop_last().len() && s.drop_last()[i] == u;
        assert(s[i] == u);
    }
    if s.last() == u {
        assert(s[s.len() - 1] == u);
    }
}

/// Deduplication keeps exactly the values of its input.
pub proof fn lemma_dedup_contains(s: Seq<Seq<char>>, u: Seq<char>)
    ensures
        dedup(s).contains(u) <==> s.contains(u),
    decreases s.len(),
{
    if s.len() == 0 {
    } else {
        lemma_dedup_contains(s.drop_last(), u);
        lemma_contains_split(s, u);
        let d = dedup(s.drop_last());
        if !d.contains(s.last()) {
            lemma_contains_split(d.push(s.last()), u);
            assert(d.push(s.last()).drop_last() =~= d);
            assert(d.push(s.last()).last() == s.last());
        }
    }
}

/// Deduplication leaves no value twice.
pub proof fn lemma_dedup_no_dups(s: Seq<Seq<char>>)
    ensures
        forall|i: int, j: int|
            0 <= i < j < dedup(s).len() ==> #[trigger] dedup(s)[i] != #[trigger] dedup(s)[j],
    decreases s.len(),
{
    if s.len() == 0 {
    } else {
        lemma_dedup_no_dups(s.drop_last());
        let d = dedup(s.drop_last());
        if !d.contains(s.last()) {
            assert forall|i: int, j: int| 0 <= i < j < dedup(s).len() implies #[trigger] dedup(
                s,
            )[i] != #[trigger] dedup(s)[j] by {
                if j < d.len() {
                } else {
                    assert(dedup(s)[j] == s.last());
                    assert(dedup(s)[i] == d[i]);
                    assert(!d.contains(s.last()));
                    assert(d[i] != s.last());
                }
            }
        }
    }
}

/// The first occurrence of a contained value is a real, least position.
pub proof fn lemma_first_index_works(s: Seq<Seq<char>>, u: Seq<char>)
    requires
        s.contains(u),
    ensures
        0 <= first_index(s, u) < s.len(),
        s[first_index(s, u)] == u,
        forall|k: int| 0 <= k < first_index(s, u) ==> s[k] != u,
    decreases s.len(),
{
    if s[0] == u {
    } else {
        let t = s.drop_first();
        let i = choose|i: int| 0 <= i < s.len() && s[i] == u;
        assert(t[i - 1] == u);
        assert(t.contains(u));
        lemma_first_index_works(t, u);
        assert forall|k: int| 0 <= k < first_index(s, u) implies s[k] != u by {
            if k > 0 {
                assert(t[k - 1] == s[k]);
            }
        }
    }
}

/// Add `u` to the fetch plan unless an equal URI is already planned.
fn add_uri(plan: &mut Vec<String>, u: &String)
    ensures
        abs_strs(final(plan)@) == (if abs_strs(old(plan)@).contains(u@) {
            abs_strs(old(plan)@)
        } else {
            abs_strs(old(plan)@).push(u@)
        }),
{
    let mut j: usize = 0;
    let mut found = false;
    while j < plan.len()
        invariant
            j <= plan@.len(),
            plan@ == old(plan)@,
            found == exists|k: int| 0 <= k < j && plan@[k]@ == u@,
        decreases plan@.len() - j,
    {
        if plan[j] == *u {
            found = true;
        }
        j += 1;
    }
    if found {
        proof {
            let k = choose|k: int| 0 <= k < plan@.len() && plan@[k]@ == u@;
            assert(abs_strs(plan@)[k] == u@);
        }
    } else {
        proof {
            if abs_strs(plan@).contains(u@) {
                let k = choose|k: int|
                    0 <= k < abs_strs(plan@).len() && abs_strs(plan@)[k] == u@;
                assert(plan@[k]@ == u@);
            }
        }
        let ghost before = plan@;
        plan.push(u.clone());
        proof {
            assert(abs_strs(plan@) =~= abs_strs(before).push(u@));
        }
    }
}

/// Compute the fetch plan: every URI the document references, first
/// occurrence only, in document order. Exactly these fetches are issued,
/// one each, however many entries share a URI.
pub fn plan_fetches(doc: &Document) -> (plan: Vec<String>)
    ensures
        abs_strs(plan@) == dedup(referenced_uris(*doc)),
{
    let mut plan: Vec<String> = Vec::new();
    let mut i: usize = 0;
    proof {
        assert(abs_strs(plan@) =~= dedup(buffer_uris_upto(*doc, 0)));
    }
    while i < doc.buffers.len()
        invariant
            i <= doc.buffers@.len(),
            abs_strs(plan@) == dedup(buffer_uris_upto(*doc, i as int)),
        decreases doc.buffers@.len() - i,
    {
        let ghost prefix = buffer_uris_upto(*doc, i as int);
        match &doc.buffers[i].uri {
            Some(u) => {
                proof {
                    assert((prefix + seq![u@]).drop_last() =~= prefix);
                    assert((prefix + seq![u@]).last() == u@);
                    assert(buffer_uris_upto(*doc, i as int + 1) == prefix + seq![u@]);
                }
                add_uri(&mut plan, u);
            },
            None => {
                proof {
                    assert(buffer_uris_upto(*doc, i as int + 1) =~= prefix);
                }
            },
        }
        i += 1;
    }
    let ghost all_buffer_uris = buffer_uris_upto(*doc, doc.buffers@.len() as int);
    let mut k: usize = 0;
    proof {
        assert(all_buffer_uris + image_uris_upto(*doc, 0) =~= all_buffer_uris);
    }
    while k < doc.images.len()
        invariant
            k <= doc.images@.len(),
            abs_strs(plan@) == dedup(all_buffer_uris + image_uris_upto(*doc, k as int)),
            all_buffer_uris == buffer_uris_upto(*doc, doc.buffers@.len() as int),
        decreases doc.images@.len() - k,
    {
        let ghost prefix = all_buffer_uris + image_uris_upto(*doc, k as int);
        match &doc.images[k].uri {
            Some(u) => {
                proof {
                    assert((prefix + seq![u@]).drop_last() =~= prefix);
                    assert((prefix + seq![u@]).last() == u@);
                    assert(all_buffer_uris + image_uris_upto(*doc, k as int + 1) =~= prefix
                        + seq![u@]);
                }
                add_uri(&mut plan, u);
            },
            None => {
                proof {
                    assert(all_buffer_uris + image_uris_upto(*doc, k as int + 1) =~= prefix);
                }
            },
        }
        k += 1;
    }
    plan
}

/// The violations that stop an image entry from being resolved at all:
/// it must name a data source, a borrowed image's indices must be in
/// range, and any format this importer is asked to decode by must be one
/// it knows. These checks run whatever the validation strategy, so a
/// structurally broken document fails with a validation error rather
/// than faulting the importer.
pub open spec fn resolve_entry_violations(doc: Document, i: int) -> Seq<AbsViolation>
    recommends
        0 <= i < doc.images@.len(),
{
    let img = doc.images@[i];
    match img.uri {
        Some(_) => match img.mime_type {
            Some(m) => if m.spec_format() is None {
                seq![
                    (
                        group_entry_field_path(Field::Images, i, Field::MimeType),
                        ValidationErrorKind::Invalid,
                    ),
                ]
            } else {
                Seq::<AbsViolation>::empty()
            },
            None => Seq::<AbsViolation>::empty(),
        },
        None => match img.buffer_view {
            None => seq![(group_entry_path(Field::Images, i), ValidationErrorKind::Missing)],
            Some(bv) => if bv >= doc.buffer_views@.len() {
                seq![
                    (
                        group_entry_field_path(Field::Images, i, Field::BufferView),
                        ValidationErrorKind::IndexOutOfBounds,
                    ),
                ]
            } else if doc.buffer_views@[bv as int].buffer >= doc.buffers@.len() {
                seq![
                    (
                        group_entry_field_path(Field::BufferViews, bv as int, Field::Buffer),
                        ValidationErrorKind::IndexOutOfBounds,
                    ),
                ]
            } else {
                match img.mime_type {
                    None => seq![
                        (
                            group_entry_field_path(Field::Images, i, Field::MimeType),
                            ValidationErrorKind::Missing,
                        ),
                    ],
                    Some(m) => if m.spec_format() is None {
                        seq![
                            (
                                group_entry_field_path(Field::Images, i, Field::MimeType),
                                ValidationErrorKind::Invalid,
                            ),
                        ]
                    } else {
                        Seq::<AbsViolation>::empty()
                    },
                }
            },
        },
    }
}

/// The resolution violations of the first `n` images, in document order.
pub open spec fn resolve_violations_upto(doc: Document, n: int) -> Seq<AbsViolation>
    decreases n,
{
    if n <= 0 {
        Seq::empty()
    } else {
        resolve_violations_upto(doc, n - 1) + resolve_entry_violations(doc, n - 1)
    }
}

/// The violation that stops a buffer entry from being resolved: every
/// buffer must name a URI, except the first when the binary container
/// supplied an embedded payload for it. An uriless buffer on the standard
/// path is an invalid-document condition and surfaces as a validation
/// failure, never as silently empty bytes.
pub open spec fn buffer_entry_resolve_violations(
    doc: Document,
    has_embedded: bool,
    i: int,
) -> Seq<AbsViolation>
    recommends
        0 <= i < doc.buffers@.len(),
{
    match doc.buffers@[i].uri {
        Some(_) => Seq::empty(),
        None => if i == 0 && has_embedded {
            Seq::empty()
        } else {
            seq![
                (
                    group_entry_field_path(Field::Buffers, i, Field::Uri),
                    ValidationErrorKind::Missing,
                ),
            ]
        },
    }
}

/// The buffer resolution violations of the first `n` buffer entries.
pub open spec fn buffer_resolve_upto(doc: Document, has_embedded: bool, n: int) -> Seq<
    AbsViolation,
>
    decreases n,
{
    if n <= 0 {
        Seq::empty()
    } else {
        buffer_resolve_upto(doc, has_embedded, n - 1) + buffer_entry_resolve_violations(
            doc,
            has_embedded,
            n - 1,
        )
    }
}

/// Everything that stops the document's buffers and images from being
/// resolved, given whether a container-embedded payload is present.
pub open spec fn resolve_violations(doc: Document, has_embedded: bool) -> Seq<AbsViolation> {
    buffer_resolve_upto(doc, has_embedded, doc.buffers@.len() as int) + resolve_violations_upto(
        doc,
        doc.images@.len() as int,
    )
}

proof fn lemma_resolve_upto_entry_empty(doc: Document, n: int, k: int)
    requires
        resolve_violations_upto(doc, n).len() == 0,
        0 <= k < n,
    ensures
        resolve_entry_violations(doc, k).len() == 0,
    decreases n,
{
    if k < n - 1 {
        lemma_resolve_upto_entry_empty(doc, n - 1, k);
    }
}

proof fn lemma_resolve_upto_all_empty(doc: Document, n: int)
    requires
        forall|k: int| 0 <= k < n ==> resolve_entry_violations(doc, k).len() == 0,
    ensures
        resolve_violations_upto(doc, n).len() == 0,
    decreases n,
{
    if n > 0 {
        lemma_resolve_upto_all_empty(doc, n - 1);
    }
}

proof fn lemma_view_upto_entry_empty(doc: Document, n: int, k: int)
    requires
        crate::validation::view_violations_upto(doc, n).len() == 0,
        0 <= k < n,
    ensures
        crate::validation::view_entry_violations(doc, k).len() == 0,
    decreases n,
{
    if k < n - 1 {
        lemma_view_upto_entry_empty(doc, n - 1, k);
    }
}

proof fn lemma_image_upto_entry_empty(doc: Document, n: int, k: int)
    requires
        crate::validation::image_violations_upto(doc, n).len() == 0,
        0 <= k < n,
    ensures
        crate::validation::image_entry_violations(doc, k).len() == 0,
    decreases n,
{
    if k < n - 1 {
        lemma_image_upto_entry_empty(doc, n - 1, k);
    }
}

proof fn lemma_buffer_resolve_upto_all_empty(doc: Document, has_embedded: bool, n: int)
    requires
        forall|k: int|
            0 <= k < n ==> buffer_entry_resolve_violations(doc, has_embedded, k).len() == 0,
    ensures
        buffer_resolve_upto(doc, has_embedded, n).len() == 0,
    decreases n,
{
    if n > 0 {
        lemma_buffer_resolve_upto_all_empty(doc, has_embedded, n - 1);
    }
}

/// Law: a document that passes the reduced rule set, and whose buffers
/// all name a URI (or are covered by the container's embedded payload),
/// resolves without structural failures; under any strategy that
/// validated it, the pipeline can then only fail in fetching or decoding.
pub proof fn lemma_minimal_clean_resolves(doc: Document, has_embedded: bool)
    requires
        minimal_violations(doc).len() == 0,
        forall|i: int|
            0 <= i < doc.buffers@.len() ==> ((#[trigger] doc.buffers@[i]).uri is Some || (i == 0
                && has_embedded)),
    ensures
        resolve_violations(doc, has_embedded).len() == 0,
{
    lemma_buffer_resolve_upto_all_empty(doc, has_embedded, doc.buffers@.len() as int);
    let nv = doc.buffer_views@.len() as int;
    let ni = doc.images@.len() as int;
    assert(crate::validation::view_violations_upto(doc, nv).len() == 0);
    assert(crate::validation::image_violations_upto(doc, ni).len() == 0);
    assert forall|k: int| 0 <= k < ni implies resolve_entry_violations(doc, k).len() == 0 by {
        lemma_image_upto_entry_empty(doc, ni, k);
        let img = doc.images@[k];
        match img.uri {
            Some(_) => {},
            None => match img.buffer_view {
                None => {},
                Some(bv) => {
                    if bv < doc.buffer_views@.len() {
                        lemma_view_upto_entry_empty(doc, nv, bv as int);
                    }
                },
            },
        }
    }
    lemma_resolve_upto_all_empty(doc, ni);
}

/// Check that every buffer and image entry can be resolved, collecting
/// the violations of those that cannot, in document order.
fn resolve_check(doc: &Document, has_embedded: bool) -> (r: Vec<(JsonPath, ValidationErrorKind)>)
    ensures
        matches_abs(r@, resolve_violations(*doc, has_embedded)),
{
    let mut r: Vec<(JsonPath, ValidationErrorKind)> = Vec::new();
    let mut b: usize = 0;
    while b < doc.buffers.len()
        invariant
            b <= doc.buffers@.len(),
            matches_abs(r@, buffer_resolve_upto(*doc, has_embedded, b as int)),
        decreases doc.buffers@.len() - b,
    {
        match &doc.buffers[b].uri {
            Some(_) => {},
            None => {
                if !(b == 0 && has_embedded) {
                    r.push(
                        (
                            crate::validation::make_entry_field_path(Field::Buffers, b, Field::Uri),
                            ValidationErrorKind::Missing,
                        ),
                    );
                }
            },
        }
        b += 1;
    }
    let ghost buffer_part = buffer_resolve_upto(*doc, has_embedded, doc.buffers@.len() as int);
    let mut i: usize = 0;
    while i < doc.images.len()
        invariant
            i <= doc.images@.len(),
            buffer_part == buffer_resolve_upto(*doc, has_embedded, doc.buffers@.len() as int),
            matches_abs(r@, buffer_part + resolve_violations_upto(*doc, i as int)),
        decreases doc.images@.len() - i,
    {
        let img = &doc.images[i];
        match &img.uri {
            Some(_) => {
                match img.mime_type {
                    Some(m) => {
                        if m.format().is_none() {
                            r.push(
                                (
                                    crate::validation::make_entry_field_path(
                                        Field::Images,
                                        i,
                                        Field::MimeType,
                                    ),
                                    ValidationErrorKind::Invalid,
                                ),
                            );
                        }
                    },
                    None => {},
                }
            },
            None => {
                match img.buffer_view {
                    None => {
                        r.push(
                            (
                                crate::validation::make_entry_path(Field::Images, i),
                                ValidationErrorKind::Missing,
                            ),
                        );
                    },
                    Some(bv) => {
                        if bv >= doc.buffer_views.len() {
                            r.push(
                                (
                                    crate::validation::make_entry_field_path(
                                        Field::Images,
                                        i,
                                        Field::BufferView,
                                    ),
                                    ValidationErrorKind::IndexOutOfBounds,
                                ),
                            );
                        } else if doc.buffer_views[bv].buffer >= doc.buffers.len() {
                            r.push(
                                (
                                    crate::validation::make_entry_field_path(
                                        Field::BufferViews,
                                        bv,
                                        Field::Buffer,
                                    ),
                                    ValidationErrorKind::IndexOutOfBounds,
                                ),
                            );
                        } else {
                            match img.mime_type {
                                None => {
                                    r.push(
                                        (
                                            crate::validation::make_entry_field_path(
                                                Field::Images,
                                                i,
                                                Field::MimeType,
                                            ),
                                            ValidationErrorKind::Missing,
                                        ),
                                    );
                                },
                                Some(m) => {
                                    if m.format().is_none() {
                                        r.push(
                                            (
                                                crate::validation::make_entry_field_path(
                                                    Field::Images,
                                                    i,
                                                    Field::MimeType,
                                                ),
                                                ValidationErrorKind::Invalid,
                                            ),
                                        );
                                    }
                                },
                            }
                        }
                    },
                }
            },
        }
        i += 1;
    }
    r
}

/// The bytes buffer entry `i` resolves to: the fetch result of its URI,
/// the container-embedded payload for an uriless first buffer, and empty
/// bytes otherwise.
pub open spec fn buffer_data_at(
    doc: Document,
    plan: Seq<Seq<char>>,
    results: Seq<Seq<u8>>,
    embedded: Option<Seq<u8>>,
    i: int,
) -> Seq<u8>
    recommends
        0 <= i < doc.buffers@.len(),
        results.len() == plan.len(),
{
    match doc.buffers@[i].uri {
        Some(u) => if plan.contains(u@) {
            results[first_index(plan, u@)]
        } else {
            Seq::empty()
        },
        None => match embedded {
            Some(b) => if i == 0 {
                b
            } else {
                Seq::empty()
            },
            None => Seq::empty(),
        },
    }
}

/// The encoded bytes image entry `i` resolves to: its own fetch result
/// when it is owned, the named byte range of its buffer when it is
/// borrowed, and nothing when that range lies outside the fetched bytes.
pub open spec fn image_bytes_at(
    doc: Document,
    plan: Seq<Seq<char>>,
    results: Seq<Seq<u8>>,
    embedded: Option<Seq<u8>>,
    i: int,
) -> Option<Seq<u8>>
    recommends
        0 <= i < doc.images@.len(),
        results.len() == plan.len(),
{
    let img = doc.images@[i];
    match img.uri {
        Some(u) => if plan.contains(u@) {
            Some(results[first_index(plan, u@)])
        } else {
            Some(Seq::empty())
        },
        None => match img.buffer_view {
            None => None,
            Some(bv) => if bv < doc.buffer_views@.len() && doc.buffer_views@[bv as int].buffer
                < doc.buffers@.len() {
                let v = doc.buffer_views@[bv as int];
                let b = buffer_data_at(doc, plan, results, embedded, v.buffer as int);
                if v.byte_offset + v.byte_length <= b.len() {
                    Some(b.subrange(v.byte_offset as int, v.byte_offset + v.byte_length))
                } else {
                    None
                }
            } else {
                None
            },
        },
    }
}

/// The format hint image entry `i` declares, if it declares a decodable
/// one.
pub open spec fn image_format_at(doc: Document, i: int) -> Option<ImageFormat> {
    match doc.images@[i].mime_type {
        Some(m) => m.spec_format(),
        None => None,
    }
}

/// The decode outcome of image entry `i`: `None` when its bytes cannot be
/// sliced out or the codec rejects them.
pub open spec fn image_outcome_at(
    doc: Document,
    plan: Seq<Seq<char>>,
    results: Seq<Seq<u8>>,
    embedded: Option<Seq<u8>>,
    i: int,
) -> Option<(u32, u32, Seq<u8>)> {
    match image_bytes_at(doc, plan, results, embedded, i) {
        None => None,
        Some(b) => spec_decoded(b, image_format_at(doc, i)),
    }
}

/// The first image index at or after `i` whose decode outcome is
/// undefined; the image count when every remaining image decodes.
pub open spec fn first_bad_image_from(
    doc: Document,
    plan: Seq<Seq<char>>,
    results: Seq<Seq<u8>>,
    embedded: Option<Seq<u8>>,
    i: int,
) -> int
    decreases doc.images@.len() - i,
{
    if i < 0 || i >= doc.images@.len() {
        doc.images@.len() as int
    } else if image_outcome_at(doc, plan, results, embedded, i) is None {
        i
    } else {
        first_bad_image_from(doc, plan, results, embedded, i + 1)
    }
}

proof fn lemma_first_bad_image(
    doc: Document,
    plan: Seq<Seq<char>>,
    results: Seq<Seq<u8>>,
    embedded: Option<Seq<u8>>,
    start: int,
    i: int,
)
    requires
        0 <= start <= i < doc.images@.len(),
        forall|k: int|
            start <= k < i ==> image_outcome_at(doc, plan, results, embedded, k) is Some,
        image_outcome_at(doc, plan, results, embedded, i) is None,
    ensures
        first_bad_image_from(doc, plan, results, embedded, start) == i,
    decreases i - start,
{
    if start < i {
        lemma_first_bad_image(doc, plan, results, embedded, start + 1, i);
    }
}

/// The violation reported when a borrowed image's byte range lies outside
/// the bytes its buffer actually resolved to: the buffer view whose range
/// could not be honoured.
pub open spec fn range_failure_violation(doc: Document, i: int) -> AbsViolation {
    match doc.images@[i].buffer_view {
        Some(bv) => (
            group_entry_path(Field::BufferViews, bv as int),
            ValidationErrorKind::IndexOutOfBounds,
        ),
        None => (group_entry_path(Field::Images, i), ValidationErrorKind::Missing),
    }
}

proof fn lemma_concat_contains_left(a: Seq<Seq<char>>, b: Seq<Seq<char>>, u: Seq<char>)
    requires
        a.contains(u),
    ensures
        (a + b).contains(u),
{
    let i = choose|i: int| 0 <= i < a.len() && a[i] == u;
    assert((a + b)[i] == u);
}

proof fn lemma_concat_contains_right(a: Seq<Seq<char>>, b: Seq<Seq<char>>, u: Seq<char>)
    requires
        b.contains(u),
    ensures
        (a + b).contains(u),
{
    let i = choose|i: int| 0 <= i < b.len() && b[i] == u;
    assert((a + b)[a.len() + i] == u);
}

/// A buffer entry's URI is among the document's referenced URIs.
pub proof fn lemma_buffer_uri_referenced(doc: Document, i: int)
    requires
        0 <= i < doc.buffers@.len(),
        doc.buffers@[i].uri is Some,
    ensures
        match doc.buffers@[i].uri {
            Some(u) => referenced_uris(doc).contains(u@),
            None => true,
        },
{
    lemma_buffer_uri_in_upto(doc, i, doc.buffers@.len() as int);
    match doc.buffers@[i].uri {
        Some(u) => {
            lemma_concat_contains_left(
                buffer_uris_upto(doc, doc.buffers@.len() as int),
                image_uris_upto(doc, doc.images@.len() as int),
                u@,
            );
        },
        None => {},
    }
}

proof fn lemma_buffer_uri_in_upto(doc: Document, i: int, n: int)
    requires
        0 <= i < n <= doc.buffers@.len(),
        doc.buffers@[i].uri is Some,
    ensures
        match doc.buffers@[i].uri {
            Some(u) => buffer_uris_upto(doc, n).contains(u@),
            None => true,
        },
    decreases n,
{
    match doc.buffers@[i].uri {
        Some(u) => {
            if i == n - 1 {
                let pre = buffer_uris_upto(doc, n - 1);
                assert((pre + seq![u@])[pre.len() as int] == u@);
            } else {
                lemma_buffer_uri_in_upto(doc, i, n - 1);
                let pre = buffer_uris_upto(doc, n - 1);
                let tail = match doc.buffers@[n - 1].uri {
                    Some(w) => seq![w@],
                    None => Seq::<Seq<char>>::empty(),
                };
                lemma_concat_contains_left(pre, tail, u@);
            }
        },
        None => {},
    }
}

/// An owned image entry's URI is among the document's referenced URIs.
pub proof fn lemma_image_uri_referenced(doc: Document, i: int)
    requires
        0 <= i < doc.images@.len(),
        doc.images@[i].uri is Some,
    ensures
        match doc.images@[i].uri {
            Some(u) => referenced_uris(doc).contains(u@),
            None => true,
        },
{
    lemma_image_uri_in_upto(doc, i, doc.images@.len() as int);
    match doc.images@[i].uri {
        Some(u) => {
            lemma_concat_contains_right(
                buffer_uris_upto(doc, doc.buffers@.len() as int),
                image_uris_upto(doc, doc.images@.len() as int),
                u@,
            );
        },
        None => {},
    }
}

proof fn lemma_image_uri_in_upto(doc: Document, i: int, n: int)
    requires
        0 <= i < n <= doc.images@.len(),
        doc.images@[i].uri is Some,
    ensures
        match doc.images@[i].uri {
            Some(u) => image_uris_upto(doc, n).contains(u@),
            None => true,
        },
    decreases n,
{
    match doc.images@[i].uri {
        Some(u) => {
            if i == n - 1 {
                let pre = image_uris_upto(doc, n - 1);
                assert((pre + seq![u@])[pre.len() as int] == u@);
            } else {
                lemma_image_uri_in_upto(doc, i, n - 1);
                let pre = image_uris_upto(doc, n - 1);
                let tail = match doc.images@[n - 1].uri {
                    Some(w) => seq![w@],
                    None => Seq::<Seq<char>>::empty(),
                };
                lemma_concat_contains_left(pre, tail, u@);
            }
        },
        None => {},
    }
}

/// Find the planned fetch of `u`: its first (and, the plan being
/// deduplicated, only) position.
fn find_uri(plan: &Vec<String>, u: &String) -> (idx: usize)
    requires
        abs_strs(plan@).contains(u@),
    ensures
        idx < plan@.len(),
        idx == first_index(abs_strs(plan@), u@),
{
    proof {
        lemma_first_index_works(abs_strs(plan@), u@);
    }
    let mut j: usize = 0;
    while j < plan.len()
        invariant
            j <= plan@.len(),
            abs_strs(plan@).contains(u@),
            forall|k: int| 0 <= k < j ==> abs_strs(plan@)[k] != u@,
        decreases plan@.len() - j,
    {
        if plan[j] == *u {
            proof {
                lemma_first_index_works(abs_strs(plan@), u@);
                let fi = first_index(abs_strs(plan@), u@);
                assert(abs_strs(plan@)[j as int] == u@);
                if fi < j {
                    assert(abs_strs(plan@)[fi] != u@);
                }
            }
            return j;
        }
        j += 1;
    }
    proof {
        lemma_first_index_works(abs_strs(plan@), u@);
        let fi = first_index(abs_strs(plan@), u@);
        assert(abs_strs(plan@)[fi] != u@);
        assert(false);
    }
    0
}

/// An owned copy of a byte buffer's contents.
fn copy_bytes(v: &Vec<u8>) -> (r: Vec<u8>)
    ensures
        r@ == v@,
{
    slice_to_vec(v.as_slice())
}

/// Hand every buffer entry the bytes it resolves to: entries naming the
/// same URI observe the same fetched bytes.
pub fn distribute_buffers(
    doc: &Document,
    plan: &Vec<String>,
    results: &Vec<Vec<u8>>,
    embedded: &Option<Vec<u8>>,
) -> (r: Vec<Vec<u8>>)
    requires
        abs_strs(plan@) == dedup(referenced_uris(*doc)),
        results@.len() == plan@.len(),
    ensures
        r@.len() == doc.buffers@.len(),
        forall|i: int|
            0 <= i < doc.buffers@.len() ==> r@[i]@ == buffer_data_at(
                *doc,
                abs_strs(plan@),
                abs_bufs(results@),
                abs_opt_bytes(*embedded),
                i,
            ),
{
    let mut r: Vec<Vec<u8>> = Vec::new();
    let mut i: usize = 0;
    while i < doc.buffers.len()
        invariant
            abs_strs(plan@) == dedup(referenced_uris(*doc)),
            results@.len() == plan@.len(),
            i <= doc.buffers@.len(),
            r@.len() == i as int,
            forall|k: int|
                0 <= k < i ==> r@[k]@ == buffer_data_at(
                    *doc,
                    abs_strs(plan@),
                    abs_bufs(results@),
                    abs_opt_bytes(*embedded),
                    k,
                ),
        decreases doc.buffers@.len() - i,
    {
        match &doc.buffers[i].uri {
            Some(u) => {
                proof {
                    lemma_buffer_uri_referenced(*doc, i as int);
                    lemma_dedup_contains(referenced_uris(*doc), u@);
                }
                let idx = find_uri(plan, u);
                r.push(copy_bytes(&results[idx]));
            },
            None => {
                if i == 0 {
                    match embedded {
                        Some(b) => {
                            r.push(copy_bytes(b));
                        },
                        None => {
                            r.push(Vec::new());
                        },
                    }
                } else {
                    r.push(Vec::new());
                }
            },
        }
        i += 1;
    }
    r
}

/// Decode every image entry, in document order: borrowed images from the
/// named byte range of their fetched buffer, owned images from their own
/// fetched bytes, with the declared format when there is one and the
/// format the bytes announce otherwise. Stops at the first image that
/// fails: a byte range outside the fetched bytes is reported as a
/// path-tagged validation failure, a rejected stream as a decode failure
/// carrying the codec's diagnostic.
fn decode_images<E>(
    doc: &Document,
    plan: &Vec<String>,
    results: &Vec<Vec<u8>>,
    bufdata: &Vec<Vec<u8>>,
    embedded: &Option<Vec<u8>>,
) -> (r: Result<Vec<DecodedImage>, Error<E>>)
    requires
        abs_strs(plan@) == dedup(referenced_uris(*doc)),
        results@.len() == plan@.len(),
        resolve_violations(*doc, *embedded is Some).len() == 0,
        bufdata@.len() == doc.buffers@.len(),
        forall|i: int|
            0 <= i < doc.buffers@.len() ==> bufdata@[i]@ == buffer_data_at(
                *doc,
                abs_strs(plan@),
                abs_bufs(results@),
                abs_opt_bytes(*embedded),
                i,
            ),
    ensures
        r is Ok <==> (forall|i: int|
            0 <= i < doc.images@.len() ==> image_outcome_at(
                *doc,
                abs_strs(plan@),
                abs_bufs(results@),
                abs_opt_bytes(*embedded),
                i,
            ) is Some),
        r matches Ok(v) ==> v@.len() == doc.images@.len() && (forall|i: int|
            0 <= i < doc.images@.len() ==> ((#[trigger] image_outcome_at(
                *doc,
                abs_strs(plan@),
                abs_bufs(results@),
                abs_opt_bytes(*embedded),
                i,
            )) matches Some(t) && v@[i].width == t.0 && v@[i].height == t.1 && v@[i].pixels@
                == t.2)),
        r matches Err(e) ==> ({
            let pl = abs_strs(plan@);
            let rs = abs_bufs(results@);
            let em = abs_opt_bytes(*embedded);
            let fb = first_bad_image_from(*doc, pl, rs, em, 0);
            &&& 0 <= fb < doc.images@.len()
            &&& image_outcome_at(*doc, pl, rs, em, fb) is None
            &&& (image_bytes_at(*doc, pl, rs, em, fb) is None ==> (e matches Error::Validation(v)
                && v@.len() == 1 && v@[0].0@ == range_failure_violation(*doc, fb).0 && v@[0].1
                == range_failure_violation(*doc, fb).1))
            &&& (image_bytes_at(*doc, pl, rs, em, fb) is Some ==> e is Decode)
        }),
{
    let ghost pl = abs_strs(plan@);
    let ghost rs = abs_bufs(results@);
    let ghost em = abs_opt_bytes(*embedded);
    let mut out: Vec<DecodedImage> = Vec::new();
    let mut i: usize = 0;
    while i < doc.images.len()
        invariant
            abs_strs(plan@) == dedup(referenced_uris(*doc)),
            results@.len() == plan@.len(),
            resolve_violations(*doc, *embedded is Some).len() == 0,
            bufdata@.len() == doc.buffers@.len(),
            forall|k: int|
                0 <= k < doc.buffers@.len() ==> bufdata@[k]@ == buffer_data_at(*doc, pl, rs, em, k),
            pl == abs_strs(plan@),
            rs == abs_bufs(results@),
            em == abs_opt_bytes(*embedded),
            i <= doc.images@.len(),
            out@.len() == i as int,
            forall|k: int|
                0 <= k < i ==> ((#[trigger] image_outcome_at(*doc, pl, rs, em, k)) matches Some(
                    t,
                ) && out@[k].width == t.0 && out@[k].height == t.1 && out@[k].pixels@ == t.2),
        decreases doc.images@.len() - i,
    {
        proof {
            assert(resolve_violations_upto(*doc, doc.images@.len() as int).len() == 0);
            lemma_resolve_upto_entry_empty(*doc, doc.images@.len() as int, i as int);
        }
        let img = &doc.images[i];
        let fmt = match img.mime_type {
            Some(m) => m.format(),
            None => None,
        };
        let outcome = match &img.uri {
            Some(u) => {
                proof {
                    lemma_image_uri_referenced(*doc, i as int);
                    lemma_dedup_contains(referenced_uris(*doc), u@);
                }
                let idx = find_uri(plan, u);
                decode_image(results[idx].as_slice(), fmt)
            },
            None => {
                match img.buffer_view {
                    Some(bvi) => {
                        let bv = doc.buffer_views[bvi];
                        let b = &bufdata[bv.buffer];
                        if bv.byte_length > b.len() || bv.byte_offset > b.len() - bv.byte_length {
                            proof {
                                assert(image_bytes_at(*doc, pl, rs, em, i as int) is None);
                                lemma_first_bad_image(*doc, pl, rs, em, 0, i as int);
                            }
                            let mut v: Vec<(JsonPath, ValidationErrorKind)> = Vec::new();
                            v.push(
                                (
                                    crate::validation::make_entry_path(Field::BufferViews, bvi),
                                    ValidationErrorKind::IndexOutOfBounds,
                                ),
                            );
                            return Err(Error::Validation(v));
                        }
                        let slice = slice_subrange(
                            b.as_slice(),
                            bv.byte_offset,
                            bv.byte_offset + bv.byte_length,
                        );
                        decode_image(slice, fmt)
                    },
                    None => {
                        proof {
                            assert(false);
                        }
                        return Err(Error::Decode(String::new()));
                    },
                }
            },
        };
        match outcome {
            Ok(decoded) => {
                out.push(decoded);
            },
            Err(m) => {
                proof {
                    assert(image_bytes_at(*doc, pl, rs, em, i as int) is Some);
                    assert(image_outcome_at(*doc, pl, rs, em, i as int) is None);
                    lemma_first_bad_image(*doc, pl, rs, em, 0, i as int);
                }
                return Err(Error::Decode(m));
            },
        }
        i += 1;
    }
    Ok(out)
}

/// The fully resolved result of one import: the validated document and,
/// alongside it, the bytes of every buffer and the decoded form of every
/// image.
#[derive(Debug)]
pub struct ImportOutput {
    /// The validated document.
    pub root: Document,
    /// The resolved bytes of each buffer entry, in document order.
    pub buffers: Vec<Vec<u8>>,
    /// The decoded form of each image entry, in document order.
    pub images: Vec<DecodedImage>,
}

/// Resolve and decode a document against already fetched bytes: check
/// that every buffer and image can be resolved, hand every buffer its
/// bytes, decode every image, and assemble the result. Pure apart from
/// its inputs, so its outcome is a function of document, fetched bytes
/// and embedded payload alone.
pub fn resolve_and_decode<E>(
    doc: Document,
    plan: Vec<String>,
    results: Vec<Vec<u8>>,
    embedded: Option<Vec<u8>>,
) -> (r: Result<ImportOutput, Error<E>>)
    requires
        abs_strs(plan@) == dedup(referenced_uris(doc)),
        results@.len() == plan@.len(),
    ensures
        resolve_violations(doc, embedded is Some).len() > 0 ==> (r matches Err(
            Error::Validation(v),
        ) && matches_abs(v@, resolve_violations(doc, embedded is Some))),
        resolve_violations(doc, embedded is Some).len() == 0 ==> {
            let pl = abs_strs(plan@);
            let rs = abs_bufs(results@);
            let em = abs_opt_bytes(embedded);
            &&& (r is Ok <==> (forall|i: int|
                0 <= i < doc.images@.len() ==> image_outcome_at(doc, pl, rs, em, i) is Some))
            &&& (r matches Ok(out) ==> {
                &&& out.root == doc
                &&& out.buffers@.len() == doc.buffers@.len()
                &&& (forall|i: int|
                    0 <= i < doc.buffers@.len() ==> out.buffers@[i]@ == buffer_data_at(
                        doc,
                        pl,
                        rs,
                        em,
                        i,
                    ))
                &&& out.images@.len() == doc.images@.len()
                &&& (forall|i: int|
                    0 <= i < doc.images@.len() ==> ((#[trigger] image_outcome_at(doc, pl, rs, em, i))
                        matches Some(t) && out.images@[i].width == t.0 && out.images@[i].height
                        == t.1 && out.images@[i].pixels@ == t.2))
            })
            &&& (r matches Err(e) ==> ({
                let fb = first_bad_image_from(doc, pl, rs, em, 0);
                &&& 0 <= fb < doc.images@.len()
                &&& image_outcome_at(doc, pl, rs, em, fb) is None
                &&& (image_bytes_at(doc, pl, rs, em, fb) is None ==> (e matches Error::Validation(
                    v,
                ) && v@.len() == 1 && v@[0].0@ == range_failure_violation(doc, fb).0 && v@[0].1
                    == range_failure_violation(doc, fb).1))
                &&& (image_bytes_at(doc, pl, rs, em, fb) is Some ==> e is Decode)
            }))
        },
{
    let has_embedded = embedded.is_some();
    let rv = resolve_check(&doc, has_embedded);
    if rv.len() > 0 {
        return Err(Error::Validation(rv));
    }
    let bufdata = distribute_buffers(&doc, &plan, &results, &embedded);
    match decode_images(&doc, &plan, &results, &bufdata, &embedded) {
        Ok(images) => Ok(ImportOutput { root: doc, buffers: bufdata, images }),
        Err(e) => Err(e),
    }
}

/// Import a parsed document: validate it under the configured strategy,
/// fetch every referenced URI through the source exactly once, resolve
/// and decode every buffer and image, and assemble the result. `embedded`
/// carries the binary container's payload when the document came from
/// one.
pub fn import<S: Source>(
    parse: Result<Document, JsonError>,
    embedded: Option<Vec<u8>>,
    source: &S,
    config: &Config,
) -> (r: Result<ImportOutput, Error<<S as Source>::Error>>)
    ensures
        parse matches Err(e) ==> (r matches Err(Error::MalformedJson(e2)) && e2 == e),
        parse matches Ok(doc) ==> {
            let rv = resolve_violations(doc, embedded is Some);
            &&& (validation_outcome(doc, config.validation_strategy) matches Some(v) ==> (r
                matches Err(Error::Validation(lst)) && matches_abs(lst@, v)))
            &&& (validation_outcome(doc, config.validation_strategy) is None ==> {
                &&& (rv.len() > 0 ==> (r matches Err(e) && (e is Source || (e matches
                    Error::Validation(lst) && matches_abs(lst@, rv)))))
                &&& (rv.len() == 0 ==> (r matches Err(e) ==> (e is Source || e is Decode || (e
                    matches Error::Validation(lst) && lst@.len() == 1))))
                &&& (r matches Ok(out) ==> out.root == doc && out.buffers@.len()
                    == doc.buffers@.len() && out.images@.len() == doc.images@.len() && rv.len()
                    == 0)
                &&& ((referenced_uris(doc).len() == 0 && rv.len() == 0) ==> {
                    let pl = dedup(referenced_uris(doc));
                    let rs = Seq::<Seq<u8>>::empty();
                    let em = abs_opt_bytes(embedded);
                    &&& (r is Ok <==> (forall|i: int|
                        0 <= i < doc.images@.len() ==> image_outcome_at(doc, pl, rs, em, i)
                            is Some))
                    &&& (r matches Ok(out) ==> (forall|i: int|
                        0 <= i < doc.buffers@.len() ==> out.buffers@[i]@ == buffer_data_at(
                            doc,
                            pl,
                            rs,
                            em,
                            i,
                        )) && (forall|i: int|
                        0 <= i < doc.images@.len() ==> ((#[trigger] image_outcome_at(
                            doc,
                            pl,
                            rs,
                            em,
                            i,
                        )) matches Some(t) && out.images@[i].width == t.0 && out.images@[i].height
                            == t.1 && out.images@[i].pixels@ == t.2)))
                })
            })
        },
{
    let doc = match parse {
        Ok(d) => d,
        Err(e) => {
            return Err(Error::MalformedJson(e));
        },
    };
    match config.validation_strategy {
        ValidationStrategy::Skip => {},
        ValidationStrategy::Minimal => {
            let v = validate_minimal(&doc);
            if v.len() > 0 {
                return Err(Error::Validation(v));
            }
        },
        ValidationStrategy::Complete => {
            let v = validate_complete(&doc);
            if v.len() > 0 {
                return Err(Error::Validation(v));
            }
        },
    }
    let plan = plan_fetches(&doc);
    let ghost gdoc = doc;
    let results = match fetch_all(source, &plan) {
        Ok(v) => v,
        Err(e) => {
            proof {
                if referenced_uris(gdoc).len() == 0 {
                    assert(dedup(referenced_uris(gdoc)) =~= Seq::<Seq<char>>::empty());
                    assert(abs_strs(plan@).len() == 0);
                    assert(false);
                }
            }
            return Err(e);
        },
    };
    proof {
        if referenced_uris(gdoc).len() == 0 {
            assert(dedup(referenced_uris(gdoc)) =~= Seq::<Seq<char>>::empty());
            assert(abs_strs(plan@).len() == 0);
            assert(abs_bufs(results@) =~= Seq::<Seq<u8>>::empty());
        }
    }
    resolve_and_decode(doc, plan, results, embedded)
}

/// Issue one fetch per planned URI, in plan order, stopping at the first
/// failure.
fn fetch_all<S: Source>(source: &S, plan: &Vec<String>) -> (r: Result<
    Vec<Vec<u8>>,
    Error<<S as Source>::Error>,
>)
    ensures
        r matches Ok(v) ==> v@.len() == plan@.len(),
        r matches Err(e) ==> e is Source,
        plan@.len() == 0 ==> r is Ok,
{
    let mut results: Vec<Vec<u8>> = Vec::new();
    let mut k: usize = 0;
    while k < plan.len()
        invariant
            k <= plan@.len(),
            results@.len() == k as int,
        decreases plan@.len() - k,
    {
        match source.source_external_data(plan[k].as_str()) {
            Ok(b) => {
                results.push(b);
            },
            Err(e) => {
                return Err(Error::Source(e));
            },
        }
        k += 1;
    }
    Ok(results)
}

/// The routed form of a fetched root document: the JSON bytes to parse,
/// and the container-embedded payload when the document came packed in a
/// binary container.
#[derive(Debug, PartialEq, Eq)]
pub enum RawDocument {
    /// The document is direct JSON.
    Standard {
        /// The document bytes themselves.
        json: Vec<u8>,
    },
    /// The document came packed in a binary container.
    Binary {
        /// The JSON chunk's payload.
        json: Vec<u8>,
        /// The binary chunk's payload, when the container carries one.
        bin: Option<Vec<u8>>,
    },
}

/// Route a fetched root document by its leading bytes: direct JSON goes
/// through unchanged; a binary container is split into its chunks, and a
/// malformed one is rejected here, before any JSON parse is attempted.
pub fn route_document(root: Vec<u8>) -> (r: Result<RawDocument, String>)
    ensures
        crate::dispatch::spec_dispatch(root@) == crate::dispatch::DocumentKind::Standard ==> (r
            matches Ok(RawDocument::Standard { json }) && json@ == root@),
        crate::dispatch::spec_dispatch(root@) == crate::dispatch::DocumentKind::Binary ==> {
            &&& (crate::glb::glb_well_formed(root@) ==> (r matches Ok(
                RawDocument::Binary { json, bin },
            ) && json@ == crate::glb::glb_json_bytes(root@) && crate::glb::option_bytes_match(
                bin,
                crate::glb::glb_bin_bytes(root@),
            )))
            &&& (!crate::glb::glb_well_formed(root@) ==> r is Err)
        },
{
    match crate::dispatch::dispatch(root.as_slice()) {
        crate::dispatch::DocumentKind::Standard => Ok(RawDocument::Standard { json: root }),
        crate::dispatch::DocumentKind::Binary => match crate::glb::split(root.as_slice()) {
            Ok(parts) => Ok(RawDocument::Binary { json: parts.json, bin: parts.bin }),
            Err(m) => Err(m),
        },
    }
}

/// Fetch the root document through the source and route it. Everything
/// this can fail with is a source failure or a malformed binary
/// container; JSON parsing has not happened yet.
pub fn begin_import<S: Source>(source: &S) -> (r: Result<
    RawDocument,
    Error<<S as Source>::Error>,
>)
    ensures
        r matches Err(e) ==> (e is Source || e is MalformedGlb),
{
    let root = match source.source_gltf() {
        Ok(b) => b,
        Err(e) => {
            return Err(Error::Source(e));
        },
    };
    match route_document(root) {
        Ok(d) => Ok(d),
        Err(m) => Err(Error::MalformedGlb(m)),
    }
}

/// Law: the fetch plan fetches each referenced URI exactly once: it
/// contains every URI the document references, and no URI twice.
pub proof fn lemma_fetch_plan_no_duplicates(doc: Document)
    ensures
        forall|i: int, j: int|
            0 <= i < j < dedup(referenced_uris(doc)).len() ==> #[trigger] dedup(
                referenced_uris(doc),
            )[i] != #[trigger] dedup(referenced_uris(doc))[j],
        forall|u: Seq<char>| #[trigger]
            dedup(referenced_uris(doc)).contains(u) <==> referenced_uris(doc).contains(u),
{
    lemma_dedup_no_dups(referenced_uris(doc));
    assert forall|u: Seq<char>| #[trigger]
        dedup(referenced_uris(doc)).contains(u) <==> referenced_uris(doc).contains(u) by {
        lemma_dedup_contains(referenced_uris(doc), u);
    }
}

/// Law: two buffer entries that name the same URI observe the same
/// fetched bytes.
pub proof fn lemma_shared_fetch_buffers(
    doc: Document,
    plan: Seq<Seq<char>>,
    results: Seq<Seq<u8>>,
    embedded: Option<Seq<u8>>,
    i: int,
    j: int,
)
    requires
        0 <= i < doc.buffers@.len(),
        0 <= j < doc.buffers@.len(),
        match (doc.buffers@[i].uri, doc.buffers@[j].uri) {
            (Some(a), Some(b)) => a@ == b@,
            _ => false,
        },
    ensures
        buffer_data_at(doc, plan, results, embedded, i) == buffer_data_at(
            doc,
            plan,
            results,
            embedded,
            j,
        ),
{
}

/// Law: a buffer entry and an owned image entry that name the same URI
/// observe the same fetched bytes.
pub proof fn lemma_shared_fetch_buffer_image(
    doc: Document,
    plan: Seq<Seq<char>>,
    results: Seq<Seq<u8>>,
    embedded: Option<Seq<u8>>,
    i: int,
    k: int,
)
    requires
        plan == dedup(referenced_uris(doc)),
        0 <= i < doc.buffers@.len(),
        0 <= k < doc.images@.len(),
        match (doc.buffers@[i].uri, doc.images@[k].uri) {
            (Some(a), Some(b)) => a@ == b@,
            _ => false,
        },
    ensures
        image_bytes_at(doc, plan, results, embedded, k) == Some(
            buffer_data_at(doc, plan, results, embedded, i),
        ),
{
    match (doc.buffers@[i].uri, doc.images@[k].uri) {
        (Some(a), Some(b)) => {
            lemma_buffer_uri_referenced(doc, i);
            lemma_dedup_contains(referenced_uris(doc), a@);
        },
        _ => {},
    }
}

/// Law: borrowed image decoding is deterministic in the buffer bytes:
/// the pipeline's outcome for a borrowed image is exactly the decode of
/// the byte range sliced out of its buffer, under its declared format.
pub proof fn lemma_borrowed_decode_deterministic(
    doc: Document,
    plan: Seq<Seq<char>>,
    results: Seq<Seq<u8>>,
    embedded: Option<Seq<u8>>,
    i: int,
)
    requires
        0 <= i < doc.images@.len(),
        doc.images@[i].uri is None,
    ensures
        match doc.images@[i].buffer_view {
            Some(bv) => (bv < doc.buffer_views@.len() && doc.buffer_views@[bv as int].buffer
                < doc.buffers@.len()) ==> {
                let v = doc.buffer_views@[bv as int];
                let b = buffer_data_at(doc, plan, results, embedded, v.buffer as int);
                (v.byte_offset + v.byte_length <= b.len()) ==> image_outcome_at(
                    doc,
                    plan,
                    results,
                    embedded,
                    i,
                ) == spec_decoded(
                    b.subrange(v.byte_offset as int, v.byte_offset + v.byte_length),
                    image_format_at(doc, i),
                )
            },
            None => true,
        },
{
}

/// Law: a document declaring no buffers and no images references no URI,
/// so its import plans no fetch at all, and it resolves trivially.
pub proof fn lemma_empty_document_trivial(doc: Document, has_embedded: bool)
    requires
        doc.buffers@.len() == 0,
        doc.images@.len() == 0,
    ensures
        referenced_uris(doc) == Seq::<Seq<char>>::empty(),
        dedup(referenced_uris(doc)) == Seq::<Seq<char>>::empty(),
        resolve_violations(doc, has_embedded).len() == 0,
{
    assert(referenced_uris(doc) =~= Seq::<Seq<char>>::empty());
}

} // verus!
