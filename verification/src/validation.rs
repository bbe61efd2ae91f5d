//! Validation of the parsed document: a structural walk that collects every
//! violation, each tagged with the JSON path locating the offending value.
//! Validation never fails fast: callers receive the complete diagnostic set.

use vstd::prelude::*;

use crate::config::ValidationStrategy;
use crate::document::Document;

verus! {

/// A JSON field name that can appear in a violation path.
#[derive(Clone, Copy, Debug, PartialEq, Eq, Structural)]
pub enum Field {
    Asset,
    Version,
    Buffers,
    BufferViews,
    Images,
    Buffer,
    BufferView,
    MimeType,
    Uri,
}

/// One accessor in a JSON path: a field name or an array index.
#[derive(Clone, Copy, Debug, PartialEq, Eq, Structural)]
pub enum PathSeg {
    Name(Field),
    Index(usize),
}

/// A sequence of accessors locating a value inside the JSON document.
#[derive(Clone, Debug, PartialEq, Eq)]
pub struct JsonPath {
    pub segs: Vec<PathSeg>,
}

impl View for JsonPath {
    type V = Seq<PathSeg>;

    open spec fn view(&self) -> Seq<PathSeg> {
        self.segs@
    }
}

/// The structured kind of one schema violation.
#[derive(Clone, Copy, Debug, PartialEq, Eq, Structural)]
pub enum ValidationErrorKind {
    /// An index or byte range points outside what it indexes.
    IndexOutOfBounds,
    /// Required data is absent.
    Missing,
    /// A value is present but not acceptable.
    Invalid,
}

/// A violation as the mathematical model states it: the path's view paired
/// with the violation kind.
pub type AbsViolation = (Seq<PathSeg>, ValidationErrorKind);

/// Whether the collected violation list `v` matches the modelled list `a`,
/// entry by entry.
pub open spec fn matches_abs(v: Seq<(JsonPath, ValidationErrorKind)>, a: Seq<AbsViolation>) -> bool {
    &&& v.len() == a.len()
    &&& forall|k: int|
        0 <= k < v.len() ==> (#[trigger] v[k]).0@ == a[k].0 && v[k].1 == a[k].1
}

/// The path `group[idx]`.
pub open spec fn group_entry_path(group: Field, idx: int) -> Seq<PathSeg> {
    seq![PathSeg::Name(group), PathSeg::Index(idx as usize)]
}

/// The path `group[idx].leaf`.
pub open spec fn group_entry_field_path(group: Field, idx: int, leaf: Field) -> Seq<PathSeg> {
    seq![PathSeg::Name(group), PathSeg::Index(idx as usize), PathSeg::Name(leaf)]
}

/// The path `asset.version`.
pub open spec fn asset_version_path() -> Seq<PathSeg> {
    seq![PathSeg::Name(Field::Asset), PathSeg::Name(Field::Version)]
}

pub(crate) fn make_entry_path(group: Field, idx: usize) -> (p: JsonPath)
    ensures
        p@ == group_entry_path(group, idx as int),
{
    let mut segs: Vec<PathSeg> = Vec::new();
    segs.push(PathSeg::Name(group));
    segs.push(PathSeg::Index(idx));
    proof {
        assert(segs@ =~= group_entry_path(group, idx as int));
    }
    JsonPath { segs }
}

pub(crate) fn make_entry_field_path(group: Field, idx: usize, leaf: Field) -> (p: JsonPath)
    ensures
        p@ == group_entry_field_path(group, idx as int, leaf),
{
    let mut segs: Vec<PathSeg> = Vec::new();
    segs.push(PathSeg::Name(group));
    segs.push(PathSeg::Index(idx));
    segs.push(PathSeg::Name(leaf));
    proof {
        assert(segs@ =~= group_entry_field_path(group, idx as int, leaf));
    }
    JsonPath { segs }
}

fn make_asset_version_path() -> (p: JsonPath)
    ensures
        p@ == asset_version_path(),
{
    let mut segs: Vec<PathSeg> = Vec::new();
    segs.push(PathSeg::Name(Field::Asset));
    segs.push(PathSeg::Name(Field::Version));
    proof {
        assert(segs@ =~= asset_version_path());
    }
    JsonPath { segs }
}

/// The violations contributed by buffer view `j`: its buffer index must be
/// in range, and its byte range must lie inside that buffer's declared
/// length.
pub open spec fn view_entry_violations(doc: Document, j: int) -> Seq<AbsViolation>
    recommends
        0 <= j < doc.buffer_views@.len(),
{
    let bv = doc.buffer_views@[j];
    if bv.buffer >= doc.buffers@.len() {
        seq![
            (
                group_entry_field_path(Field::BufferViews, j, Field::Buffer),
                ValidationErrorKind::IndexOutOfBounds,
            ),
        ]
    } else if bv.byte_offset + bv.byte_length > doc.buffers@[bv.buffer as int].byte_length {
        seq![(group_entry_path(Field::BufferViews, j), ValidationErrorKind::IndexOutOfBounds)]
    } else {
        Seq::empty()
    }
}

/// The violations contributed by image `i`: it must name exactly one data
/// source; a borrowed image must name an existing buffer view and carry a
/// MIME type; any declared MIME type must be one the importer can decode.
pub open spec fn image_entry_violations(doc: Document, i: int) -> Seq<AbsViolation>
    recommends
        0 <= i < doc.images@.len(),
{
    let img = doc.images@[i];
    let source_part = if img.uri is Some && img.buffer_view is Some {
        seq![(group_entry_path(Field::Images, i), ValidationErrorKind::Invalid)]
    } else if img.uri is None && img.buffer_view is None {
        seq![(group_entry_path(Field::Images, i), ValidationErrorKind::Missing)]
    } else {
        Seq::<AbsViolation>::empty()
    };
    let view_part = if img.uri is None && (img.buffer_view matches Some(bv) && bv
        >= doc.buffer_views@.len()) {
        seq![
            (
                group_entry_field_path(Field::Images, i, Field::BufferView),
                ValidationErrorKind::IndexOutOfBounds,
            ),
        ]
    } else {
        Seq::<AbsViolation>::empty()
    };
    let mime_part = if img.uri is None && img.buffer_view is Some && img.mime_type is None {
        seq![
            (group_entry_field_path(Field::Images, i, Field::MimeType), ValidationErrorKind::Missing),
        ]
    } else if img.mime_type matches Some(m) && m.spec_format() is None {
        seq![
            (group_entry_field_path(Field::Images, i, Field::MimeType), ValidationErrorKind::Invalid),
        ]
    } else {
        Seq::<AbsViolation>::empty()
    };
    source_part + view_part + mime_part
}

/// The violations of the first `n` buffer views, in document order.
pub open spec fn view_violations_upto(doc: Document, n: int) -> Seq<AbsViolation>
    decreases n,
{
    if n <= 0 {
        Seq::empty()
    } else {
        view_violations_upto(doc, n - 1) + view_entry_violations(doc, n - 1)
    }
}

/// The violations of the first `n` images, in document order.
pub open spec fn image_violations_upto(doc: Document, n: int) -> Seq<AbsViolation>
    decreases n,
{
    if n <= 0 {
        Seq::empty()
    } else {
        image_violations_upto(doc, n - 1) + image_entry_violations(doc, n - 1)
    }
}

/// The reduced rule set: every check needed so that following the
/// document's indices and byte ranges is safe.
pub open spec fn minimal_violations(doc: Document) -> Seq<AbsViolation> {
    view_violations_upto(doc, doc.buffer_views@.len() as int) + image_violations_upto(
        doc,
        doc.images@.len() as int,
    )
}

/// The violations contributed by the asset's declared version: it must be
/// present, and its major version must be the supported one.
pub open spec fn version_violations(doc: Document) -> Seq<AbsViolation> {
    match doc.asset_version {
        None => seq![(asset_version_path(), ValidationErrorKind::Missing)],
        Some(v) => if v.0 != 2 {
            seq![(asset_version_path(), ValidationErrorKind::Invalid)]
        } else {
            Seq::empty()
        },
    }
}

/// The full rule set: everything the minimal set checks, plus the semantic
/// checks on the asset's declared version.
pub open spec fn complete_violations(doc: Document) -> Seq<AbsViolation> {
    minimal_violations(doc) + version_violations(doc)
}

/// The outcome of the validation stage under a given strategy: `None` when
/// the document passes, otherwise the complete ordered violation list.
pub open spec fn validation_outcome(doc: Document, s: ValidationStrategy) -> Option<
    Seq<AbsViolation>,
> {
    match s {
        ValidationStrategy::Skip => None,
        ValidationStrategy::Minimal => if minimal_violations(doc).len() == 0 {
            None
        } else {
            Some(minimal_violations(doc))
        },
        ValidationStrategy::Complete => if complete_violations(doc).len() == 0 {
            None
        } else {
            Some(complete_violations(doc))
        },
    }
}

/// Run the reduced rule set and collect every violation, in document order.
pub fn validate_minimal(doc: &Document) -> (r: Vec<(JsonPath, ValidationErrorKind)>)
    ensures
        matches_abs(r@, minimal_violations(*doc)),
{
    let mut r: Vec<(JsonPath, ValidationErrorKind)> = Vec::new();
    let mut j: usize = 0;
    while j < doc.buffer_views.len()
        invariant
            j <= doc.buffer_views@.len(),
            matches_abs(r@, view_violations_upto(*doc, j as int)),
        decreases doc.buffer_views@.len() - j,
    {
        let bv = doc.buffer_views[j];
        if bv.buffer >= doc.buffers.len() {
            r.push(
                (
                    make_entry_field_path(Field::BufferViews, j, Field::Buffer),
                    ValidationErrorKind::IndexOutOfBounds,
                ),
            );
        } else {
            let declared = doc.buffers[bv.buffer].byte_length;
            if bv.byte_length > declared || bv.byte_offset > declared - bv.byte_length {
                r.push(
                    (
                        make_entry_path(Field::BufferViews, j),
                        ValidationErrorKind::IndexOutOfBounds,
                    ),
                );
            }
        }
        j += 1;
    }
    let mut i: usize = 0;
    while i < doc.images.len()
        invariant
            i <= doc.images@.len(),
            matches_abs(
                r@,
                view_violations_upto(*doc, doc.buffer_views@.len() as int)
                    + image_violations_upto(*doc, i as int),
            ),
        decreases doc.images@.len() - i,
    {
        let img = &doc.images[i];
        if img.uri.is_some() && img.buffer_view.is_some() {
            r.push((make_entry_path(Field::Images, i), ValidationErrorKind::Invalid));
        } else if img.uri.is_none() && img.buffer_view.is_none() {
            r.push((make_entry_path(Field::Images, i), ValidationErrorKind::Missing));
        }
        if img.uri.is_none() {
            match img.buffer_view {
                Some(bv) => {
                    if bv >= doc.buffer_views.len() {
                        r.push(
                            (
                                make_entry_field_path(Field::Images, i, Field::BufferView),
                                ValidationErrorKind::IndexOutOfBounds,
                            ),
                        );
                    }
                },
                None => {},
            }
        }
        let borrowed = img.uri.is_none() && img.buffer_view.is_some();
        match &img.mime_type {
            Some(m) => {
                if m.format().is_none() {
                    r.push(
                        (
                            make_entry_field_path(Field::Images, i, Field::MimeType),
                            ValidationErrorKind::Invalid,
                        ),
                    );
                }
            },
            None => {
                if borrowed {
                    r.push(
                        (
                            make_entry_field_path(Field::Images, i, Field::MimeType),
                            ValidationErrorKind::Missing,
                        ),
                    );
                }
            },
        }
        i += 1;
    }
    r
}

/// Run the full rule set and collect every violation, in document order.
pub fn validate_complete(doc: &Document) -> (r: Vec<(JsonPath, ValidationErrorKind)>)
    ensures
        matches_abs(r@, complete_violations(*doc)),
{
    let mut r = validate_minimal(doc);
    match doc.asset_version {
        None => {
            r.push((make_asset_version_path(), ValidationErrorKind::Missing));
        },
        Some(v) => {
            if v.0 != 2 {
                r.push((make_asset_version_path(), ValidationErrorKind::Invalid));
            }
        },
    }
    r
}

/// Law: skipping validation accepts every document.
pub proof fn lemma_skip_accepts_all(doc: Document)
    ensures
        validation_outcome(doc, ValidationStrategy::Skip) is None,
{
}

/// Law: a document with at least one violation of the reduced rule set
/// fails under both checking strategies, the reported list is non-empty,
/// and the complete list repeats every minimal violation, in order, with
/// no truncation.
pub proof fn lemma_violations_fail_both_strategies(doc: Document)
    requires
        minimal_violations(doc).len() > 0,
    ensures
        validation_outcome(doc, ValidationStrategy::Minimal) matches Some(v) && v
            == minimal_violations(doc),
        validation_outcome(doc, ValidationStrategy::Complete) matches Some(w) && w.len()
            >= minimal_violations(doc).len() && (forall|k: int|
            0 <= k < minimal_violations(doc).len() ==> w[k] == minimal_violations(doc)[k]),
{
    assert(complete_violations(doc).len() >= minimal_violations(doc).len());
}

} // verus!
