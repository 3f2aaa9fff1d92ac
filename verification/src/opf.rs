//! Package document parser: the metadata block (title, creators, date,
//! identifier), the manifest of declared resources, the reading-order spine,
//! and the cover reference.

use vstd::prelude::*;

use crate::bytes::{
    bytes_eq, contains_sub, copy_range, find_sub, first_match, has_sub,
    lemma_first_match_some, trim_copy, trim_spec,
};
use crate::errors::{EpubError, MetadataError, XmlParseError};
use crate::xml::{
    attr_from, elem_text_from, find_attr, find_elem_text, find_tag, lemma_elem_text_bounds,
    lemma_tag_from_some, tag_from,
};

verus! {

/// Bytes of `<dc:title`.
pub open spec fn spec_pat_dc_title_open() -> Seq<u8> {
    seq![60u8, 100u8, 99u8, 58u8, 116u8, 105u8, 116u8, 108u8, 101u8]
}

/// Builds the `<dc:title` pattern.
pub fn pat_dc_title_open() -> (r: Vec<u8>)
    ensures
        r@ == spec_pat_dc_title_open(),
{
    vec![60u8, 100u8, 99u8, 58u8, 116u8, 105u8, 116u8, 108u8, 101u8]
}

/// Bytes of `</dc:title>`.
pub open spec fn spec_pat_dc_title_close() -> Seq<u8> {
    seq![60u8, 47u8, 100u8, 99u8, 58u8, 116u8, 105u8, 116u8, 108u8, 101u8, 62u8]
}

/// Builds the `</dc:title>` pattern.
pub fn pat_dc_title_close() -> (r: Vec<u8>)
    ensures
        r@ == spec_pat_dc_title_close(),
{
    vec![60u8, 47u8, 100u8, 99u8, 58u8, 116u8, 105u8, 116u8, 108u8, 101u8, 62u8]
}

/// Bytes of `<dc:creator`.
pub open spec fn spec_pat_dc_creator_open() -> Seq<u8> {
    seq![60u8, 100u8, 99u8, 58u8, 99u8, 114u8, 101u8, 97u8, 116u8, 111u8, 114u8]
}

/// Builds the `<dc:creator` pattern.
pub fn pat_dc_creator_open() -> (r: Vec<u8>)
    ensures
        r@ == spec_pat_dc_creator_open(),
{
    vec![60u8, 100u8, 99u8, 58u8, 99u8, 114u8, 101u8, 97u8, 116u8, 111u8, 114u8]
}

/// Bytes of `</dc:creator>`.
pub open spec fn spec_pat_dc_creator_close() -> Seq<u8> {
    seq![60u8, 47u8, 100u8, 99u8, 58u8, 99u8, 114u8, 101u8, 97u8, 116u8, 111u8, 114u8, 62u8]
}

/// Builds the `</dc:creator>` pattern.
pub fn pat_dc_creator_close() -> (r: Vec<u8>)
    ensures
        r@ == spec_pat_dc_creator_close(),
{
    vec![60u8, 47u8, 100u8, 99u8, 58u8, 99u8, 114u8, 101u8, 97u8, 116u8, 111u8, 114u8, 62u8]
}

/// Bytes of `<dc:date`.
pub open spec fn spec_pat_dc_date_open() -> Seq<u8> {
    seq![60u8, 100u8, 99u8, 58u8, 100u8, 97u8, 116u8, 101u8]
}

/// Builds the `<dc:date` pattern.
pub fn pat_dc_date_open() -> (r: Vec<u8>)
    ensures
        r@ == spec_pat_dc_date_open(),
{
    vec![60u8, 100u8, 99u8, 58u8, 100u8, 97u8, 116u8, 101u8]
}

/// Bytes of `</dc:date>`.
pub open spec fn spec_pat_dc_date_close() -> Seq<u8> {
    seq![60u8, 47u8, 100u8, 99u8, 58u8, 100u8, 97u8, 116u8, 101u8, 62u8]
}

/// Builds the `</dc:date>` pattern.
pub fn pat_dc_date_close() -> (r: Vec<u8>)
    ensures
        r@ == spec_pat_dc_date_close(),
{
    vec![60u8, 47u8, 100u8, 99u8, 58u8, 100u8, 97u8, 116u8, 101u8, 62u8]
}

/// Bytes of `<dc:identifier`.
pub open spec fn spec_pat_dc_identifier_open() -> Seq<u8> {
    seq![60u8, 100u8, 99u8, 58u8, 105u8, 100u8, 101u8, 110u8, 116u8, 105u8, 102u8, 105u8, 101u8, 114u8]
}

/// Builds the `<dc:identifier` pattern.
pub fn pat_dc_identifier_open() -> (r: Vec<u8>)
    ensures
        r@ == spec_pat_dc_identifier_open(),
{
    vec![60u8, 100u8, 99u8, 58u8, 105u8, 100u8, 101u8, 110u8, 116u8, 105u8, 102u8, 105u8, 101u8, 114u8]
}

/// Bytes of `</dc:identifier>`.
pub open spec fn spec_pat_dc_identifier_close() -> Seq<u8> {
    seq![60u8, 47u8, 100u8, 99u8, 58u8, 105u8, 100u8, 101u8, 110u8, 116u8, 105u8, 102u8, 105u8, 101u8, 114u8, 62u8]
}

/// Builds the `</dc:identifier>` pattern.
pub fn pat_dc_identifier_close() -> (r: Vec<u8>)
    ensures
        r@ == spec_pat_dc_identifier_close(),
{
    vec![60u8, 47u8, 100u8, 99u8, 58u8, 105u8, 100u8, 101u8, 110u8, 116u8, 105u8, 102u8, 105u8, 101u8, 114u8, 62u8]
}

/// Bytes of `<item`.
pub open spec fn spec_pat_item() -> Seq<u8> {
    seq![60u8, 105u8, 116u8, 101u8, 109u8]
}

/// Builds the `<item` pattern.
pub fn pat_item() -> (r: Vec<u8>)
    ensures
        r@ == spec_pat_item(),
{
    vec![60u8, 105u8, 116u8, 101u8, 109u8]
}

/// Bytes of `<itemref`.
pub open spec fn spec_pat_itemref() -> Seq<u8> {
    seq![60u8, 105u8, 116u8, 101u8, 109u8, 114u8, 101u8, 102u8]
}

/// Builds the `<itemref` pattern.
pub fn pat_itemref() -> (r: Vec<u8>)
    ensures
        r@ == spec_pat_itemref(),
{
    vec![60u8, 105u8, 116u8, 101u8, 109u8, 114u8, 101u8, 102u8]
}

/// Bytes of `<meta`.
pub open spec fn spec_pat_meta() -> Seq<u8> {
    seq![60u8, 109u8, 101u8, 116u8, 97u8]
}

/// Builds the `<meta` pattern.
pub fn pat_meta() -> (r: Vec<u8>)
    ensures
        r@ == spec_pat_meta(),
{
    vec![60u8, 109u8, 101u8, 116u8, 97u8]
}

/// Bytes of `id`.
pub open spec fn spec_pat_attr_id() -> Seq<u8> {
    seq![105u8, 100u8]
}

/// Builds the `id` pattern.
pub fn pat_attr_id() -> (r: Vec<u8>)
    ensures
        r@ == spec_pat_attr_id(),
{
    vec![105u8, 100u8]
}

/// Bytes of `href`.
pub open spec fn spec_pat_attr_href() -> Seq<u8> {
    seq![104u8, 114u8, 101u8, 102u8]
}

/// Builds the `href` pattern.
pub fn pat_attr_href() -> (r: Vec<u8>)
    ensures
        r@ == spec_pat_attr_href(),
{
    vec![104u8, 114u8, 101u8, 102u8]
}

/// Bytes of `media-type`.
pub open spec fn spec_pat_attr_media_type() -> Seq<u8> {
    seq![109u8, 101u8, 100u8, 105u8, 97u8, 45u8, 116u8, 121u8, 112u8, 101u8]
}

/// Builds the `media-type` pattern.
pub fn pat_attr_media_type() -> (r: Vec<u8>)
    ensures
        r@ == spec_pat_attr_media_type(),
{
    vec![109u8, 101u8, 100u8, 105u8, 97u8, 45u8, 116u8, 121u8, 112u8, 101u8]
}

/// Bytes of `properties`.
pub open spec fn spec_pat_attr_properties() -> Seq<u8> {
    seq![112u8, 114u8, 111u8, 112u8, 101u8, 114u8, 116u8, 105u8, 101u8, 115u8]
}

/// Builds the `properties` pattern.
pub fn pat_attr_properties() -> (r: Vec<u8>)
    ensures
        r@ == spec_pat_attr_properties(),
{
    vec![112u8, 114u8, 111u8, 112u8, 101u8, 114u8, 116u8, 105u8, 101u8, 115u8]
}

/// Bytes of `idref`.
pub open spec fn spec_pat_attr_idref() -> Seq<u8> {
    seq![105u8, 100u8, 114u8, 101u8, 102u8]
}

/// Builds the `idref` pattern.
pub fn pat_attr_idref() -> (r: Vec<u8>)
    ensures
        r@ == spec_pat_attr_idref(),
{
    vec![105u8, 100u8, 114u8, 101u8, 102u8]
}

/// Bytes of `name`.
pub open spec fn spec_pat_attr_name() -> Seq<u8> {
    seq![110u8, 97u8, 109u8, 101u8]
}

/// Builds the `name` pattern.
pub fn pat_attr_name() -> (r: Vec<u8>)
    ensures
        r@ == spec_pat_attr_name(),
{
    vec![110u8, 97u8, 109u8, 101u8]
}

/// Bytes of `content`.
pub open spec fn spec_pat_attr_content() -> Seq<u8> {
    seq![99u8, 111u8, 110u8, 116u8, 101u8, 110u8, 116u8]
}

/// Builds the `content` pattern.
pub fn pat_attr_content() -> (r: Vec<u8>)
    ensures
        r@ == spec_pat_attr_content(),
{
    vec![99u8, 111u8, 110u8, 116u8, 101u8, 110u8, 116u8]
}

/// Bytes of `full-path`.
pub open spec fn spec_pat_attr_full_path() -> Seq<u8> {
    seq![102u8, 117u8, 108u8, 108u8, 45u8, 112u8, 97u8, 116u8, 104u8]
}

/// Builds the `full-path` pattern.
pub fn pat_attr_full_path() -> (r: Vec<u8>)
    ensures
        r@ == spec_pat_attr_full_path(),
{
    vec![102u8, 117u8, 108u8, 108u8, 45u8, 112u8, 97u8, 116u8, 104u8]
}

/// Bytes of `cover`.
pub open spec fn spec_pat_val_cover() -> Seq<u8> {
    seq![99u8, 111u8, 118u8, 101u8, 114u8]
}

/// Builds the `cover` pattern.
pub fn pat_val_cover() -> (r: Vec<u8>)
    ensures
        r@ == spec_pat_val_cover(),
{
    vec![99u8, 111u8, 118u8, 101u8, 114u8]
}

/// Bytes of `cover-image`.
pub open spec fn spec_pat_val_cover_image() -> Seq<u8> {
    seq![99u8, 111u8, 118u8, 101u8, 114u8, 45u8, 105u8, 109u8, 97u8, 103u8, 101u8]
}

/// Builds the `cover-image` pattern.
pub fn pat_val_cover_image() -> (r: Vec<u8>)
    ensures
        r@ == spec_pat_val_cover_image(),
{
    vec![99u8, 111u8, 118u8, 101u8, 114u8, 45u8, 105u8, 109u8, 97u8, 103u8, 101u8]
}

/// Copy of a byte vector.
pub fn clone_bytes(v: &Vec<u8>) -> (r: Vec<u8>)
    ensures
        r@ == v@,
{
    let r = copy_range(v, 0, v.len());
    proof {
        assert(v@.subrange(0, v@.len() as int) =~= v@);
    }
    r
}

/// One manifest resource: an identifier, a reference relative to the package
/// document's directory, the declared media type, and its properties.
#[derive(Debug)]
pub struct ManifestEntry {
    pub id: Vec<u8>,
    pub href: Vec<u8>,
    pub media_type: Vec<u8>,
    pub properties: Vec<u8>,
}

/// The mathematical value of a manifest entry.
#[verifier::ext_equal]
pub struct ManifestEntryV {
    pub id: Seq<u8>,
    pub href: Seq<u8>,
    pub media_type: Seq<u8>,
    pub properties: Seq<u8>,
}

impl View for ManifestEntry {
    type V = ManifestEntryV;

    open spec fn view(&self) -> ManifestEntryV {
        ManifestEntryV {
            id: self.id@,
            href: self.href@,
            media_type: self.media_type@,
            properties: self.properties@,
        }
    }
}

impl DeepView for ManifestEntry {
    type V = ManifestEntryV;

    open spec fn deep_view(&self) -> ManifestEntryV {
        self.view()
    }
}

/// The trimmed text of the first element opened by `open`, if any such
/// element is declared.
pub open spec fn first_text(doc: Seq<u8>, open: Seq<u8>, close: Seq<u8>) -> Result<
    Option<Seq<u8>>,
    XmlParseError,
> {
    match elem_text_from(doc, open, close, 0) {
        Err(e) => Err(e),
        Ok(None) => Ok(None),
        Ok(Some(v)) => Ok(Some(trim_spec(doc, v.0, v.1))),
    }
}

/// The trimmed texts of all creator elements at or after `pos`, in document
/// order.
pub open spec fn creators_from(doc: Seq<u8>, pos: int) -> Result<Seq<Seq<u8>>, XmlParseError>
    decreases doc.len() - pos
        when 0 <= pos
        via creators_from_dec
{
    match elem_text_from(doc, spec_pat_dc_creator_open(), spec_pat_dc_creator_close(), pos) {
        Err(e) => Err(e),
        Ok(None) => Ok(Seq::<Seq<u8>>::empty()),
        Ok(Some(v)) => match creators_from(doc, v.1) {
            Err(e) => Err(e),
            Ok(rest) => Ok(seq![trim_spec(doc, v.0, v.1)] + rest),
        },
    }
}

#[via_fn]
proof fn creators_from_dec(doc: Seq<u8>, pos: int) {
    lemma_elem_text_bounds(doc, spec_pat_dc_creator_open(), spec_pat_dc_creator_close(), pos);
}

/// The manifest entry assembled from attribute value ranges of the document.
pub open spec fn item_of(
    doc: Seq<u8>,
    idr: (int, int),
    hr: (int, int),
    mt: Option<(int, int)>,
    pr: Option<(int, int)>,
) -> ManifestEntryV {
    ManifestEntryV {
        id: doc.subrange(idr.0, idr.1),
        href: doc.subrange(hr.0, hr.1),
        media_type: match mt {
            Some(v) => doc.subrange(v.0, v.1),
            None => Seq::<u8>::empty(),
        },
        properties: match pr {
            Some(v) => doc.subrange(v.0, v.1),
            None => Seq::<u8>::empty(),
        },
    }
}

/// The manifest entries declared at or after `pos`: every `item` tag holding
/// both an `id` and an `href` attribute, in document order.
pub open spec fn items_from(doc: Seq<u8>, pos: int) -> Result<Seq<ManifestEntryV>, XmlParseError>
    decreases doc.len() - pos
        when 0 <= pos
        via items_from_dec
{
    match tag_from(doc, spec_pat_item(), pos) {
        None => Ok(Seq::<ManifestEntryV>::empty()),
        Some(i) => match first_match(doc, seq![62u8], i) {
            None => Err(XmlParseError::Malformed),
            Some(g) => match items_from(doc, g + 1) {
                Err(e) => Err(e),
                Ok(rest) => match (
                    attr_from(doc, spec_pat_attr_id(), i, g),
                    attr_from(doc, spec_pat_attr_href(), i, g),
                ) {
                    (Some(idr), Some(hr)) => Ok(
                        seq![
                            item_of(
                                doc,
                                idr,
                                hr,
                                attr_from(doc, spec_pat_attr_media_type(), i, g),
                                attr_from(doc, spec_pat_attr_properties(), i, g),
                            ),
                        ] + rest,
                    ),
                    _ => Ok(rest),
                },
            },
        },
    }
}

#[via_fn]
proof fn items_from_dec(doc: Seq<u8>, pos: int) {
    match tag_from(doc, spec_pat_item(), pos) {
        Some(i) => {
            lemma_tag_from_some(doc, spec_pat_item(), pos, i);
            match first_match(doc, seq![62u8], i) {
                Some(g) => lemma_first_match_some(doc, seq![62u8], i, g),
                None => (),
            }
        },
        None => (),
    }
}

/// The spine references declared at or after `pos`: the `idref` value of
/// every `itemref` tag, in document order.
pub open spec fn spine_from(doc: Seq<u8>, pos: int) -> Result<Seq<Seq<u8>>, XmlParseError>
    decreases doc.len() - pos
        when 0 <= pos
        via spine_from_dec
{
    match tag_from(doc, spec_pat_itemref(), pos) {
        None => Ok(Seq::<Seq<u8>>::empty()),
        Some(i) => match first_match(doc, seq![62u8], i) {
            None => Err(XmlParseError::Malformed),
            Some(g) => match spine_from(doc, g + 1) {
                Err(e) => Err(e),
                Ok(rest) => match attr_from(doc, spec_pat_attr_idref(), i, g) {
                    Some(v) => Ok(seq![doc.subrange(v.0, v.1)] + rest),
                    None => Ok(rest),
                },
            },
        },
    }
}

#[via_fn]
proof fn spine_from_dec(doc: Seq<u8>, pos: int) {
    match tag_from(doc, spec_pat_itemref(), pos) {
        Some(i) => {
            lemma_tag_from_some(doc, spec_pat_itemref(), pos, i);
            match first_match(doc, seq![62u8], i) {
                Some(g) => lemma_first_match_some(doc, seq![62u8], i, g),
                None => (),
            }
        },
        None => (),
    }
}

/// The `content` value of the first `meta` tag at or after `pos` whose
/// `name` is `cover`, if any.
pub open spec fn cover_meta_from(doc: Seq<u8>, pos: int) -> Result<Option<Seq<u8>>, XmlParseError>
    decreases doc.len() - pos
        when 0 <= pos
        via cover_meta_from_dec
{
    match tag_from(doc, spec_pat_meta(), pos) {
        None => Ok(None),
        Some(i) => match first_match(doc, seq![62u8], i) {
            None => Err(XmlParseError::Malformed),
            Some(g) => {
                let nm = attr_from(doc, spec_pat_attr_name(), i, g);
                let ct = attr_from(doc, spec_pat_attr_content(), i, g);
                if nm is Some && doc.subrange(nm.unwrap().0, nm.unwrap().1)
                    == spec_pat_val_cover() && ct is Some {
                    Ok(Some(doc.subrange(ct.unwrap().0, ct.unwrap().1)))
                } else {
                    cover_meta_from(doc, g + 1)
                }
            },
        },
    }
}

#[via_fn]
proof fn cover_meta_from_dec(doc: Seq<u8>, pos: int) {
    match tag_from(doc, spec_pat_meta(), pos) {
        Some(i) => {
            lemma_tag_from_some(doc, spec_pat_meta(), pos, i);
            match first_match(doc, seq![62u8], i) {
                Some(g) => lemma_first_match_some(doc, seq![62u8], i, g),
                None => (),
            }
        },
        None => (),
    }
}

/// The identifier of the first manifest entry whose properties name the
/// cover image, if any.
pub open spec fn cover_by_properties(items: Seq<ManifestEntryV>) -> Option<Seq<u8>>
    decreases items.len(),
{
    if items.len() == 0 {
        None
    } else if has_sub(items[0].properties, spec_pat_val_cover_image()) {
        Some(items[0].id)
    } else {
        cover_by_properties(items.skip(1))
    }
}

/// Some manifest entry carries this identifier.
pub open spec fn has_item(items: Seq<ManifestEntryV>, id: Seq<u8>) -> bool {
    exists|j: int| 0 <= j < items.len() && items[j].id == id
}

/// Every spine reference names some manifest entry.
pub open spec fn spine_resolves(items: Seq<ManifestEntryV>, spine: Seq<Seq<u8>>) -> bool {
    forall|k: int| 0 <= k < spine.len() ==> has_item(items, #[trigger] spine[k])
}

/// A parsed package document, together with the directory that holds it
/// inside the archive.
#[derive(Debug)]
pub struct Package {
    pub dir: Vec<u8>,
    pub title: Vec<u8>,
    pub authors: Vec<Vec<u8>>,
    pub date: Option<Vec<u8>>,
    pub identifier: Option<Vec<u8>>,
    pub manifest: Vec<ManifestEntry>,
    pub spine: Vec<Vec<u8>>,
    pub cover_id: Option<Vec<u8>>,
}

/// The mathematical value of a parsed package document.
#[verifier::ext_equal]
pub struct PackageV {
    pub dir: Seq<u8>,
    pub title: Seq<u8>,
    pub authors: Seq<Seq<u8>>,
    pub date: Option<Seq<u8>>,
    pub identifier: Option<Seq<u8>>,
    pub manifest: Seq<ManifestEntryV>,
    pub spine: Seq<Seq<u8>>,
    pub cover_id: Option<Seq<u8>>,
}

impl View for Package {
    type V = PackageV;

    open spec fn view(&self) -> PackageV {
        PackageV {
            dir: self.dir@,
            title: self.title@,
            authors: self.authors.deep_view(),
            date: match self.date {
                Some(d) => Some(d@),
                None => None,
            },
            identifier: match self.identifier {
                Some(d) => Some(d@),
                None => None,
            },
            manifest: self.manifest.deep_view(),
            spine: self.spine.deep_view(),
            cover_id: match self.cover_id {
                Some(d) => Some(d@),
                None => None,
            },
        }
    }
}

/// The parse of a package document (with the `dir` field left empty): the
/// required non-empty title, the creators, the optional date and identifier,
/// the manifest, the spine — each of whose references must name a manifest
/// entry — and the cover reference, taken from a `cover` meta entry or,
/// failing that, from a `cover-image` property.
pub open spec fn spec_package(doc: Seq<u8>) -> Result<PackageV, EpubError> {
    match first_text(doc, spec_pat_dc_title_open(), spec_pat_dc_title_close()) {
        Err(e) => Err(EpubError::Xml(e)),
        Ok(None) => Err(EpubError::Metadata(MetadataError::MissingTitle)),
        Ok(Some(title)) => if title.len() == 0 {
            Err(EpubError::Metadata(MetadataError::MissingTitle))
        } else {
            match creators_from(doc, 0) {
                Err(e) => Err(EpubError::Xml(e)),
                Ok(authors) => match first_text(
                    doc,
                    spec_pat_dc_date_open(),
                    spec_pat_dc_date_close(),
                ) {
                    Err(e) => Err(EpubError::Xml(e)),
                    Ok(date) => match first_text(
                        doc,
                        spec_pat_dc_identifier_open(),
                        spec_pat_dc_identifier_close(),
                    ) {
                        Err(e) => Err(EpubError::Xml(e)),
                        Ok(identifier) => match items_from(doc, 0) {
                            Err(e) => Err(EpubError::Xml(e)),
                            Ok(items) => match spine_from(doc, 0) {
                                Err(e) => Err(EpubError::Xml(e)),
                                Ok(spine) => if !spine_resolves(items, spine) {
                                    Err(EpubError::Metadata(MetadataError::DanglingSpineRef))
                                } else {
                                    match cover_meta_from(doc, 0) {
                                        Err(e) => Err(EpubError::Xml(e)),
                                        Ok(cm) => Ok(
                                            PackageV {
                                                dir: Seq::<u8>::empty(),
                                                title,
                                                authors,
                                                date,
                                                identifier,
                                                manifest: items,
                                                spine,
                                                cover_id: match cm {
                                                    Some(c) => Some(c),
                                                    None => cover_by_properties(items),
                                                },
                                            },
                                        ),
                                    }
                                },
                            },
                        },
                    },
                },
            }
        },
    }
}

/// Collects the trimmed texts of all creator elements, in document order.
#[verifier::loop_isolation(false)]
fn parse_creators(doc: &Vec<u8>) -> (r: Result<Vec<Vec<u8>>, XmlParseError>)
    ensures
        match r {
            Ok(v) => creators_from(doc@, 0) == Ok::<Seq<Seq<u8>>, XmlParseError>(v.deep_view()),
            Err(e) => creators_from(doc@, 0) == Err::<Seq<Seq<u8>>, XmlParseError>(e),
        },
{
    let open = pat_dc_creator_open();
    let close = pat_dc_creator_close();
    let mut acc: Vec<Vec<u8>> = Vec::new();
    let mut pos: usize = 0;
    proof {
        assert(acc.deep_view() =~= Seq::<Seq<u8>>::empty());
    }
    loop
        invariant
            pos <= doc@.len(),
            match creators_from(doc@, pos as int) {
                Ok(rest) => creators_from(doc@, 0) == Ok::<Seq<Seq<u8>>, XmlParseError>(
                    acc.deep_view() + rest,
                ),
                Err(e) => creators_from(doc@, 0) == Err::<Seq<Seq<u8>>, XmlParseError>(e),
            },
        decreases doc@.len() - pos,
    {
        match find_elem_text(doc, &open, &close, pos) {
            Err(e) => {
                return Err(e);
            },
            Ok(None) => {
                proof {
                    assert(acc.deep_view() + Seq::<Seq<u8>>::empty() =~= acc.deep_view());
                }
                return Ok(acc);
            },
            Ok(Some(v)) => {
                let t = trim_copy(doc, v.0, v.1);
                let ghost old_acc = acc.deep_view();
                let ghost rest_here = creators_from(doc@, v.1 as int);
                acc.push(t);
                proof {
                    assert(acc.deep_view() =~~= old_acc.push(t@));
                    match rest_here {
                        Ok(rest) => {
                            assert(creators_from(doc@, pos as int) == Ok::<
                                Seq<Seq<u8>>,
                                XmlParseError,
                            >(seq![t@] + rest));
                            assert(old_acc + (seq![t@] + rest) =~= acc.deep_view() + rest);
                        },
                        Err(_) => {},
                    }
                }
                pos = v.1;
            },
        }
    }
}

/// Collects the manifest entries, in document order.
#[verifier::loop_isolation(false)]
fn parse_items(doc: &Vec<u8>) -> (r: Result<Vec<ManifestEntry>, XmlParseError>)
    ensures
        match r {
            Ok(v) => items_from(doc@, 0) == Ok::<Seq<ManifestEntryV>, XmlParseError>(
                v.deep_view(),
            ),
            Err(e) => items_from(doc@, 0) == Err::<Seq<ManifestEntryV>, XmlParseError>(e),
        },
{
    let tag = pat_item();
    let a_id = pat_attr_id();
    let a_href = pat_attr_href();
    let a_mt = pat_attr_media_type();
    let a_pr = pat_attr_properties();
    let n = doc.len();
    let gtp: Vec<u8> = vec![62u8];
    proof {
        assert(gtp@ == seq![62u8]);
    }
    let mut acc: Vec<ManifestEntry> = Vec::new();
    let mut pos: usize = 0;
    proof {
        assert(acc.deep_view() =~= Seq::<ManifestEntryV>::empty());
    }
    loop
        invariant
            pos <= doc@.len(),
            match items_from(doc@, pos as int) {
                Ok(rest) => items_from(doc@, 0) == Ok::<Seq<ManifestEntryV>, XmlParseError>(
                    acc.deep_view() + rest,
                ),
                Err(e) => items_from(doc@, 0) == Err::<Seq<ManifestEntryV>, XmlParseError>(e),
            },
        decreases doc@.len() - pos,
    {
        match find_tag(doc, &tag, pos) {
            None => {
                proof {
                    assert(acc.deep_view() + Seq::<ManifestEntryV>::empty() =~= acc.deep_view());
                }
                return Ok(acc);
            },
            Some(i) => {
                match find_sub(doc, i, &gtp) {
                    None => {
                        return Err(XmlParseError::Malformed);
                    },
                    Some(g) => {
                        proof {
                            lemma_first_match_some(doc@, gtp@, i as int, g as int);
                            assert(g < n);
                        }
                        let id_r = find_attr(doc, &a_id, i, g);
                        let href_r = find_attr(doc, &a_href, i, g);
                        let mt_r = find_attr(doc, &a_mt, i, g);
                        let pr_r = find_attr(doc, &a_pr, i, g);
                        let ghost old_acc = acc.deep_view();
                        let ghost rest_here = items_from(doc@, g + 1);
                        match (id_r, href_r) {
                            (Some(idv), Some(hrv)) => {
                                let e = ManifestEntry {
                                    id: copy_range(doc, idv.0, idv.1),
                                    href: copy_range(doc, hrv.0, hrv.1),
                                    media_type: match mt_r {
                                        Some(mv) => copy_range(doc, mv.0, mv.1),
                                        None => Vec::new(),
                                    },
                                    properties: match pr_r {
                                        Some(pv) => copy_range(doc, pv.0, pv.1),
                                        None => Vec::new(),
                                    },
                                };
                                let ghost ev = item_of(
                                    doc@,
                                    (idv.0 as int, idv.1 as int),
                                    (hrv.0 as int, hrv.1 as int),
                                    match mt_r {
                                        Some(mv) => Some((mv.0 as int, mv.1 as int)),
                                        None => None,
                                    },
                                    match pr_r {
                                        Some(pv) => Some((pv.0 as int, pv.1 as int)),
                                        None => None,
                                    },
                                );
                                proof {
                                    assert(e@ =~= ev);
                                }
                                acc.push(e);
                                proof {
                                    assert(acc.deep_view() =~~= old_acc.push(ev));
                                    match rest_here {
                                        Ok(rest) => {
                                            assert(items_from(doc@, pos as int) == Ok::<
                                                Seq<ManifestEntryV>,
                                                XmlParseError,
                                            >(seq![ev] + rest));
                                            assert(old_acc + (seq![ev] + rest) =~= acc.deep_view()
                                                + rest);
                                        },
                                        Err(_) => {},
                                    }
                                }
                            },
                            _ => {},
                        }
                        pos = g + 1;
                    },
                }
            },
        }
    }
}

/// Collects the spine references, in document order.
#[verifier::loop_isolation(false)]
fn parse_spine(doc: &Vec<u8>) -> (r: Result<Vec<Vec<u8>>, XmlParseError>)
    ensures
        match r {
            Ok(v) => spine_from(doc@, 0) == Ok::<Seq<Seq<u8>>, XmlParseError>(v.deep_view()),
            Err(e) => spine_from(doc@, 0) == Err::<Seq<Seq<u8>>, XmlParseError>(e),
        },
{
    let tag = pat_itemref();
    let a_idref = pat_attr_idref();
    let n = doc.len();
    let gtp: Vec<u8> = vec![62u8];
    proof {
        assert(gtp@ == seq![62u8]);
    }
    let mut acc: Vec<Vec<u8>> = Vec::new();
    let mut pos: usize = 0;
    proof {
        assert(acc.deep_view() =~= Seq::<Seq<u8>>::empty());
    }
    loop
        invariant
            pos <= doc@.len(),
            match spine_from(doc@, pos as int) {
                Ok(rest) => spine_from(doc@, 0) == Ok::<Seq<Seq<u8>>, XmlParseError>(
                    acc.deep_view() + rest,
                ),
                Err(e) => spine_from(doc@, 0) == Err::<Seq<Seq<u8>>, XmlParseError>(e),
            },
        decreases doc@.len() - pos,
    {
        match find_tag(doc, &tag, pos) {
            None => {
                proof {
                    assert(acc.deep_view() + Seq::<Seq<u8>>::empty() =~= acc.deep_view());
                }
                return Ok(acc);
            },
            Some(i) => {
                match find_sub(doc, i, &gtp) {
                    None => {
                        return Err(XmlParseError::Malformed);
                    },
                    Some(g) => {
                        proof {
                            lemma_first_match_some(doc@, gtp@, i as int, g as int);
                            assert(g < n);
                        }
                        let ghost old_acc = acc.deep_view();
                        let ghost rest_here = spine_from(doc@, g + 1);
                        match find_attr(doc, &a_idref, i, g) {
                            Some(v) => {
                                let t = copy_range(doc, v.0, v.1);
                                acc.push(t);
                                proof {
                                    assert(acc.deep_view() =~~= old_acc.push(t@));
                                    match rest_here {
                                        Ok(rest) => {
                                            assert(spine_from(doc@, pos as int) == Ok::<
                                                Seq<Seq<u8>>,
                                                XmlParseError,
                                            >(seq![t@] + rest));
                                            assert(old_acc + (seq![t@] + rest) =~= acc.deep_view()
                                                + rest);
                                        },
                                        Err(_) => {},
                                    }
                                }
                            },
                            None => {},
                        }
                        pos = g + 1;
                    },
                }
            },
        }
    }
}

/// Finds the cover reference declared by a `meta` entry named `cover`.
#[verifier::loop_isolation(false)]
fn parse_cover_meta(doc: &Vec<u8>) -> (r: Result<Option<Vec<u8>>, XmlParseError>)
    ensures
        match r {
            Ok(Some(v)) => cover_meta_from(doc@, 0) == Ok::<Option<Seq<u8>>, XmlParseError>(
                Some(v@),
            ),
            Ok(None) => cover_meta_from(doc@, 0) == Ok::<Option<Seq<u8>>, XmlParseError>(None),
            Err(e) => cover_meta_from(doc@, 0) == Err::<Option<Seq<u8>>, XmlParseError>(e),
        },
{
    let tag = pat_meta();
    let a_name = pat_attr_name();
    let a_content = pat_attr_content();
    let v_cover = pat_val_cover();
    let n = doc.len();
    let gtp: Vec<u8> = vec![62u8];
    proof {
        assert(gtp@ == seq![62u8]);
    }
    let mut pos: usize = 0;
    loop
        invariant
            pos <= doc@.len(),
            cover_meta_from(doc@, 0) == cover_meta_from(doc@, pos as int),
        decreases doc@.len() - pos,
    {
        match find_tag(doc, &tag, pos) {
            None => {
                return Ok(None);
            },
            Some(i) => {
                match find_sub(doc, i, &gtp) {
                    None => {
                        return Err(XmlParseError::Malformed);
                    },
                    Some(g) => {
                        proof {
                            lemma_first_match_some(doc@, gtp@, i as int, g as int);
                            assert(g < n);
                        }
                        let nm = find_attr(doc, &a_name, i, g);
                        let ct = find_attr(doc, &a_content, i, g);
                        let mut is_cover = false;
                        match nm {
                            Some(nv) => {
                                let nval = copy_range(doc, nv.0, nv.1);
                                if bytes_eq(&nval, &v_cover) {
                                    is_cover = true;
                                }
                            },
                            None => {},
                        }
                        if is_cover {
                            match ct {
                                Some(cv) => {
                                    return Ok(Some(copy_range(doc, cv.0, cv.1)));
                                },
                                None => {},
                            }
                        }
                        pos = g + 1;
                    },
                }
            },
        }
    }
}

/// Finds the first manifest entry whose properties name the cover image.
#[verifier::loop_isolation(false)]
fn find_cover_by_properties(manifest: &Vec<ManifestEntry>) -> (r: Option<Vec<u8>>)
    ensures
        match r {
            Some(v) => cover_by_properties(manifest.deep_view()) == Some(v@),
            None => cover_by_properties(manifest.deep_view()) is None,
        },
{
    let v_ci = pat_val_cover_image();
    let ghost md = manifest.deep_view();
    proof {
        assert(md.skip(0) =~= md);
    }
    let mut k: usize = 0;
    while k < manifest.len()
        invariant
            k <= md.len() == manifest@.len(),
            cover_by_properties(md) == cover_by_properties(md.skip(k as int)),
        decreases manifest@.len() - k,
    {
        proof {
            assert(md.skip(k as int)[0] == md[k as int]);
            assert(md[k as int] == manifest@[k as int]@);
            assert(md.skip(k as int).skip(1) =~= md.skip(k + 1));
        }
        if contains_sub(&manifest[k].properties, &v_ci) {
            let id = clone_bytes(&manifest[k].id);
            return Some(id);
        }
        k += 1;
    }
    proof {
        assert(md.skip(md.len() as int) =~= Seq::<ManifestEntryV>::empty());
    }
    None
}

/// Decides whether every spine reference names some manifest entry.
#[verifier::loop_isolation(false)]
fn check_spine_resolves(manifest: &Vec<ManifestEntry>, spine: &Vec<Vec<u8>>) -> (r: bool)
    ensures
        r == spine_resolves(manifest.deep_view(), spine.deep_view()),
{
    let ghost md = manifest.deep_view();
    let ghost sd = spine.deep_view();
    let mut k: usize = 0;
    while k < spine.len()
        invariant
            k <= sd.len() == spine@.len(),
            md == manifest.deep_view(),
            forall|k2: int| 0 <= k2 < k ==> has_item(md, #[trigger] sd[k2]),
        decreases spine@.len() - k,
    {
        let mut found = false;
        let mut j: usize = 0;
        while j < manifest.len()
            invariant
                j <= md.len() == manifest@.len(),
                found == exists|j2: int| 0 <= j2 < j && md[j2].id == sd[k as int],
            decreases manifest@.len() - j,
        {
            proof {
                assert(md[j as int] == manifest@[j as int]@);
                assert(sd[k as int] == spine@[k as int]@);
            }
            if bytes_eq(&manifest[j].id, &spine[k]) {
                found = true;
            }
            j += 1;
        }
        if !found {
            proof {
                assert(!has_item(md, sd[k as int]));
            }
            return false;
        }
        k += 1;
    }
    true
}

/// Parses a package document that lives in directory `dir` of the archive.
pub fn parse_package(doc: &Vec<u8>, dir: Vec<u8>) -> (r: Result<Package, EpubError>)
    ensures
        match r {
            Ok(pkg) => match spec_package(doc@) {
                Ok(s) => {
                    &&& pkg@.dir == dir@
                    &&& pkg@.title == s.title
                    &&& pkg@.authors == s.authors
                    &&& pkg@.date == s.date
                    &&& pkg@.identifier == s.identifier
                    &&& pkg@.manifest == s.manifest
                    &&& pkg@.spine == s.spine
                    &&& pkg@.cover_id == s.cover_id
                },
                Err(_) => false,
            },
            Err(e) => spec_package(doc@) == Err::<PackageV, EpubError>(e),
        },
{
    let t_open = pat_dc_title_open();
    let t_close = pat_dc_title_close();
    let title = match find_elem_text(doc, &t_open, &t_close, 0) {
        Err(e) => {
            return Err(EpubError::Xml(e));
        },
        Ok(None) => {
            return Err(EpubError::Metadata(MetadataError::MissingTitle));
        },
        Ok(Some(v)) => trim_copy(doc, v.0, v.1),
    };
    if title.len() == 0 {
        return Err(EpubError::Metadata(MetadataError::MissingTitle));
    }
    let authors = match parse_creators(doc) {
        Err(e) => {
            return Err(EpubError::Xml(e));
        },
        Ok(v) => v,
    };
    let d_open = pat_dc_date_open();
    let d_close = pat_dc_date_close();
    let date = match find_elem_text(doc, &d_open, &d_close, 0) {
        Err(e) => {
            return Err(EpubError::Xml(e));
        },
        Ok(None) => None,
        Ok(Some(v)) => Some(trim_copy(doc, v.0, v.1)),
    };
    let i_open = pat_dc_identifier_open();
    let i_close = pat_dc_identifier_close();
    let identifier = match find_elem_text(doc, &i_open, &i_close, 0) {
        Err(e) => {
            return Err(EpubError::Xml(e));
        },
        Ok(None) => None,
        Ok(Some(v)) => Some(trim_copy(doc, v.0, v.1)),
    };
    let manifest = match parse_items(doc) {
        Err(e) => {
            return Err(EpubError::Xml(e));
        },
        Ok(v) => v,
    };
    let spine = match parse_spine(doc) {
        Err(e) => {
            return Err(EpubError::Xml(e));
        },
        Ok(v) => v,
    };
    if !check_spine_resolves(&manifest, &spine) {
        return Err(EpubError::Metadata(MetadataError::DanglingSpineRef));
    }
    let cover_id = match parse_cover_meta(doc) {
        Err(e) => {
            return Err(EpubError::Xml(e));
        },
        Ok(Some(c)) => Some(c),
        Ok(None) => find_cover_by_properties(&manifest),
    };
    Ok(Package { dir, title, authors, date, identifier, manifest, spine, cover_id })
}

/// The reference of the first manifest entry carrying identifier `id`.
pub open spec fn item_href(items: Seq<ManifestEntryV>, id: Seq<u8>) -> Option<Seq<u8>>
    decreases items.len(),
{
    if items.len() == 0 {
        None
    } else if items[0].id == id {
        Some(items[0].href)
    } else {
        item_href(items.skip(1), id)
    }
}

/// Finds the reference of the first manifest entry carrying identifier `id`.
#[verifier::loop_isolation(false)]
pub fn find_item_href(manifest: &Vec<ManifestEntry>, id: &Vec<u8>) -> (r: Option<Vec<u8>>)
    ensures
        match r {
            Some(v) => item_href(manifest.deep_view(), id@) == Some(v@),
            None => item_href(manifest.deep_view(), id@) is None,
        },
{
    let ghost md = manifest.deep_view();
    proof {
        assert(md.skip(0) =~= md);
    }
    let mut k: usize = 0;
    while k < manifest.len()
        invariant
            k <= md.len() == manifest@.len(),
            item_href(md, id@) == item_href(md.skip(k as int), id@),
        decreases manifest@.len() - k,
    {
        proof {
            assert(md.skip(k as int)[0] == md[k as int]);
            assert(md[k as int] == manifest@[k as int]@);
            assert(md.skip(k as int).skip(1) =~= md.skip(k + 1));
        }
        if bytes_eq(&manifest[k].id, id) {
            return Some(clone_bytes(&manifest[k].href));
        }
        k += 1;
    }
    proof {
        assert(md.skip(md.len() as int) =~= Seq::<ManifestEntryV>::empty());
    }
    None
}

/// A successfully parsed package document holds a non-empty title.
pub proof fn lemma_package_title_nonempty(doc: Seq<u8>)
    ensures
        spec_package(doc) is Ok ==> spec_package(doc).unwrap().title.len() > 0,
{
}

} // verus!
