//! Bibliographic metadata extraction: one record per archive, holding the
//! required title, the creators in document order, the optional date and
//! identifier, the caller's file path, the content checksum, and the cover
//! payload when one can be resolved.

use vstd::prelude::*;

use crate::archive::{archive_entry, valid_entry_path, zip_data, zip_ok};
use crate::container::{opf_path, spec_opf_path};
use crate::content::{dir_of, mime_for, mime_of, parent_dir};
use crate::digest::{compute_checksum, hex_of, sha256_of};
use crate::errors::{ArchiveError, EpubError};
use crate::opf::{
    find_item_href, item_href, lemma_package_title_nonempty, parse_package, spec_package, Package,
    PackageV,
};
use crate::paths::{resolve_path, resolve_spec};
use crate::strings::{lossy_string, utf8_lossy};

verus! {

/// The cover image payload: raw bytes and their mime type.
#[derive(Debug)]
pub struct CoverData {
    pub bytes: Vec<u8>,
    pub mime: String,
}

/// Bibliographic metadata of one archive. Created once per successful parse
/// and immutable afterward.
#[derive(Debug)]
pub struct BookMetadata {
    pub title: String,
    pub authors: Vec<String>,
    pub published_date: Option<String>,
    pub isbn: Option<String>,
    pub file_path: String,
    pub checksum: String,
    pub cover_data: Option<CoverData>,
}

/// The parsed package of the archive, its directory filled in from the
/// location that the container descriptor names.
pub open spec fn spec_meta(zipb: Seq<u8>) -> Result<PackageV, EpubError> {
    match spec_opf_path(zipb) {
        Err(e) => Err(e),
        Ok(op) => if !valid_entry_path(op) {
            Err(EpubError::Archive(ArchiveError::PathTraversal))
        } else {
            match zip_data(zipb, op) {
                None => Err(EpubError::Archive(ArchiveError::EntryNotFound)),
                Some(opf) => match spec_package(opf) {
                    Err(e) => Err(e),
                    Ok(pkg) => Ok(PackageV { dir: dir_of(op), ..pkg }),
                },
            }
        },
    }
}

/// The cover payload of a parsed package: the bytes and mime type of the
/// manifest entry that the cover reference names, when that entry resolves
/// to a safe readable archive path; absent otherwise, never an error.
pub open spec fn spec_cover(zipb: Seq<u8>, pkg: PackageV) -> Option<(Seq<u8>, Seq<u8>)> {
    match pkg.cover_id {
        None => None,
        Some(cid) => match item_href(pkg.manifest, cid) {
            None => None,
            Some(href) => match resolve_spec(pkg.dir, href) {
                None => None,
                Some(p) => if !valid_entry_path(p) {
                    None
                } else {
                    match zip_data(zipb, p) {
                        None => None,
                        Some(d) => Some((d, mime_for(pkg.manifest, pkg.dir, p))),
                    }
                },
            },
        },
    }
}

/// Resolves and extracts the cover payload of a parsed package.
fn extract_cover(zipb: &Vec<u8>, pkg: &Package) -> (r: Option<CoverData>)
    requires
        zip_ok(zipb@),
    ensures
        match spec_cover(zipb@, pkg@) {
            Some(c) => r is Some && r.unwrap().bytes@ == c.0 && r.unwrap().mime@ == utf8_lossy(
                c.1,
            ),
            None => r is None,
        },
{
    let cid = match &pkg.cover_id {
        Some(c) => c,
        None => {
            return None;
        },
    };
    let href = match find_item_href(&pkg.manifest, cid) {
        Some(h) => h,
        None => {
            return None;
        },
    };
    let p = match resolve_path(&pkg.dir, &href) {
        Ok(p) => p,
        Err(_) => {
            return None;
        },
    };
    let data = match archive_entry(zipb, &p) {
        Ok(d) => d,
        Err(_) => {
            return None;
        },
    };
    let mm = mime_of(&pkg.manifest, &pkg.dir, &p);
    Some(CoverData { bytes: data, mime: lossy_string(&mm) })
}

/// Parses the bibliographic metadata of the archive given by its raw bytes
/// and the path it was read from. On success the record holds the decoded
/// non-empty title, the creators in document order, the optional date and
/// identifier, the file path exactly as given, the checksum of the raw
/// bytes, and the cover payload when one resolves; every structural failure
/// is surfaced as its own error.
#[verifier::loop_isolation(false)]
pub fn parse_epub_meta(bytes: &Vec<u8>, file_path: String) -> (r: Result<BookMetadata, EpubError>)
    ensures
        match r {
            Ok(m) => {
                &&& spec_meta(bytes@) is Ok
                &&& ({
                    let s = spec_meta(bytes@).unwrap();
                    &&& m.title@ == utf8_lossy(s.title)
                    &&& m.title@.len() > 0
                    &&& m.authors.deep_view() == s.authors.map_values(|a: Seq<u8>| utf8_lossy(a))
                    &&& (match s.date {
                        Some(d) => m.published_date is Some && m.published_date.unwrap()@
                            == utf8_lossy(d),
                        None => m.published_date is None,
                    })
                    &&& (match s.identifier {
                        Some(d) => m.isbn is Some && m.isbn.unwrap()@ == utf8_lossy(d),
                        None => m.isbn is None,
                    })
                    &&& m.file_path@ == file_path@
                    &&& m.checksum@ == hex_of(sha256_of(bytes@))
                    &&& m.checksum@.len() == 64
                    &&& (match spec_cover(bytes@, s) {
                        Some(c) => m.cover_data is Some && m.cover_data.unwrap().bytes@ == c.0
                            && m.cover_data.unwrap().mime@ == utf8_lossy(c.1),
                        None => m.cover_data is None,
                    })
                })
            },
            Err(e) => spec_meta(bytes@) == Err::<PackageV, EpubError>(e),
        },
{
    let op = match opf_path(bytes) {
        Ok(v) => v,
        Err(e) => {
            return Err(e);
        },
    };
    let opf = match archive_entry(bytes, &op) {
        Ok(v) => v,
        Err(e) => {
            return Err(EpubError::Archive(e));
        },
    };
    let dir = parent_dir(&op);
    let pkg = match parse_package(&opf, dir) {
        Ok(p) => p,
        Err(e) => {
            return Err(e);
        },
    };
    proof {
        lemma_package_title_nonempty(opf@);
    }
    let ghost s = spec_meta(bytes@).unwrap();
    proof {
        assert(pkg@ =~= s);
    }
    let title = lossy_string(&pkg.title);
    let ghost sa = pkg.authors.deep_view();
    let mut authors: Vec<String> = Vec::new();
    let mut k: usize = 0;
    proof {
        assert(authors.deep_view() =~= sa.take(0).map_values(|a: Seq<u8>| utf8_lossy(a)));
    }
    while k < pkg.authors.len()
        invariant
            k <= sa.len() == pkg.authors@.len(),
            sa == pkg.authors.deep_view(),
            authors.deep_view() == sa.take(k as int).map_values(|a: Seq<u8>| utf8_lossy(a)),
        decreases sa.len() - k,
    {
        let t = lossy_string(&pkg.authors[k]);
        let ghost old_a = authors.deep_view();
        authors.push(t);
        proof {
            assert(sa[k as int] == pkg.authors@[k as int]@);
            assert(authors.deep_view() =~~= old_a.push(t@));
            assert(sa.take(k + 1) =~= sa.take(k as int).push(sa[k as int]));
            assert(sa.take(k + 1).map_values(|a: Seq<u8>| utf8_lossy(a)) =~= sa.take(
                k as int,
            ).map_values(|a: Seq<u8>| utf8_lossy(a)).push(utf8_lossy(sa[k as int])));
        }
        k += 1;
    }
    proof {
        assert(sa.take(sa.len() as int) =~= sa);
    }
    let published_date = match &pkg.date {
        Some(d) => Some(lossy_string(d)),
        None => None,
    };
    let isbn = match &pkg.identifier {
        Some(d) => Some(lossy_string(d)),
        None => None,
    };
    let checksum = compute_checksum(bytes);
    proof {
        crate::digest::lemma_hex_of_shape(sha256_of(bytes@));
    }
    let cover_data = extract_cover(bytes, &pkg);
    Ok(BookMetadata { title, authors, published_date, isbn, file_path, checksum, cover_data })
}

} // verus!
