//! Container resolver: reads the container descriptor at its fixed location
//! inside the archive and extracts the path of the package document.

use vstd::prelude::*;

use crate::archive::{zip_data, zip_ok, zip_open_check, zip_read};
use crate::bytes::copy_range;
use crate::errors::{ArchiveError, EpubError, XmlParseError};
use crate::opf::spec_pat_attr_full_path;
use crate::xml::{attr_from, find_attr};

verus! {

/// Bytes of `META-INF/container.xml`, the fixed location of the container
/// descriptor.
pub open spec fn spec_container_path() -> Seq<u8> {
    seq![
        77u8, 69u8, 84u8, 65u8, 45u8, 73u8, 78u8, 70u8, 47u8, 99u8, 111u8, 110u8, 116u8, 97u8,
        105u8, 110u8, 101u8, 114u8, 46u8, 120u8, 109u8, 108u8,
    ]
}

/// Builds the `META-INF/container.xml` path.
pub fn container_path() -> (r: Vec<u8>)
    ensures
        r@ == spec_container_path(),
{
    vec![
        77u8, 69u8, 84u8, 65u8, 45u8, 73u8, 78u8, 70u8, 47u8, 99u8, 111u8, 110u8, 116u8, 97u8,
        105u8, 110u8, 101u8, 114u8, 46u8, 120u8, 109u8, 108u8,
    ]
}

/// The path of the package document, read from the `full-path` attribute of
/// the container descriptor: the archive must open, the descriptor must be
/// present, and the attribute must be declared.
pub open spec fn spec_opf_path(zipb: Seq<u8>) -> Result<Seq<u8>, EpubError> {
    if !zip_ok(zipb) {
        Err(EpubError::Archive(ArchiveError::InvalidArchive))
    } else {
        match zip_data(zipb, spec_container_path()) {
            None => Err(EpubError::Archive(ArchiveError::MissingContainer)),
            Some(cont) => match attr_from(cont, spec_pat_attr_full_path(), 0, cont.len() as int) {
                None => Err(EpubError::Xml(XmlParseError::MissingElement)),
                Some(v) => Ok(cont.subrange(v.0, v.1)),
            },
        }
    }
}

/// Resolves the path of the package document from the container descriptor.
pub fn opf_path(zipb: &Vec<u8>) -> (r: Result<Vec<u8>, EpubError>)
    ensures
        match r {
            Ok(v) => spec_opf_path(zipb@) == Ok::<Seq<u8>, EpubError>(v@),
            Err(e) => spec_opf_path(zipb@) == Err::<Seq<u8>, EpubError>(e),
        },
        r is Ok ==> zip_ok(zipb@),
{
    if !zip_open_check(zipb) {
        return Err(EpubError::Archive(ArchiveError::InvalidArchive));
    }
    let cp = container_path();
    match zip_read(zipb, &cp) {
        None => Err(EpubError::Archive(ArchiveError::MissingContainer)),
        Some(cont) => {
            let fp = crate::opf::pat_attr_full_path();
            match find_attr(&cont, &fp, 0, cont.len()) {
                None => Err(EpubError::Xml(XmlParseError::MissingElement)),
                Some(v) => Ok(copy_range(&cont, v.0, v.1)),
            }
        },
    }
}

} // verus!
