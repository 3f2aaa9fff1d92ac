//! Archive reader: random-access extraction of entries from the zip
//! container, with every entry name checked against path traversal before it
//! is looked up.

use vstd::prelude::*;

use crate::bytes::match_at;
use crate::errors::ArchiveError;

verus! {

/// Whether the bytes form a readable zip archive. A function of the bytes
/// alone; its definition is left to the outside implementation.
pub uninterp spec fn zip_ok(b: Seq<u8>) -> bool;

/// The decompressed content of the entry with the given name, if the archive
/// holds one and its content can be read. A function of the archive bytes and
/// the name alone.
pub uninterp spec fn zip_data(b: Seq<u8>, name: Seq<u8>) -> Option<Seq<u8>>;

/// The names of all entries of the archive, in central-directory order.
/// A function of the archive bytes alone.
pub uninterp spec fn zip_names(b: Seq<u8>) -> Seq<Seq<u8>>;

/// Relies on zip::ZipArchive::new: the bytes parse as a zip central
/// directory or they do not, as a function of the bytes alone.
#[verifier::external_body]
pub(crate) fn zip_open_check(bytes: &Vec<u8>) -> (r: bool)
    ensures
        r == zip_ok(bytes@),
{
    zip::ZipArchive::new(std::io::Cursor::new(bytes.as_slice())).is_ok()
}

/// Relies on zip::ZipArchive::by_name and std::io::Read::read_to_end: an
/// entry's decompressed content is a function of the archive bytes and the
/// entry name alone; absent or unreadable entries report an error.
#[verifier::external_body]
pub(crate) fn zip_read(bytes: &Vec<u8>, name: &Vec<u8>) -> (r: Option<Vec<u8>>)
    requires
        zip_ok(bytes@),
    ensures
        r is Some <==> zip_data(bytes@, name@) is Some,
        r is Some ==> r.unwrap()@ == zip_data(bytes@, name@).unwrap(),
{
    let mut ar = zip::ZipArchive::new(std::io::Cursor::new(bytes.as_slice())).ok()?;
    let name_s = String::from_utf8_lossy(name.as_slice()).into_owned();
    let mut f = ar.by_name(&name_s).ok()?;
    let mut out = Vec::new();
    std::io::Read::read_to_end(&mut f, &mut out).ok()?;
    Some(out)
}

/// Relies on zip::ZipArchive::file_names: the entry listing and its order
/// come from the central directory, a function of the archive bytes alone.
#[verifier::external_body]
fn zip_list(bytes: &Vec<u8>) -> (r: Vec<Vec<u8>>)
    requires
        zip_ok(bytes@),
    ensures
        r.deep_view() == zip_names(bytes@),
{
    match zip::ZipArchive::new(std::io::Cursor::new(bytes.as_slice())) {
        Ok(ar) => ar.file_names().map(|n| n.as_bytes().to_vec()).collect(),
        Err(_) => Vec::new(),
    }
}

/// A `..` path segment occurs somewhere in `p` (`/` as separator).
pub open spec fn has_dotdot(p: Seq<u8>) -> bool {
    ||| p == seq![46u8, 46u8]
    ||| (p.len() >= 3 && p[0] == 46 && p[1] == 46 && p[2] == 47)
    ||| (p.len() >= 3 && p[p.len() - 3] == 47 && p[p.len() - 2] == 46 && p[p.len() - 1] == 46)
    ||| exists|i: int| match_at(p, seq![47u8, 46u8, 46u8, 47u8], i)
}

/// An entry path that stays under the archive root: non-empty, relative, and
/// free of parent-directory segments.
pub open spec fn valid_entry_path(p: Seq<u8>) -> bool {
    &&& p.len() > 0
    &&& p[0] != 47
    &&& !has_dotdot(p)
}

/// Decides `valid_entry_path`.
pub fn check_entry_path(p: &Vec<u8>) -> (r: bool)
    ensures
        r == valid_entry_path(p@),
{
    let n = p.len();
    if n == 0 {
        return false;
    }
    if p[0] == 47 {
        return false;
    }
    if n == 2 && p[0] == 46 && p[1] == 46 {
        proof {
            assert(p@ =~= seq![46u8, 46u8]);
        }
        return false;
    }
    if n >= 3 && p[0] == 46 && p[1] == 46 && p[2] == 47 {
        return false;
    }
    if n >= 3 && p[n - 3] == 47 && p[n - 2] == 46 && p[n - 1] == 46 {
        return false;
    }
    let pat: Vec<u8> = vec![47, 46, 46, 47];
    let hit = crate::bytes::find_sub_in(p, 0, n, &pat);
    proof {
        if p@.len() == 2 {
            assert(p@ != seq![46u8, 46u8] ==> !(p@[0] == 46 && p@[1] == 46)) by {
                if p@[0] == 46 && p@[1] == 46 {
                    assert(p@ =~= seq![46u8, 46u8]);
                }
            }
        }
        if hit is None {
            assert forall|i: int| !match_at(p@, pat@, i) by {
                if 0 <= i && i + pat@.len() <= p@.len() {
                    assert(!match_at(p@, pat@, i));
                }
            }
        }
    }
    match hit {
        Some(_) => false,
        None => true,
    }
}

/// Extracts the entry named `name` from the archive bytes. A traversal-unsafe
/// name is rejected before any lookup; an unreadable archive and an absent
/// entry each report their own error.
pub fn archive_entry(bytes: &Vec<u8>, name: &Vec<u8>) -> (r: Result<Vec<u8>, ArchiveError>)
    ensures
        !valid_entry_path(name@) ==> r == Err::<Vec<u8>, ArchiveError>(ArchiveError::PathTraversal),
        valid_entry_path(name@) && !zip_ok(bytes@) ==> r == Err::<Vec<u8>, ArchiveError>(
            ArchiveError::InvalidArchive,
        ),
        valid_entry_path(name@) && zip_ok(bytes@) && zip_data(bytes@, name@) is None ==> r == Err::<
            Vec<u8>,
            ArchiveError,
        >(ArchiveError::EntryNotFound),
        valid_entry_path(name@) && zip_ok(bytes@) && zip_data(bytes@, name@) is Some ==> r is Ok
            && r.unwrap()@ == zip_data(bytes@, name@).unwrap(),
{
    if !check_entry_path(name) {
        return Err(ArchiveError::PathTraversal);
    }
    if !zip_open_check(bytes) {
        return Err(ArchiveError::InvalidArchive);
    }
    match zip_read(bytes, name) {
        Some(d) => Ok(d),
        None => Err(ArchiveError::EntryNotFound),
    }
}

/// Lists the names of all entries of the archive, in archive order.
pub fn list_entries(bytes: &Vec<u8>) -> (r: Result<Vec<Vec<u8>>, ArchiveError>)
    ensures
        match r {
            Ok(names) => zip_ok(bytes@) && names.deep_view() == zip_names(bytes@),
            Err(e) => e == ArchiveError::InvalidArchive && !zip_ok(bytes@),
        },
{
    if !zip_open_check(bytes) {
        return Err(ArchiveError::InvalidArchive);
    }
    Ok(zip_list(bytes))
}

} // verus!
