//! Content assembler and resource rewriter: base64 encoding, mime type
//! inference, data URIs, and the rewriting of relative image references in
//! spine documents into self-contained inline data.

use vstd::prelude::*;

use crate::archive::{archive_entry, valid_entry_path, zip_data, zip_ok};
use crate::bytes::{
    copy_range, find_sub, first_match, last_byte, find_last_byte, lemma_first_match_some,
    bytes_eq, starts_with, match_at,
};
use crate::errors::{EpubError, XmlParseError};
use crate::opf::{ManifestEntry, ManifestEntryV};
use crate::paths::{resolve_path, resolve_spec};
use crate::xml::{attr_from, find_attr, find_tag, lemma_attr_from_some, lemma_tag_from_some, tag_from};

verus! {

/// Bytes of `<img`.
pub open spec fn spec_pat_tag_img() -> Seq<u8> {
    seq![60u8, 105u8, 109u8, 103u8]
}

/// Builds the `<img` pattern.
pub fn pat_tag_img() -> (r: Vec<u8>)
    ensures
        r@ == spec_pat_tag_img(),
{
    vec![60u8, 105u8, 109u8, 103u8]
}

/// Bytes of `<image`.
pub open spec fn spec_pat_tag_image() -> Seq<u8> {
    seq![60u8, 105u8, 109u8, 97u8, 103u8, 101u8]
}

/// Builds the `<image` pattern.
pub fn pat_tag_image() -> (r: Vec<u8>)
    ensures
        r@ == spec_pat_tag_image(),
{
    vec![60u8, 105u8, 109u8, 97u8, 103u8, 101u8]
}

/// Bytes of `src`.
pub open spec fn spec_pat_attr_src() -> Seq<u8> {
    seq![115u8, 114u8, 99u8]
}

/// Builds the `src` pattern.
pub fn pat_attr_src() -> (r: Vec<u8>)
    ensures
        r@ == spec_pat_attr_src(),
{
    vec![115u8, 114u8, 99u8]
}

/// Bytes of `xlink:href`.
pub open spec fn spec_pat_attr_xlink_href() -> Seq<u8> {
    seq![120u8, 108u8, 105u8, 110u8, 107u8, 58u8, 104u8, 114u8, 101u8, 102u8]
}

/// Builds the `xlink:href` pattern.
pub fn pat_attr_xlink_href() -> (r: Vec<u8>)
    ensures
        r@ == spec_pat_attr_xlink_href(),
{
    vec![120u8, 108u8, 105u8, 110u8, 107u8, 58u8, 104u8, 114u8, 101u8, 102u8]
}

/// Bytes of `data:`.
pub open spec fn spec_pat_pre_data() -> Seq<u8> {
    seq![100u8, 97u8, 116u8, 97u8, 58u8]
}

/// Builds the `data:` pattern.
pub fn pat_pre_data() -> (r: Vec<u8>)
    ensures
        r@ == spec_pat_pre_data(),
{
    vec![100u8, 97u8, 116u8, 97u8, 58u8]
}

/// Bytes of `http:`.
pub open spec fn spec_pat_pre_http() -> Seq<u8> {
    seq![104u8, 116u8, 116u8, 112u8, 58u8]
}

/// Builds the `http:` pattern.
pub fn pat_pre_http() -> (r: Vec<u8>)
    ensures
        r@ == spec_pat_pre_http(),
{
    vec![104u8, 116u8, 116u8, 112u8, 58u8]
}

/// Bytes of `https:`.
pub open spec fn spec_pat_pre_https() -> Seq<u8> {
    seq![104u8, 116u8, 116u8, 112u8, 115u8, 58u8]
}

/// Builds the `https:` pattern.
pub fn pat_pre_https() -> (r: Vec<u8>)
    ensures
        r@ == spec_pat_pre_https(),
{
    vec![104u8, 116u8, 116u8, 112u8, 115u8, 58u8]
}

/// Bytes of `#`.
pub open spec fn spec_pat_pre_hash() -> Seq<u8> {
    seq![35u8]
}

/// Builds the `#` pattern.
pub fn pat_pre_hash() -> (r: Vec<u8>)
    ensures
        r@ == spec_pat_pre_hash(),
{
    vec![35u8]
}

/// Bytes of `;base64,`.
pub open spec fn spec_pat_b64_infix() -> Seq<u8> {
    seq![59u8, 98u8, 97u8, 115u8, 101u8, 54u8, 52u8, 44u8]
}

/// Builds the `;base64,` pattern.
pub fn pat_b64_infix() -> (r: Vec<u8>)
    ensures
        r@ == spec_pat_b64_infix(),
{
    vec![59u8, 98u8, 97u8, 115u8, 101u8, 54u8, 52u8, 44u8]
}

/// Bytes of `image/jpeg`.
pub open spec fn spec_pat_mime_jpeg() -> Seq<u8> {
    seq![105u8, 109u8, 97u8, 103u8, 101u8, 47u8, 106u8, 112u8, 101u8, 103u8]
}

/// Builds the `image/jpeg` pattern.
pub fn pat_mime_jpeg() -> (r: Vec<u8>)
    ensures
        r@ == spec_pat_mime_jpeg(),
{
    vec![105u8, 109u8, 97u8, 103u8, 101u8, 47u8, 106u8, 112u8, 101u8, 103u8]
}

/// Bytes of `image/png`.
pub open spec fn spec_pat_mime_png() -> Seq<u8> {
    seq![105u8, 109u8, 97u8, 103u8, 101u8, 47u8, 112u8, 110u8, 103u8]
}

/// Builds the `image/png` pattern.
pub fn pat_mime_png() -> (r: Vec<u8>)
    ensures
        r@ == spec_pat_mime_png(),
{
    vec![105u8, 109u8, 97u8, 103u8, 101u8, 47u8, 112u8, 110u8, 103u8]
}

/// Bytes of `image/gif`.
pub open spec fn spec_pat_mime_gif() -> Seq<u8> {
    seq![105u8, 109u8, 97u8, 103u8, 101u8, 47u8, 103u8, 105u8, 102u8]
}

/// Builds the `image/gif` pattern.
pub fn pat_mime_gif() -> (r: Vec<u8>)
    ensures
        r@ == spec_pat_mime_gif(),
{
    vec![105u8, 109u8, 97u8, 103u8, 101u8, 47u8, 103u8, 105u8, 102u8]
}

/// Bytes of `image/svg+xml`.
pub open spec fn spec_pat_mime_svg() -> Seq<u8> {
    seq![105u8, 109u8, 97u8, 103u8, 101u8, 47u8, 115u8, 118u8, 103u8, 43u8, 120u8, 109u8, 108u8]
}

/// Builds the `image/svg+xml` pattern.
pub fn pat_mime_svg() -> (r: Vec<u8>)
    ensures
        r@ == spec_pat_mime_svg(),
{
    vec![105u8, 109u8, 97u8, 103u8, 101u8, 47u8, 115u8, 118u8, 103u8, 43u8, 120u8, 109u8, 108u8]
}

/// Bytes of `application/octet-stream`.
pub open spec fn spec_pat_mime_octet() -> Seq<u8> {
    seq![97u8, 112u8, 112u8, 108u8, 105u8, 99u8, 97u8, 116u8, 105u8, 111u8, 110u8, 47u8, 111u8, 99u8, 116u8, 101u8, 116u8, 45u8, 115u8, 116u8, 114u8, 101u8, 97u8, 109u8]
}

/// Builds the `application/octet-stream` pattern.
pub fn pat_mime_octet() -> (r: Vec<u8>)
    ensures
        r@ == spec_pat_mime_octet(),
{
    vec![97u8, 112u8, 112u8, 108u8, 105u8, 99u8, 97u8, 116u8, 105u8, 111u8, 110u8, 47u8, 111u8, 99u8, 116u8, 101u8, 116u8, 45u8, 115u8, 116u8, 114u8, 101u8, 97u8, 109u8]
}

/// Bytes of `jpg`.
pub open spec fn spec_pat_ext_jpg() -> Seq<u8> {
    seq![106u8, 112u8, 103u8]
}

/// Builds the `jpg` pattern.
pub fn pat_ext_jpg() -> (r: Vec<u8>)
    ensures
        r@ == spec_pat_ext_jpg(),
{
    vec![106u8, 112u8, 103u8]
}

/// Bytes of `jpeg`.
pub open spec fn spec_pat_ext_jpeg() -> Seq<u8> {
    seq![106u8, 112u8, 101u8, 103u8]
}

/// Builds the `jpeg` pattern.
pub fn pat_ext_jpeg() -> (r: Vec<u8>)
    ensures
        r@ == spec_pat_ext_jpeg(),
{
    vec![106u8, 112u8, 101u8, 103u8]
}

/// Bytes of `png`.
pub open spec fn spec_pat_ext_png() -> Seq<u8> {
    seq![112u8, 110u8, 103u8]
}

/// Builds the `png` pattern.
pub fn pat_ext_png() -> (r: Vec<u8>)
    ensures
        r@ == spec_pat_ext_png(),
{
    vec![112u8, 110u8, 103u8]
}

/// Bytes of `gif`.
pub open spec fn spec_pat_ext_gif() -> Seq<u8> {
    seq![103u8, 105u8, 102u8]
}

/// Builds the `gif` pattern.
pub fn pat_ext_gif() -> (r: Vec<u8>)
    ensures
        r@ == spec_pat_ext_gif(),
{
    vec![103u8, 105u8, 102u8]
}

/// Bytes of `svg`.
pub open spec fn spec_pat_ext_svg() -> Seq<u8> {
    seq![115u8, 118u8, 103u8]
}

/// Builds the `svg` pattern.
pub fn pat_ext_svg() -> (r: Vec<u8>)
    ensures
        r@ == spec_pat_ext_svg(),
{
    vec![115u8, 118u8, 103u8]
}

/// The base64 alphabet character for a six-bit value.
pub open spec fn b64_char(n: u8) -> u8
    recommends
        n < 64,
{
    if n < 26 {
        (65 + n) as u8
    } else if n < 52 {
        (97 + n - 26) as u8
    } else if n < 62 {
        (48 + n - 52) as u8
    } else if n == 62 {
        43
    } else {
        47
    }
}

/// Executable twin of `b64_char`.
#[verifier::when_used_as_spec(b64_char)]
pub fn b64_char_of(n: u8) -> (r: u8)
    requires
        n < 64,
    ensures
        r == b64_char(n),
{
    if n < 26 {
        65 + n
    } else if n < 52 {
        97 + (n - 26)
    } else if n < 62 {
        48 + (n - 52)
    } else if n == 62 {
        43
    } else {
        47
    }
}

/// The four characters encoding one full three-byte group.
pub open spec fn b64_group(b0: u8, b1: u8, b2: u8) -> Seq<u8> {
    seq![
        b64_char(b0 >> 2),
        b64_char((b0 & 3) << 4 | (b1 >> 4)),
        b64_char((b1 & 15) << 2 | (b2 >> 6)),
        b64_char(b2 & 63),
    ]
}

/// Standard base64 of the bytes from index `i` on, `=`-padded.
pub open spec fn b64_from(b: Seq<u8>, i: int) -> Seq<u8>
    decreases b.len() - i,
{
    if i < 0 {
        Seq::<u8>::empty()
    } else if b.len() - i >= 3 {
        b64_group(b[i], b[i + 1], b[i + 2]) + b64_from(b, i + 3)
    } else if b.len() - i == 2 {
        seq![
            b64_char(b[i] >> 2),
            b64_char((b[i] & 3) << 4 | (b[i + 1] >> 4)),
            b64_char((b[i + 1] & 15) << 2),
            61,
        ]
    } else if b.len() - i == 1 {
        seq![b64_char(b[i] >> 2), b64_char((b[i] & 3) << 4), 61, 61]
    } else {
        Seq::<u8>::empty()
    }
}

/// Standard base64 with padding.
pub open spec fn base64_of(b: Seq<u8>) -> Seq<u8> {
    b64_from(b, 0)
}

/// Encodes bytes as standard base64 with padding.
#[verifier::loop_isolation(false)]
pub fn base64_encode(b: &Vec<u8>) -> (r: Vec<u8>)
    ensures
        r@ == base64_of(b@),
{
    let n = b.len();
    let mut out: Vec<u8> = Vec::new();
    let mut i: usize = 0;
    proof {
        assert(out@ + b64_from(b@, 0) =~= b64_from(b@, 0));
    }
    while n - i >= 3
        invariant
            i <= n,
            base64_of(b@) == out@ + b64_from(b@, i as int),
        decreases n - i,
    {
        let b0 = b[i];
        let b1 = b[i + 1];
        let b2 = b[i + 2];
        proof {
            assert(b0 >> 2 < 64 && (b0 & 3) << 4 | (b1 >> 4) < 64 && (b1 & 15) << 2 | (b2 >> 6)
                < 64 && b2 & 63 < 64) by (bit_vector);
        }
        let ghost old_out = out@;
        out.push(b64_char_of(b0 >> 2));
        out.push(b64_char_of((b0 & 3) << 4 | (b1 >> 4)));
        out.push(b64_char_of((b1 & 15) << 2 | (b2 >> 6)));
        out.push(b64_char_of(b2 & 63));
        proof {
            assert(out@ =~= old_out + b64_group(b0, b1, b2));
            assert(old_out + (b64_group(b0, b1, b2) + b64_from(b@, i + 3)) =~= out@ + b64_from(
                b@,
                i + 3,
            ));
        }
        i += 3;
    }
    let ghost old_out = out@;
    if n - i == 2 {
        let b0 = b[i];
        let b1 = b[i + 1];
        proof {
            assert(b0 >> 2 < 64 && (b0 & 3) << 4 | (b1 >> 4) < 64 && (b1 & 15) << 2 < 64)
                by (bit_vector);
        }
        out.push(b64_char_of(b0 >> 2));
        out.push(b64_char_of((b0 & 3) << 4 | (b1 >> 4)));
        out.push(b64_char_of((b1 & 15) << 2));
        out.push(61);
        proof {
            assert(out@ =~= old_out + b64_from(b@, i as int));
        }
    } else if n - i == 1 {
        let b0 = b[i];
        proof {
            assert(b0 >> 2 < 64 && (b0 & 3) << 4 < 64) by (bit_vector);
        }
        out.push(b64_char_of(b0 >> 2));
        out.push(b64_char_of((b0 & 3) << 4));
        out.push(61);
        out.push(61);
        proof {
            assert(out@ =~= old_out + b64_from(b@, i as int));
        }
    } else {
        proof {
            assert(out@ =~= old_out + b64_from(b@, i as int));
        }
    }
    out
}

/// The file extension of a path: the bytes after the last `.`, empty when
/// there is no dot.
pub open spec fn ext_of(p: Seq<u8>) -> Seq<u8> {
    match last_byte(p, 46, p.len() as int) {
        Some(d) => p.subrange(d + 1, p.len() as int),
        None => Seq::<u8>::empty(),
    }
}

/// An upper-case ASCII letter lowered; any other byte unchanged.
pub open spec fn lower_b(b: u8) -> u8 {
    if 65 <= b && b <= 90 {
        (b + 32) as u8
    } else {
        b
    }
}

/// The byte sequence with ASCII letters lowered.
pub open spec fn lower_bytes(s: Seq<u8>) -> Seq<u8> {
    s.map_values(|b: u8| lower_b(b))
}

/// Lowers the ASCII letters of a byte vector.
pub fn to_lower(v: &Vec<u8>) -> (r: Vec<u8>)
    ensures
        r@ == lower_bytes(v@),
{
    let mut r: Vec<u8> = Vec::new();
    let mut k: usize = 0;
    while k < v.len()
        invariant
            k <= v@.len(),
            r@ == lower_bytes(v@.take(k as int)),
        decreases v@.len() - k,
    {
        let b = v[k];
        if 65 <= b && b <= 90 {
            r.push(b + 32);
        } else {
            r.push(b);
        }
        proof {
            assert(r@ =~= lower_bytes(v@.take(k + 1)));
        }
        k += 1;
    }
    proof {
        assert(v@.take(v@.len() as int) =~= v@);
        assert(r@ =~= lower_bytes(v@));
    }
    r
}

/// The mime type for a lowered file extension, by the closed mapping: jpg
/// and jpeg, png, gif and svg map to their image types; anything else to the
/// generic byte stream type.
pub open spec fn mime_from_ext(e: Seq<u8>) -> Seq<u8> {
    if e == spec_pat_ext_jpg() || e == spec_pat_ext_jpeg() {
        spec_pat_mime_jpeg()
    } else if e == spec_pat_ext_png() {
        spec_pat_mime_png()
    } else if e == spec_pat_ext_gif() {
        spec_pat_mime_gif()
    } else if e == spec_pat_ext_svg() {
        spec_pat_mime_svg()
    } else {
        spec_pat_mime_octet()
    }
}

/// The mime type of the resource at resolved path `p`: the media type that
/// the manifest declares for the first entry resolving to `p`, or, when no
/// entry declares one, the type inferred from the file extension.
pub open spec fn mime_for(
    items: Seq<ManifestEntryV>,
    opf_dir: Seq<u8>,
    p: Seq<u8>,
) -> Seq<u8>
    decreases items.len(),
{
    if items.len() == 0 {
        mime_from_ext(lower_bytes(ext_of(p)))
    } else if resolve_spec(opf_dir, items[0].href) == Some(p) && items[0].media_type.len() > 0 {
        items[0].media_type
    } else {
        mime_for(items.skip(1), opf_dir, p)
    }
}

/// Computes the mime type of the resource at resolved path `p`.
#[verifier::loop_isolation(false)]
pub(crate) fn mime_of(manifest: &Vec<ManifestEntry>, opf_dir: &Vec<u8>, p: &Vec<u8>) -> (r: Vec<u8>)
    requires
        valid_entry_path(p@),
    ensures
        r@ == mime_for(manifest.deep_view(), opf_dir@, p@),
{
    let ghost md = manifest.deep_view();
    proof {
        assert(md.skip(0) =~= md);
    }
    let mut k: usize = 0;
    while k < manifest.len()
        invariant
            k <= md.len() == manifest@.len(),
            mime_for(md, opf_dir@, p@) == mime_for(md.skip(k as int), opf_dir@, p@),
        decreases manifest@.len() - k,
    {
        proof {
            assert(md.skip(k as int)[0] == md[k as int]);
            assert(md[k as int] == manifest@[k as int]@);
            assert(md.skip(k as int).skip(1) =~= md.skip(k + 1));
        }
        if manifest[k].media_type.len() > 0 {
            match resolve_path(opf_dir, &manifest[k].href) {
                Ok(q) => {
                    if bytes_eq(&q, p) {
                        return crate::opf::clone_bytes(&manifest[k].media_type);
                    }
                },
                Err(_) => {},
            }
        }
        k += 1;
    }
    proof {
        assert(md.skip(md.len() as int) =~= Seq::<ManifestEntryV>::empty());
    }
    let n = p.len();
    let e = match find_last_byte(p, 46) {
        Some(d) => copy_range(p, d + 1, n),
        None => Vec::new(),
    };
    proof {
        assert(e@ == ext_of(p@));
    }
    let el = to_lower(&e);
    if bytes_eq(&el, &pat_ext_jpg()) || bytes_eq(&el, &pat_ext_jpeg()) {
        pat_mime_jpeg()
    } else if bytes_eq(&el, &pat_ext_png()) {
        pat_mime_png()
    } else if bytes_eq(&el, &pat_ext_gif()) {
        pat_mime_gif()
    } else if bytes_eq(&el, &pat_ext_svg()) {
        pat_mime_svg()
    } else {
        pat_mime_octet()
    }
}

/// The inline data URI for a resource: `data:`, the mime type, `;base64,`,
/// and the base64 of the resource bytes.
pub open spec fn data_uri_of(mime: Seq<u8>, data: Seq<u8>) -> Seq<u8> {
    spec_pat_pre_data() + mime + spec_pat_b64_infix() + base64_of(data)
}

/// Builds the inline data URI for a resource.
pub fn make_data_uri(mime: &Vec<u8>, data: &Vec<u8>) -> (r: Vec<u8>)
    ensures
        r@ == data_uri_of(mime@, data@),
{
    let mut out = pat_pre_data();
    out.extend_from_slice(mime.as_slice());
    let infix = pat_b64_infix();
    out.extend_from_slice(infix.as_slice());
    let enc = base64_encode(data);
    out.extend_from_slice(enc.as_slice());
    proof {
        assert(out@ =~= data_uri_of(mime@, data@));
    }
    out
}

/// Every replacement is itself inline: a data URI begins with `data:`, so a
/// rewritten reference is skipped by any later rewrite and never rewritten
/// again.
pub proof fn lemma_data_uri_inline(mime: Seq<u8>, data: Seq<u8>)
    ensures
        match_at(data_uri_of(mime, data), spec_pat_pre_data(), 0),
        skip_value(data_uri_of(mime, data)),
{
    assert(forall|j: int| 0 <= j < spec_pat_pre_data().len() ==> data_uri_of(mime, data)[j]
        == spec_pat_pre_data()[j]);
}

/// The directory part of a path: the bytes before the last `/`, empty when
/// the path has none.
pub open spec fn dir_of(p: Seq<u8>) -> Seq<u8> {
    match last_byte(p, 47, p.len() as int) {
        Some(s) => p.subrange(0, s),
        None => Seq::<u8>::empty(),
    }
}

/// Takes the directory part of a path.
pub fn parent_dir(p: &Vec<u8>) -> (r: Vec<u8>)
    ensures
        r@ == dir_of(p@),
{
    match find_last_byte(p, 47) {
        Some(s) => copy_range(p, 0, s),
        None => Vec::new(),
    }
}

/// A reference value that is not rewritten: empty, already inline, absolute,
/// or a fragment.
pub open spec fn skip_value(val: Seq<u8>) -> bool {
    ||| val.len() == 0
    ||| match_at(val, spec_pat_pre_data(), 0)
    ||| match_at(val, spec_pat_pre_http(), 0)
    ||| match_at(val, spec_pat_pre_https(), 0)
    ||| match_at(val, spec_pat_pre_hash(), 0)
}

/// The replacement for a reference value, when it has one: the value must
/// name a relative target, resolve to a safe path under the archive root,
/// and that entry must be readable; the replacement is then the inline data
/// URI of the resource. Anything else leaves the reference unchanged.
pub open spec fn rewrite_target(
    zipb: Seq<u8>,
    items: Seq<ManifestEntryV>,
    opf_dir: Seq<u8>,
    doc_dir: Seq<u8>,
    val: Seq<u8>,
) -> Option<Seq<u8>> {
    if skip_value(val) {
        None
    } else {
        match resolve_spec(doc_dir, val) {
            None => None,
            Some(p) => if !valid_entry_path(p) {
                None
            } else {
                match zip_data(zipb, p) {
                    None => None,
                    Some(data) => Some(data_uri_of(mime_for(items, opf_dir, p), data)),
                }
            },
        }
    }
}

/// Computes the replacement for a reference value, if it has one.
fn rewrite_value(
    zipb: &Vec<u8>,
    manifest: &Vec<ManifestEntry>,
    opf_dir: &Vec<u8>,
    doc_dir: &Vec<u8>,
    val: &Vec<u8>,
) -> (r: Option<Vec<u8>>)
    requires
        zip_ok(zipb@),
    ensures
        match r {
            Some(v) => rewrite_target(zipb@, manifest.deep_view(), opf_dir@, doc_dir@, val@)
                == Some(v@),
            None => rewrite_target(zipb@, manifest.deep_view(), opf_dir@, doc_dir@, val@)
                is None,
        },
{
    if val.len() == 0 {
        return None;
    }
    if starts_with(val, &pat_pre_data()) || starts_with(val, &pat_pre_http()) || starts_with(
        val,
        &pat_pre_https(),
    ) || starts_with(val, &pat_pre_hash()) {
        return None;
    }
    let p = match resolve_path(doc_dir, val) {
        Ok(p) => p,
        Err(_) => {
            return None;
        },
    };
    let data = match archive_entry(zipb, &p) {
        Ok(d) => d,
        Err(_) => {
            return None;
        },
    };
    let mime = mime_of(manifest, opf_dir, &p);
    Some(make_data_uri(&mime, &data))
}

/// The earliest image tag at or after `pos`: its start, and whether it is a
/// vector-image cross-reference tag rather than a plain image tag.
pub open spec fn next_image_tag(doc: Seq<u8>, pos: int) -> Option<(int, bool)> {
    match (tag_from(doc, spec_pat_tag_img(), pos), tag_from(doc, spec_pat_tag_image(), pos)) {
        (None, None) => None,
        (Some(a), None) => Some((a, false)),
        (None, Some(b)) => Some((b, true)),
        (Some(a), Some(b)) => if a <= b {
            Some((a, false))
        } else {
            Some((b, true))
        },
    }
}

/// The earliest image tag starts at or after the search position, inside the
/// document.
pub proof fn lemma_next_image_tag(doc: Seq<u8>, pos: int)
    requires
        0 <= pos,
    ensures
        match next_image_tag(doc, pos) {
            Some(t) => pos <= t.0 && t.0 < doc.len(),
            None => true,
        },
{
    match tag_from(doc, spec_pat_tag_img(), pos) {
        Some(a) => lemma_tag_from_some(doc, spec_pat_tag_img(), pos, a),
        None => (),
    }
    match tag_from(doc, spec_pat_tag_image(), pos) {
        Some(b) => lemma_tag_from_some(doc, spec_pat_tag_image(), pos, b),
        None => (),
    }
}

/// The reference attribute of the tag window `[i, g)`: the source attribute
/// for a plain image tag, the cross-reference (with or without its
/// namespace prefix) for a vector image.
pub open spec fn ref_attr(doc: Seq<u8>, i: int, g: int, svg: bool) -> Option<(int, int)> {
    if svg {
        match attr_from(doc, spec_pat_attr_xlink_href(), i, g) {
            Some(v) => Some(v),
            None => attr_from(doc, crate::opf::spec_pat_attr_href(), i, g),
        }
    } else {
        attr_from(doc, spec_pat_attr_src(), i, g)
    }
}

/// The document from `pos` on, with every rewritable image reference
/// replaced by its inline data URI and everything else copied unchanged.
/// An image tag that never closes is malformed.
pub open spec fn rewrite_from(
    zipb: Seq<u8>,
    items: Seq<ManifestEntryV>,
    opf_dir: Seq<u8>,
    doc_dir: Seq<u8>,
    doc: Seq<u8>,
    pos: int,
) -> Result<Seq<u8>, XmlParseError>
    decreases doc.len() - pos
        when 0 <= pos <= doc.len()
        via rewrite_from_dec
{
    match next_image_tag(doc, pos) {
        None => Ok(doc.subrange(pos, doc.len() as int)),
        Some(t) => match first_match(doc, seq![62u8], t.0) {
            None => Err(XmlParseError::Malformed),
            Some(g) => match ref_attr(doc, t.0, g, t.1) {
                None => match rewrite_from(zipb, items, opf_dir, doc_dir, doc, g + 1) {
                    Err(e) => Err(e),
                    Ok(rest) => Ok(doc.subrange(pos, g + 1) + rest),
                },
                Some(v) => match rewrite_target(
                    zipb,
                    items,
                    opf_dir,
                    doc_dir,
                    doc.subrange(v.0, v.1),
                ) {
                    None => match rewrite_from(zipb, items, opf_dir, doc_dir, doc, v.1) {
                        Err(e) => Err(e),
                        Ok(rest) => Ok(doc.subrange(pos, v.1) + rest),
                    },
                    Some(uri) => match rewrite_from(zipb, items, opf_dir, doc_dir, doc, v.1) {
                        Err(e) => Err(e),
                        Ok(rest) => Ok(doc.subrange(pos, v.0) + uri + rest),
                    },
                },
            },
        },
    }
}

#[via_fn]
proof fn rewrite_from_dec(
    zipb: Seq<u8>,
    items: Seq<ManifestEntryV>,
    opf_dir: Seq<u8>,
    doc_dir: Seq<u8>,
    doc: Seq<u8>,
    pos: int,
) {
    lemma_next_image_tag(doc, pos);
    match next_image_tag(doc, pos) {
        Some(t) => {
            match first_match(doc, seq![62u8], t.0) {
                Some(g) => {
                    lemma_first_match_some(doc, seq![62u8], t.0, g);
                    lemma_attr_from_some(doc, spec_pat_attr_xlink_href(), t.0, g);
                    lemma_attr_from_some(doc, crate::opf::spec_pat_attr_href(), t.0, g);
                    lemma_attr_from_some(doc, spec_pat_attr_src(), t.0, g);
                },
                None => (),
            }
        },
        None => (),
    }
}

/// Rewrites every rewritable image reference of a spine document into its
/// inline data URI, leaving unresolvable references unchanged.
#[verifier::loop_isolation(false)]
#[verifier::rlimit(100)]
fn rewrite_doc(
    zipb: &Vec<u8>,
    manifest: &Vec<ManifestEntry>,
    opf_dir: &Vec<u8>,
    doc_dir: &Vec<u8>,
    doc: &Vec<u8>,
) -> (r: Result<Vec<u8>, XmlParseError>)
    requires
        zip_ok(zipb@),
    ensures
        match r {
            Ok(v) => rewrite_from(zipb@, manifest.deep_view(), opf_dir@, doc_dir@, doc@, 0)
                == Ok::<Seq<u8>, XmlParseError>(v@),
            Err(e) => rewrite_from(zipb@, manifest.deep_view(), opf_dir@, doc_dir@, doc@, 0)
                == Err::<Seq<u8>, XmlParseError>(e),
        },
{
    let n = doc.len();
    let t_img = pat_tag_img();
    let t_image = pat_tag_image();
    let a_src = pat_attr_src();
    let a_xh = pat_attr_xlink_href();
    let a_h = crate::opf::pat_attr_href();
    let gtp: Vec<u8> = vec![62u8];
    proof {
        assert(gtp@ == seq![62u8]);
    }
    let ghost md = manifest.deep_view();
    let mut out: Vec<u8> = Vec::new();
    let mut pos: usize = 0;
    proof {
        assert(out@ + rewrite_from(zipb@, md, opf_dir@, doc_dir@, doc@, 0).unwrap()
            =~= rewrite_from(zipb@, md, opf_dir@, doc_dir@, doc@, 0).unwrap());
    }
    loop
        invariant
            pos <= n,
            match rewrite_from(zipb@, md, opf_dir@, doc_dir@, doc@, pos as int) {
                Ok(rest) => rewrite_from(zipb@, md, opf_dir@, doc_dir@, doc@, 0) == Ok::<
                    Seq<u8>,
                    XmlParseError,
                >(out@ + rest),
                Err(e) => rewrite_from(zipb@, md, opf_dir@, doc_dir@, doc@, 0) == Err::<
                    Seq<u8>,
                    XmlParseError,
                >(e),
            },
        decreases n - pos,
    {
        let r_img = find_tag(doc, &t_img, pos);
        let r_image = find_tag(doc, &t_image, pos);
        let mut i: usize = 0;
        let mut svg = false;
        let mut found = true;
        match (r_img, r_image) {
            (None, None) => {
                found = false;
            },
            (Some(a), None) => {
                i = a;
            },
            (None, Some(b)) => {
                i = b;
                svg = true;
            },
            (Some(a), Some(b)) => {
                if a <= b {
                    i = a;
                } else {
                    i = b;
                    svg = true;
                }
            },
        }
        if !found {
            let ghost old_out = out@;
            let tail = copy_range(doc, pos, n);
            out.extend_from_slice(tail.as_slice());
            proof {
                assert(out@ =~= old_out + doc@.subrange(pos as int, n as int));
            }
            return Ok(out);
        }
        proof {
            assert(next_image_tag(doc@, pos as int) == Some((i as int, svg)));
        }
        match find_sub(doc, i, &gtp) {
            None => {
                return Err(XmlParseError::Malformed);
            },
            Some(g) => {
                proof {
                    lemma_first_match_some(doc@, gtp@, i as int, g as int);
                    assert(g < n);
                }
                let attr = if svg {
                    match find_attr(doc, &a_xh, i, g) {
                        Some(v) => Some(v),
                        None => find_attr(doc, &a_h, i, g),
                    }
                } else {
                    find_attr(doc, &a_src, i, g)
                };
                proof {
                    lemma_attr_from_some(doc@, spec_pat_attr_xlink_href(), i as int, g as int);
                    lemma_attr_from_some(doc@, crate::opf::spec_pat_attr_href(), i as int, g as int);
                    lemma_attr_from_some(doc@, spec_pat_attr_src(), i as int, g as int);
                    match attr {
                        Some(v) => assert(ref_attr(doc@, i as int, g as int, svg) == Some(
                            (v.0 as int, v.1 as int),
                        )),
                        None => assert(ref_attr(doc@, i as int, g as int, svg) is None),
                    }
                }
                match attr {
                    None => {
                        let ghost old_out = out@;
                        let ghost rest_here = rewrite_from(
                            zipb@, md, opf_dir@, doc_dir@, doc@, g + 1,
                        );
                        let chunk = copy_range(doc, pos, g + 1);
                        out.extend_from_slice(chunk.as_slice());
                        proof {
                            assert(out@ =~= old_out + doc@.subrange(pos as int, g + 1));
                            match rest_here {
                                Ok(rest) => {
                                    assert(old_out + (doc@.subrange(pos as int, g + 1) + rest)
                                        =~= out@ + rest);
                                },
                                Err(_) => {},
                            }
                        }
                        pos = g + 1;
                    },
                    Some(v) => {
                        let val = copy_range(doc, v.0, v.1);
                        let ghost old_out = out@;
                        let ghost rest_here = rewrite_from(
                            zipb@, md, opf_dir@, doc_dir@, doc@, v.1 as int,
                        );
                        match rewrite_value(zipb, manifest, opf_dir, doc_dir, &val) {
                            Some(uri) => {
                                let chunk = copy_range(doc, pos, v.0);
                                out.extend_from_slice(chunk.as_slice());
                                out.extend_from_slice(uri.as_slice());
                                proof {
                                    assert(out@ =~= old_out + (doc@.subrange(pos as int, v.0 as int)
                                        + uri@));
                                    match rest_here {
                                        Ok(rest) => {
                                            assert(old_out + (doc@.subrange(pos as int, v.0 as int)
                                                + uri@ + rest) =~= out@ + rest);
                                        },
                                        Err(_) => {},
                                    }
                                }
                            },
                            None => {
                                let chunk = copy_range(doc, pos, v.1);
                                out.extend_from_slice(chunk.as_slice());
                                proof {
                                    assert(out@ =~= old_out + doc@.subrange(pos as int, v.1 as int));
                                    match rest_here {
                                        Ok(rest) => {
                                            assert(old_out + (doc@.subrange(pos as int, v.1 as int)
                                                + rest) =~= out@ + rest);
                                        },
                                        Err(_) => {},
                                    }
                                }
                            },
                        }
                        pos = v.1;
                    },
                }
            },
        }
    }
}

/// The concatenated rewritten content of the spine documents from index `k`
/// on, in spine order: each reference resolves through the manifest to a
/// safe archive path, its document is extracted, rewritten, and appended.
pub open spec fn spec_spine_content(
    zipb: Seq<u8>,
    items: Seq<ManifestEntryV>,
    dir: Seq<u8>,
    spine: Seq<Seq<u8>>,
    k: int,
) -> Result<Seq<u8>, EpubError>
    decreases spine.len() - k,
{
    if k < 0 || k >= spine.len() {
        Ok(Seq::<u8>::empty())
    } else {
        match crate::opf::item_href(items, spine[k]) {
            None => Err(
                EpubError::Metadata(crate::errors::MetadataError::DanglingSpineRef),
            ),
            Some(href) => match resolve_spec(dir, href) {
                None => Err(EpubError::Archive(crate::errors::ArchiveError::PathTraversal)),
                Some(p) => if !valid_entry_path(p) {
                    Err(EpubError::Archive(crate::errors::ArchiveError::PathTraversal))
                } else {
                    match zip_data(zipb, p) {
                        None => Err(
                            EpubError::Archive(crate::errors::ArchiveError::EntryNotFound),
                        ),
                        Some(docb) => match rewrite_from(zipb, items, dir, dir_of(p), docb, 0) {
                            Err(e) => Err(EpubError::Xml(e)),
                            Ok(rw) => match spec_spine_content(zipb, items, dir, spine, k + 1) {
                                Err(e) => Err(e),
                                Ok(rest) => Ok(rw + rest),
                            },
                        },
                    }
                },
            },
        }
    }
}

/// The assembled content of the whole archive: the package document is
/// located through the container descriptor and parsed, and the spine
/// documents are rewritten and concatenated in reading order.
pub open spec fn spec_content(zipb: Seq<u8>) -> Result<Seq<u8>, EpubError> {
    match crate::container::spec_opf_path(zipb) {
        Err(e) => Err(e),
        Ok(op) => if !valid_entry_path(op) {
            Err(EpubError::Archive(crate::errors::ArchiveError::PathTraversal))
        } else {
            match zip_data(zipb, op) {
                None => Err(EpubError::Archive(crate::errors::ArchiveError::EntryNotFound)),
                Some(opf) => match crate::opf::spec_package(opf) {
                    Err(e) => Err(e),
                    Ok(pkg) => spec_spine_content(zipb, pkg.manifest, dir_of(op), pkg.spine, 0),
                },
            }
        },
    }
}

/// Assembles the self-contained content of the archive: every spine
/// document in reading order, with rewritable image references inlined.
#[verifier::loop_isolation(false)]
pub fn assemble_content(zipb: &Vec<u8>) -> (r: Result<Vec<u8>, EpubError>)
    ensures
        match r {
            Ok(v) => spec_content(zipb@) == Ok::<Seq<u8>, EpubError>(v@),
            Err(e) => spec_content(zipb@) == Err::<Seq<u8>, EpubError>(e),
        },
{
    let op = match crate::container::opf_path(zipb) {
        Ok(v) => v,
        Err(e) => {
            return Err(e);
        },
    };
    let opf = match archive_entry(zipb, &op) {
        Ok(v) => v,
        Err(e) => {
            return Err(EpubError::Archive(e));
        },
    };
    let dir = parent_dir(&op);
    let pkg = match crate::opf::parse_package(&opf, dir) {
        Ok(p) => p,
        Err(e) => {
            return Err(e);
        },
    };
    let ghost md = pkg.manifest.deep_view();
    let ghost sd = pkg.spine.deep_view();
    let ghost goal = spec_spine_content(zipb@, md, pkg.dir@, sd, 0);
    proof {
        assert(spec_content(zipb@) == goal);
    }
    let mut out: Vec<u8> = Vec::new();
    let mut k: usize = 0;
    proof {
        assert(out@ + goal.unwrap() =~= goal.unwrap());
    }
    while k < pkg.spine.len()
        invariant
            k <= sd.len() == pkg.spine@.len(),
            md == pkg.manifest.deep_view(),
            sd == pkg.spine.deep_view(),
            zip_ok(zipb@),
            match spec_spine_content(zipb@, md, pkg.dir@, sd, k as int) {
                Ok(rest) => goal == Ok::<Seq<u8>, EpubError>(out@ + rest),
                Err(e) => goal == Err::<Seq<u8>, EpubError>(e),
            },
            goal == spec_content(zipb@),
        decreases sd.len() - k,
    {
        proof {
            assert(sd[k as int] == pkg.spine@[k as int]@);
        }
        let href = match crate::opf::find_item_href(&pkg.manifest, &pkg.spine[k]) {
            Some(h) => h,
            None => {
                return Err(EpubError::Metadata(crate::errors::MetadataError::DanglingSpineRef));
            },
        };
        let p = match resolve_path(&pkg.dir, &href) {
            Ok(p) => p,
            Err(_) => {
                return Err(EpubError::Archive(crate::errors::ArchiveError::PathTraversal));
            },
        };
        let docb = match archive_entry(zipb, &p) {
            Ok(d) => d,
            Err(e) => {
                return Err(EpubError::Archive(e));
            },
        };
        let dd = parent_dir(&p);
        let ghost old_out = out@;
        let ghost rest_here = spec_spine_content(zipb@, md, pkg.dir@, sd, k + 1);
        match rewrite_doc(zipb, &pkg.manifest, &pkg.dir, &dd, &docb) {
            Ok(rw) => {
                out.extend_from_slice(rw.as_slice());
                proof {
                    assert(out@ =~= old_out + rw@);
                    match rest_here {
                        Ok(rest) => {
                            assert(old_out + (rw@ + rest) =~= out@ + rest);
                        },
                        Err(_) => {},
                    }
                }
            },
            Err(e) => {
                return Err(EpubError::Xml(e));
            },
        }
        k += 1;
    }
    proof {
        assert(spec_spine_content(zipb@, md, pkg.dir@, sd, sd.len() as int) == Ok::<
            Seq<u8>,
            EpubError,
        >(Seq::<u8>::empty()));
        assert(out@ + Seq::<u8>::empty() =~= out@);
    }
    Ok(out)
}

/// Returns the assembled self-contained content of the archive as text: the
/// result of the assembly, decoded as UTF-8.
pub fn get_epub_content(bytes: &Vec<u8>) -> (r: Result<String, EpubError>)
    ensures
        match r {
            Ok(s) => {
                &&& spec_content(bytes@) is Ok
                &&& s@ == crate::strings::utf8_lossy(spec_content(bytes@).unwrap())
                &&& (s@.len() == 0 <==> spec_content(bytes@).unwrap().len() == 0)
            },
            Err(e) => spec_content(bytes@) == Err::<Seq<u8>, EpubError>(e),
        },
{
    match assemble_content(bytes) {
        Ok(v) => Ok(crate::strings::lossy_string(&v)),
        Err(e) => Err(e),
    }
}

/// Rewriting never erases a document: from a position strictly inside the
/// document, a successful rewrite yields non-empty output.
pub proof fn lemma_rewrite_nonempty(
    zipb: Seq<u8>,
    items: Seq<ManifestEntryV>,
    opf_dir: Seq<u8>,
    doc_dir: Seq<u8>,
    doc: Seq<u8>,
    pos: int,
)
    requires
        0 <= pos < doc.len(),
    ensures
        match rewrite_from(zipb, items, opf_dir, doc_dir, doc, pos) {
            Ok(r) => r.len() > 0,
            Err(_) => true,
        },
{
    lemma_next_image_tag(doc, pos);
    match next_image_tag(doc, pos) {
        None => (),
        Some(t) => {
            match first_match(doc, seq![62u8], t.0) {
                None => (),
                Some(g) => {
                    lemma_first_match_some(doc, seq![62u8], t.0, g);
                    lemma_attr_from_some(doc, spec_pat_attr_xlink_href(), t.0, g);
                    lemma_attr_from_some(doc, crate::opf::spec_pat_attr_href(), t.0, g);
                    lemma_attr_from_some(doc, spec_pat_attr_src(), t.0, g);
                },
            }
        },
    }
}

/// Every spine document contributes to the assembled content: when the
/// assembly from index `j` succeeds and the document of the spine reference
/// at some later index `k` is non-empty, the assembled content is non-empty.
pub proof fn lemma_spine_content_nonempty(
    zipb: Seq<u8>,
    items: Seq<ManifestEntryV>,
    dir: Seq<u8>,
    spine: Seq<Seq<u8>>,
    j: int,
    k: int,
)
    requires
        0 <= j <= k < spine.len(),
        spec_spine_content(zipb, items, dir, spine, j) is Ok,
        ({
            let p = resolve_spec(dir, crate::opf::item_href(items, spine[k]).unwrap()).unwrap();
            zip_data(zipb, p).unwrap().len() > 0
        }),
    ensures
        spec_spine_content(zipb, items, dir, spine, j).unwrap().len() > 0,
    decreases k - j,
{
    let p = resolve_spec(dir, crate::opf::item_href(items, spine[j]).unwrap()).unwrap();
    let docb = zip_data(zipb, p).unwrap();
    if j == k {
        lemma_rewrite_nonempty(zipb, items, dir, dir_of(p), docb, 0);
    } else {
        lemma_spine_content_nonempty(zipb, items, dir, spine, j + 1, k);
    }
}

/// A document with no image tags is copied unchanged by the rewrite.
pub proof fn lemma_rewrite_identity(
    zipb: Seq<u8>,
    items: Seq<ManifestEntryV>,
    opf_dir: Seq<u8>,
    doc_dir: Seq<u8>,
    doc: Seq<u8>,
)
    requires
        next_image_tag(doc, 0) is None,
    ensures
        rewrite_from(zipb, items, opf_dir, doc_dir, doc, 0) == Ok::<Seq<u8>, XmlParseError>(doc),
{
    assert(doc.subrange(0, doc.len() as int) =~= doc);
}

} // verus!
