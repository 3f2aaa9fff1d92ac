//! Exporter computations: the artifact names and contents that the caller
//! writes to disk — the assembled content's target path, the metadata
//! record rendered as a JSON document, the cover file name derived from its
//! mime type, and the font payloads selected from the manifest.

use vstd::prelude::*;

use crate::archive::{valid_entry_path, zip_data, zip_ok};
use crate::bytes::{has_sub, last_byte, find_last_byte, match_at, copy_range, starts_with, contains_sub};
use crate::meta::BookMetadata;
use crate::opf::{ManifestEntry, ManifestEntryV, Package};
use crate::paths::{resolve_path, resolve_spec};
use crate::strings::str_eq;

verus! {

/// One escaped character of a JSON string: quotes and backslashes are
/// escaped, common control characters use their short escapes, any other
/// control character is replaced by a space.
pub open spec fn esc_char(c: char) -> Seq<char> {
    if c == '"' {
        seq!['\\', '"']
    } else if c == '\\' {
        seq!['\\', '\\']
    } else if c == '\n' {
        seq!['\\', 'n']
    } else if c == '\r' {
        seq!['\\', 'r']
    } else if c == '\t' {
        seq!['\\', 't']
    } else if (c as u32) < 32 {
        seq![' ']
    } else {
        seq![c]
    }
}

/// The JSON escaping of the characters from index `i` on.
pub open spec fn esc_from(s: Seq<char>, i: int) -> Seq<char>
    decreases s.len() - i,
{
    if i < 0 || i >= s.len() {
        Seq::<char>::empty()
    } else {
        esc_char(s[i]) + esc_from(s, i + 1)
    }
}

/// The JSON escaping of a whole string.
pub open spec fn esc_str(s: Seq<char>) -> Seq<char> {
    esc_from(s, 0)
}

/// Escapes a string for inclusion in a JSON string literal.
#[verifier::loop_isolation(false)]
pub fn escape_json(s: &str) -> (r: String)
    ensures
        r@ == esc_str(s@),
{
    let n = s.unicode_len();
    let mut out = String::new();
    let mut i: usize = 0;
    proof {
        assert(out@ + esc_from(s@, 0) =~= esc_from(s@, 0));
    }
    while i < n
        invariant
            i <= n == s@.len(),
            esc_from(s@, 0) == out@ + esc_from(s@, i as int),
        decreases n - i,
    {
        let c = s.get_char(i);
        let ghost old_out = out@;
        if c == '"' {
            out.append("\\\"");
            proof {
                reveal_strlit("\\\"");
                assert(out@ =~= old_out + esc_char(c));
            }
        } else if c == '\\' {
            out.append("\\\\");
            proof {
                reveal_strlit("\\\\");
                assert(out@ =~= old_out + esc_char(c));
            }
        } else if c == '\n' {
            out.append("\\n");
            proof {
                reveal_strlit("\\n");
                assert(out@ =~= old_out + esc_char(c));
            }
        } else if c == '\r' {
            out.append("\\r");
            proof {
                reveal_strlit("\\r");
                assert(out@ =~= old_out + esc_char(c));
            }
        } else if c == '\t' {
            out.append("\\t");
            proof {
                reveal_strlit("\\t");
                assert(out@ =~= old_out + esc_char(c));
            }
        } else if (c as u32) < 32 {
            out.append(" ");
            proof {
                reveal_strlit(" ");
                assert(out@ =~= old_out + esc_char(c));
            }
        } else {
            out.append(s.substring_char(i, i + 1));
            proof {
                assert(s@.subrange(i as int, i + 1) =~= seq![s@[i as int]]);
                assert(out@ =~= old_out + esc_char(c));
            }
        }
        proof {
            assert(old_out + (esc_char(s@[i as int]) + esc_from(s@, i + 1)) =~= out@ + esc_from(
                s@,
                i + 1,
            ));
        }
        i += 1;
    }
    proof {
        assert(out@ + Seq::<char>::empty() =~= out@);
    }
    out
}

/// An optional field as JSON: `null`, or the escaped string in quotes.
pub open spec fn json_opt(v: Option<Seq<char>>) -> Seq<char> {
    match v {
        None => "null"@,
        Some(s) => "\""@ + esc_str(s) + "\""@,
    }
}

/// The author list's members as JSON string literals, comma separated, from
/// index `i` on.
pub open spec fn json_authors_from(a: Seq<Seq<char>>, i: int) -> Seq<char>
    decreases a.len() - i,
{
    if i < 0 || i >= a.len() {
        Seq::<char>::empty()
    } else {
        let item = "\""@ + esc_str(a[i]) + "\""@;
        if i + 1 < a.len() {
            item + ","@ + json_authors_from(a, i + 1)
        } else {
            item
        }
    }
}

/// The metadata record rendered as one JSON document: title, authors,
/// optional published date and identifier, file path and checksum.
pub open spec fn json_of_meta(
    title: Seq<char>,
    authors: Seq<Seq<char>>,
    date: Option<Seq<char>>,
    isbn: Option<Seq<char>>,
    file_path: Seq<char>,
    checksum: Seq<char>,
) -> Seq<char> {
    "{\"title\":\""@ + esc_str(title) + "\",\"authors\":["@ + json_authors_from(authors, 0)
        + "],\"published_date\":"@ + json_opt(date) + ",\"isbn\":"@ + json_opt(isbn)
        + ",\"file_path\":\""@ + esc_str(file_path) + "\",\"checksum\":\""@ + esc_str(checksum)
        + "\"}"@
}

/// Renders an optional field as JSON.
fn render_opt(v: &Option<String>) -> (r: String)
    ensures
        r@ == json_opt(match v {
            Some(s) => Some(s@),
            None => None,
        }),
{
    match v {
        None => {
            let mut out = String::new();
            out.append("null");
            proof {
                assert(out@ =~= "null"@);
            }
            out
        },
        Some(s) => {
            let mut out = String::new();
            out.append("\"");
            out.append(escape_json(s.as_str()).as_str());
            out.append("\"");
            proof {
                assert(out@ =~= "\""@ + esc_str(s@) + "\""@);
            }
            out
        },
    }
}

/// Serializes the metadata record to its JSON document.
#[verifier::loop_isolation(false)]
pub fn metadata_json(meta: &BookMetadata) -> (r: String)
    ensures
        r@ == json_of_meta(
            meta.title@,
            meta.authors.deep_view(),
            match meta.published_date {
                Some(d) => Some(d@),
                None => None,
            },
            match meta.isbn {
                Some(d) => Some(d@),
                None => None,
            },
            meta.file_path@,
            meta.checksum@,
        ),
{
    let ghost ad = meta.authors.deep_view();
    let mut out = String::new();
    out.append("{\"title\":\"");
    out.append(escape_json(meta.title.as_str()).as_str());
    out.append("\",\"authors\":[");
    let ghost head = out@;
    proof {
        assert(head =~= "{\"title\":\""@ + esc_str(meta.title@) + "\",\"authors\":["@);
    }
    let mut k: usize = 0;
    while k < meta.authors.len()
        invariant
            k <= ad.len() == meta.authors@.len(),
            ad == meta.authors.deep_view(),
            out@ == head + (json_authors_from(ad, 0).subrange(
                0,
                json_authors_from(ad, 0).len() - json_authors_from(ad, k as int).len(),
            )),
            json_authors_from(ad, k as int).len() <= json_authors_from(ad, 0).len(),
            json_authors_from(ad, 0) == out@.subrange(head.len() as int, out@.len() as int)
                + json_authors_from(ad, k as int),
        decreases ad.len() - k,
    {
        proof {
            assert(ad[k as int] == meta.authors@[k as int]@);
        }
        let ghost old_out = out@;
        out.append("\"");
        out.append(escape_json(meta.authors[k].as_str()).as_str());
        out.append("\"");
        if k + 1 < meta.authors.len() {
            out.append(",");
        }
        proof {
            let item = "\""@ + esc_str(ad[k as int]) + "\""@;
            if k + 1 < ad.len() {
                assert(out@ =~= old_out + (item + ","@));
                assert(json_authors_from(ad, k as int) =~= (item + ","@) + json_authors_from(
                    ad,
                    k + 1,
                ));
            } else {
                assert(out@ =~= old_out + item);
                assert(json_authors_from(ad, k as int) =~= item + json_authors_from(ad, k + 1));
            }
            assert(json_authors_from(ad, 0) =~= out@.subrange(head.len() as int, out@.len() as int)
                + json_authors_from(ad, k + 1));
            assert(out@ =~= head + (json_authors_from(ad, 0).subrange(
                0,
                json_authors_from(ad, 0).len() - json_authors_from(ad, k + 1).len(),
            )));
        }
        k += 1;
    }
    proof {
        assert(json_authors_from(ad, ad.len() as int) =~= Seq::<char>::empty());
        assert(out@ =~= head + json_authors_from(ad, 0));
    }
    out.append("],\"published_date\":");
    out.append(render_opt(&meta.published_date).as_str());
    out.append(",\"isbn\":");
    out.append(render_opt(&meta.isbn).as_str());
    out.append(",\"file_path\":\"");
    out.append(escape_json(meta.file_path.as_str()).as_str());
    out.append("\",\"checksum\":\"");
    out.append(escape_json(meta.checksum.as_str()).as_str());
    out.append("\"}");
    proof {
        assert(out@ =~= json_of_meta(
            meta.title@,
            ad,
            match meta.published_date {
                Some(d) => Some(d@),
                None => None,
            },
            match meta.isbn {
                Some(d) => Some(d@),
                None => None,
            },
            meta.file_path@,
            meta.checksum@,
        ));
    }
    out
}

/// A file-name character: ASCII letters and digits stay, anything else
/// becomes an underscore.
pub open spec fn sane_char(c: char) -> char {
    if ('0' <= c && c <= '9') || ('a' <= c && c <= 'z') || ('A' <= c && c <= 'Z') {
        c
    } else {
        '_'
    }
}

/// The title sanitized into a file-name stem.
pub open spec fn sanitize(s: Seq<char>) -> Seq<char> {
    s.map_values(|c: char| sane_char(c))
}

/// Sanitizes a title into a file-name stem.
#[verifier::loop_isolation(false)]
pub fn sanitize_name(s: &str) -> (r: String)
    ensures
        r@ == sanitize(s@),
{
    let n = s.unicode_len();
    let mut out = String::new();
    let mut i: usize = 0;
    while i < n
        invariant
            i <= n == s@.len(),
            out@ == sanitize(s@.take(i as int)),
        decreases n - i,
    {
        let c = s.get_char(i);
        let u = c as u32;
        let keep = (48 <= u && u <= 57) || (97 <= u && u <= 122) || (65 <= u && u <= 90);
        if keep {
            out.append(s.substring_char(i, i + 1));
            proof {
                assert(s@.subrange(i as int, i + 1) =~= seq![s@[i as int]]);
            }
        } else {
            out.append("_");
            proof {
                reveal_strlit("_");
            }
        }
        proof {
            assert(out@ =~= sanitize(s@.take(i + 1)));
        }
        i += 1;
    }
    proof {
        assert(s@.take(n as int) =~= s@);
    }
    out
}

/// The name of the JSON file for a metadata record: the sanitized title and
/// the `.json` suffix.
pub fn metadata_file_name(title: &str) -> (r: String)
    ensures
        r@ == sanitize(title@) + ".json"@,
{
    let mut out = sanitize_name(title);
    out.append(".json");
    out
}

/// The file extension for a cover's mime type, by the closed mapping of the
/// known image types; anything else gets the generic `img`.
pub open spec fn cover_ext(mime: Seq<char>) -> Seq<char> {
    if mime == "image/jpeg"@ {
        "jpg"@
    } else if mime == "image/png"@ {
        "png"@
    } else if mime == "image/gif"@ {
        "gif"@
    } else if mime == "image/svg+xml"@ {
        "svg"@
    } else {
        "img"@
    }
}

/// The name of the cover file for a title and a mime type: the sanitized
/// title, a `_cover` marker, and the extension for the mime type.
pub fn cover_file_name(title: &str, mime: &str) -> (r: String)
    ensures
        r@ == sanitize(title@) + "_cover."@ + cover_ext(mime@),
{
    let mut out = sanitize_name(title);
    out.append("_cover.");
    if str_eq(mime, "image/jpeg") {
        out.append("jpg");
    } else if str_eq(mime, "image/png") {
        out.append("png");
    } else if str_eq(mime, "image/gif") {
        out.append("gif");
    } else if str_eq(mime, "image/svg+xml") {
        out.append("svg");
    } else {
        out.append("img");
    }
    out
}

/// The target path of the assembled content under an output directory.
pub fn export_content_path(output_dir: &str) -> (r: String)
    ensures
        r@ == output_dir@ + "/extracted_content.html"@,
{
    let mut out = output_dir.to_owned();
    out.append("/extracted_content.html");
    out
}

/// Bytes of `font/`.
pub open spec fn spec_pat_font_slash() -> Seq<u8> {
    seq![102u8, 111u8, 110u8, 116u8, 47u8]
}

/// Builds the `font/` pattern.
pub fn pat_font_slash() -> (r: Vec<u8>)
    ensures
        r@ == spec_pat_font_slash(),
{
    vec![102u8, 111u8, 110u8, 116u8, 47u8]
}

/// Bytes of `font-`.
pub open spec fn spec_pat_font_dash() -> Seq<u8> {
    seq![102u8, 111u8, 110u8, 116u8, 45u8]
}

/// Builds the `font-` pattern.
pub fn pat_font_dash() -> (r: Vec<u8>)
    ensures
        r@ == spec_pat_font_dash(),
{
    vec![102u8, 111u8, 110u8, 116u8, 45u8]
}

/// Bytes of `application/vnd.ms-opentype`.
pub open spec fn spec_pat_ms_opentype() -> Seq<u8> {
    seq![
        97u8, 112u8, 112u8, 108u8, 105u8, 99u8, 97u8, 116u8, 105u8, 111u8, 110u8, 47u8, 118u8,
        110u8, 100u8, 46u8, 109u8, 115u8, 45u8, 111u8, 112u8, 101u8, 110u8, 116u8, 121u8, 112u8,
        101u8,
    ]
}

/// Builds the `application/vnd.ms-opentype` pattern.
pub fn pat_ms_opentype() -> (r: Vec<u8>)
    ensures
        r@ == spec_pat_ms_opentype(),
{
    vec![
        97u8, 112u8, 112u8, 108u8, 105u8, 99u8, 97u8, 116u8, 105u8, 111u8, 110u8, 47u8, 118u8,
        110u8, 100u8, 46u8, 109u8, 115u8, 45u8, 111u8, 112u8, 101u8, 110u8, 116u8, 121u8, 112u8,
        101u8,
    ]
}

/// A media type that denotes a font format: the dedicated `font/` types,
/// the `font-` application types, and the OpenType vendor type.
pub open spec fn is_font_media(mt: Seq<u8>) -> bool {
    ||| match_at(mt, spec_pat_font_slash(), 0)
    ||| has_sub(mt, spec_pat_font_dash())
    ||| mt == spec_pat_ms_opentype()
}

/// Decides whether a media type denotes a font format.
pub fn check_font_media(mt: &Vec<u8>) -> (r: bool)
    ensures
        r == is_font_media(mt@),
{
    if starts_with(mt, &pat_font_slash()) {
        return true;
    }
    if contains_sub(mt, &pat_font_dash()) {
        return true;
    }
    crate::bytes::bytes_eq(mt, &pat_ms_opentype())
}

/// The file-name part of a path: the bytes after the last `/`.
pub open spec fn base_of(p: Seq<u8>) -> Seq<u8> {
    match last_byte(p, 47, p.len() as int) {
        Some(s) => p.subrange(s + 1, p.len() as int),
        None => p,
    }
}

/// Takes the file-name part of a path.
pub fn base_name(p: &Vec<u8>) -> (r: Vec<u8>)
    ensures
        r@ == base_of(p@),
{
    let n = p.len();
    match find_last_byte(p, 47) {
        Some(s) => copy_range(p, s + 1, n),
        None => {
            let r = copy_range(p, 0, n);
            proof {
                assert(p@.subrange(0, n as int) =~= p@);
            }
            r
        },
    }
}

/// One extracted font: its original file name and its bytes.
#[derive(Debug)]
pub struct FontFile {
    pub name: Vec<u8>,
    pub bytes: Vec<u8>,
}

/// The mathematical value of an extracted font.
#[verifier::ext_equal]
pub struct FontFileV {
    pub name: Seq<u8>,
    pub bytes: Seq<u8>,
}

impl View for FontFile {
    type V = FontFileV;

    open spec fn view(&self) -> FontFileV {
        FontFileV { name: self.name@, bytes: self.bytes@ }
    }
}

impl DeepView for FontFile {
    type V = FontFileV;

    open spec fn deep_view(&self) -> FontFileV {
        self.view()
    }
}

/// The font payloads of the manifest entries from index `k` on: for every
/// entry whose media type denotes a font and whose reference resolves to a
/// safe readable archive path, its original file name and bytes; entries
/// that fail to resolve are skipped, never fatal.
pub open spec fn font_payloads_from(
    zipb: Seq<u8>,
    items: Seq<ManifestEntryV>,
    dir: Seq<u8>,
    k: int,
) -> Seq<FontFileV>
    decreases items.len() - k,
{
    if k < 0 || k >= items.len() {
        Seq::<FontFileV>::empty()
    } else {
        let rest = font_payloads_from(zipb, items, dir, k + 1);
        if is_font_media(items[k].media_type) {
            match resolve_spec(dir, items[k].href) {
                None => rest,
                Some(p) => if !valid_entry_path(p) {
                    rest
                } else {
                    match zip_data(zipb, p) {
                        None => rest,
                        Some(d) => seq![FontFileV { name: base_of(p), bytes: d }] + rest,
                    }
                },
            }
        } else {
            rest
        }
    }
}

/// Collects the font payloads declared by a parsed package: each font
/// entry's original file name and bytes, in manifest order; entries that
/// fail to resolve are skipped. An unreadable archive yields no payloads.
#[verifier::loop_isolation(false)]
pub fn font_payloads(zipb: &Vec<u8>, pkg: &Package) -> (r: Vec<FontFile>)
    ensures
        zip_ok(zipb@) ==> r.deep_view() == font_payloads_from(
            zipb@,
            pkg.manifest.deep_view(),
            pkg.dir@,
            0,
        ),
        !zip_ok(zipb@) ==> r@.len() == 0,
{
    if !crate::archive::zip_open_check(zipb) {
        return Vec::new();
    }
    let ghost md = pkg.manifest.deep_view();
    let ghost goal = font_payloads_from(zipb@, md, pkg.dir@, 0);
    let mut out: Vec<FontFile> = Vec::new();
    let mut k: usize = 0;
    proof {
        assert(out.deep_view() + goal =~= goal);
    }
    while k < pkg.manifest.len()
        invariant
            k <= md.len() == pkg.manifest@.len(),
            md == pkg.manifest.deep_view(),
            goal == out.deep_view() + font_payloads_from(zipb@, md, pkg.dir@, k as int),
        decreases md.len() - k,
    {
        proof {
            assert(md[k as int] == pkg.manifest@[k as int]@);
        }
        let ghost old_out = out.deep_view();
        let ghost rest = font_payloads_from(zipb@, md, pkg.dir@, k + 1);
        if check_font_media(&pkg.manifest[k].media_type) {
            match resolve_path(&pkg.dir, &pkg.manifest[k].href) {
                Err(_) => {},
                Ok(p) => {
                    match crate::archive::archive_entry(zipb, &p) {
                        Err(_) => {},
                        Ok(d) => {
                            let f = FontFile { name: base_name(&p), bytes: d };
                            let ghost fv = f@;
                            out.push(f);
                            proof {
                                assert(out.deep_view() =~~= old_out.push(fv));
                                assert(old_out + (seq![fv] + rest) =~= out.deep_view() + rest);
                            }
                        },
                    }
                },
            }
        }
        k += 1;
    }
    proof {
        assert(font_payloads_from(zipb@, md, pkg.dir@, md.len() as int) =~= Seq::<
            FontFileV,
        >::empty());
        assert(out.deep_view() + Seq::<FontFileV>::empty() =~= out.deep_view());
    }
    out
}

} // verus!
