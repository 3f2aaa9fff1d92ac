//! Minimal XML scanning over raw document bytes: locating tags by their
//! opening text, reading quoted attribute values inside a tag, and taking the
//! text between an element's open and close tags.

use vstd::prelude::*;

use crate::bytes::{find_sub, first_match, is_ws, lemma_first_match_some, match_at};
use crate::errors::XmlParseError;

verus! {

/// A byte that may follow a tag name: whitespace, `>`, or `/`.
pub open spec fn tag_boundary(b: u8) -> bool {
    is_ws(b) || b == 62 || b == 47
}

/// Executable twin of `tag_boundary`.
#[verifier::when_used_as_spec(tag_boundary)]
pub fn tag_boundary_check(b: u8) -> (r: bool)
    ensures
        r == tag_boundary(b),
{
    b == 32 || b == 9 || b == 10 || b == 13 || b == 62 || b == 47
}

/// Start of the first tag at or after `pos` whose opening text is `pat`
/// (a `<` and the tag name) followed by a boundary byte.
pub open spec fn tag_from(doc: Seq<u8>, pat: Seq<u8>, pos: int) -> Option<int>
    decreases doc.len() - pos
        when 0 <= pos && 1 <= pat.len()
        via tag_from_dec
{
    match first_match(doc, pat, pos) {
        None => None,
        Some(i) => if i + pat.len() < doc.len() && tag_boundary(doc[i + pat.len()]) {
            Some(i)
        } else {
            tag_from(doc, pat, i + 1)
        },
    }
}

#[via_fn]
proof fn tag_from_dec(doc: Seq<u8>, pat: Seq<u8>, pos: int) {
    match first_match(doc, pat, pos) {
        Some(i) => lemma_first_match_some(doc, pat, pos, i),
        None => (),
    }
}

/// A found tag lies at or after the search start, matches its pattern, and
/// is followed by a boundary byte inside the document.
pub proof fn lemma_tag_from_some(doc: Seq<u8>, pat: Seq<u8>, pos: int, i: int)
    requires
        0 <= pos,
        1 <= pat.len(),
        tag_from(doc, pat, pos) == Some(i),
    ensures
        pos <= i,
        match_at(doc, pat, i),
        i + pat.len() < doc.len(),
        tag_boundary(doc[i + pat.len()]),
    decreases doc.len() - pos,
{
    match first_match(doc, pat, pos) {
        Some(j) => {
            lemma_first_match_some(doc, pat, pos, j);
            if !(j + pat.len() < doc.len() && tag_boundary(doc[j + pat.len()])) {
                lemma_tag_from_some(doc, pat, j + 1, i);
            }
        },
        None => (),
    }
}

/// A found attribute value lies after the search position and closes before
/// the window's end, inside the document.
pub proof fn lemma_attr_from_some(doc: Seq<u8>, name: Seq<u8>, pos: int, hi: int)
    requires
        0 <= pos,
        1 <= name.len(),
    ensures
        match attr_from(doc, name, pos, hi) {
            Some(v) => pos < v.0 <= v.1 && v.1 < hi && v.1 + 1 <= doc.len(),
            None => true,
        },
    decreases doc.len() - pos,
{
    match first_match(doc, name, pos) {
        Some(i) => {
            lemma_first_match_some(doc, name, pos, i);
            if i + name.len() + 2 > hi {
            } else if 1 <= i && is_ws(doc[i - 1]) && doc[i + name.len()] == 61 && (doc[i
                + name.len() + 1] == 34 || doc[i + name.len() + 1] == 39) {
                let q = doc[i + name.len() + 1];
                match first_match(doc, seq![q], i + name.len() + 2) {
                    Some(c) => {
                        lemma_first_match_some(doc, seq![q], i + name.len() + 2, c);
                    },
                    None => (),
                }
            } else {
                lemma_attr_from_some(doc, name, i + 1, hi);
            }
        },
        None => (),
    }
}

/// The text range of a found element starts after the search position and
/// ends inside the document.
pub proof fn lemma_elem_text_bounds(doc: Seq<u8>, open: Seq<u8>, close: Seq<u8>, pos: int)
    requires
        0 <= pos,
        1 <= open.len(),
        1 <= close.len(),
    ensures
        match elem_text_from(doc, open, close, pos) {
            Ok(Some(v)) => pos < v.0 <= v.1 <= doc.len(),
            _ => true,
        },
{
    match tag_from(doc, open, pos) {
        Some(i) => {
            lemma_tag_from_some(doc, open, pos, i);
            match first_match(doc, seq![62u8], i) {
                Some(g) => {
                    lemma_first_match_some(doc, seq![62u8], i, g);
                    if doc[g - 1] != 47 {
                        match first_match(doc, close, g + 1) {
                            Some(c) => {
                                lemma_first_match_some(doc, close, g + 1, c);
                            },
                            None => (),
                        }
                    }
                },
                None => (),
            }
        },
        None => (),
    }
}

/// Finds the first tag opened by `pat` at or after `pos`.
#[verifier::loop_isolation(false)]
pub fn find_tag(doc: &Vec<u8>, pat: &Vec<u8>, pos: usize) -> (r: Option<usize>)
    requires
        pos <= doc@.len(),
        pat@.len() >= 1,
    ensures
        match r {
            Some(i) => {
                &&& tag_from(doc@, pat@, pos as int) == Some(i as int)
                &&& pos <= i
                &&& match_at(doc@, pat@, i as int)
                &&& i + pat@.len() < doc@.len()
                &&& tag_boundary(doc@[i + pat@.len()])
            },
            None => tag_from(doc@, pat@, pos as int) is None,
        },
{
    let n = doc.len();
    let mut p = pos;
    loop
        invariant
            pos <= p <= n,
            tag_from(doc@, pat@, pos as int) == tag_from(doc@, pat@, p as int),
        decreases n - p,
    {
        match find_sub(doc, p, pat) {
            None => {
                return None;
            },
            Some(i) => {
                proof {
                    lemma_first_match_some(doc@, pat@, p as int, i as int);
                }
                if i + pat.len() < n && tag_boundary_check(doc[i + pat.len()]) {
                    return Some(i);
                }
                p = i + 1;
            },
        }
    }
}

/// The value range of the first attribute `name` at or after `pos` whose
/// name is preceded by whitespace, followed by `="` or `='`, and whose
/// quoted value closes before `hi`.
pub open spec fn attr_from(doc: Seq<u8>, name: Seq<u8>, pos: int, hi: int) -> Option<(int, int)>
    decreases doc.len() - pos
        when 0 <= pos && 1 <= name.len()
        via attr_from_dec
{
    match first_match(doc, name, pos) {
        None => None,
        Some(i) => {
            if i + name.len() + 2 > hi {
                None
            } else if 1 <= i && is_ws(doc[i - 1]) && doc[i + name.len()] == 61 && (doc[i
                + name.len() + 1] == 34 || doc[i + name.len() + 1] == 39) {
                let q = doc[i + name.len() + 1];
                match first_match(doc, seq![q], i + name.len() + 2) {
                    Some(c) => if c < hi {
                        Some((i + name.len() + 2, c))
                    } else {
                        None
                    },
                    None => None,
                }
            } else {
                attr_from(doc, name, i + 1, hi)
            }
        },
    }
}

#[via_fn]
proof fn attr_from_dec(doc: Seq<u8>, name: Seq<u8>, pos: int, hi: int) {
    match first_match(doc, name, pos) {
        Some(i) => lemma_first_match_some(doc, name, pos, i),
        None => (),
    }
}

/// Finds the value range of the attribute `name` between `pos` and `hi`.
#[verifier::loop_isolation(false)]
pub fn find_attr(doc: &Vec<u8>, name: &Vec<u8>, pos: usize, hi: usize) -> (r: Option<
    (usize, usize),
>)
    requires
        pos <= doc@.len(),
        hi <= doc@.len(),
        name@.len() >= 1,
    ensures
        match r {
            Some(v) => {
                &&& attr_from(doc@, name@, pos as int, hi as int) == Some(
                    (v.0 as int, v.1 as int),
                )
                &&& pos <= v.0 <= v.1 < hi
            },
            None => attr_from(doc@, name@, pos as int, hi as int) is None,
        },
{
    let n = doc.len();
    let mut p = pos;
    loop
        invariant
            pos <= p <= n,
            attr_from(doc@, name@, pos as int, hi as int) == attr_from(
                doc@,
                name@,
                p as int,
                hi as int,
            ),
        decreases n - p,
    {
        match find_sub(doc, p, name) {
            None => {
                return None;
            },
            Some(i) => {
                proof {
                    lemma_first_match_some(doc@, name@, p as int, i as int);
                }
                let after = i + name.len();
                if hi < 2 || after > hi - 2 {
                    return None;
                }
                if 1 <= i && crate::bytes::ws(doc[i - 1]) && doc[after] == 61 && (doc[after + 1]
                    == 34 || doc[after + 1] == 39) {
                    let q = doc[after + 1];
                    let quote: Vec<u8> = vec![q];
                    let vs = after + 2;
                    match find_sub(doc, vs, &quote) {
                        Some(c) => {
                            proof {
                                lemma_first_match_some(doc@, quote@, vs as int, c as int);
                                assert(quote@ == seq![doc@[after + 1]]);
                                assert(first_match(doc@, quote@, vs as int) == Some(c as int));
                                if c < hi {
                                    assert(attr_from(doc@, name@, p as int, hi as int) == Some(
                                        (vs as int, c as int),
                                    ));
                                } else {
                                    assert(attr_from(doc@, name@, p as int, hi as int) is None);
                                }
                            }
                            if c < hi {
                                return Some((vs, c));
                            } else {
                                return None;
                            }
                        },
                        None => {
                            proof {
                                assert(quote@ == seq![doc@[after + 1]]);
                                assert(attr_from(doc@, name@, p as int, hi as int) is None);
                            }
                            return None;
                        },
                    }
                }
                p = i + 1;
            },
        }
    }
}

/// The text range of the first element at or after `pos` opened by `open`
/// and closed by `close`: nothing when no such element starts, the range
/// between the opening tag's `>` and the closing tag otherwise. A
/// self-closing element has an empty text range; a tag that never ends is
/// malformed.
pub open spec fn elem_text_from(doc: Seq<u8>, open: Seq<u8>, close: Seq<u8>, pos: int) -> Result<
    Option<(int, int)>,
    XmlParseError,
> {
    match tag_from(doc, open, pos) {
        None => Ok(None),
        Some(i) => match first_match(doc, seq![62u8], i) {
            None => Err(XmlParseError::Malformed),
            Some(g) => if doc[g - 1] == 47 {
                Ok(Some((g + 1, g + 1)))
            } else {
                match first_match(doc, close, g + 1) {
                    None => Err(XmlParseError::Malformed),
                    Some(c) => Ok(Some((g + 1, c))),
                }
            },
        },
    }
}

/// Finds the text range of the first element opened by `open` at or after
/// `pos`; the range of a self-closing element is empty.
pub fn find_elem_text(doc: &Vec<u8>, open: &Vec<u8>, close: &Vec<u8>, pos: usize) -> (r: Result<
    Option<(usize, usize)>,
    XmlParseError,
>)
    requires
        pos <= doc@.len(),
        open@.len() >= 1,
        open@[0] == 60,
        close@.len() >= 1,
    ensures
        match r {
            Ok(Some(v)) => {
                &&& elem_text_from(doc@, open@, close@, pos as int) == Ok::<_, XmlParseError>(
                    Some((v.0 as int, v.1 as int)),
                )
                &&& pos < v.0 <= v.1 <= doc@.len()
            },
            Ok(None) => elem_text_from(doc@, open@, close@, pos as int) == Ok::<
                Option<(int, int)>,
                XmlParseError,
            >(None),
            Err(e) => elem_text_from(doc@, open@, close@, pos as int) == Err::<
                Option<(int, int)>,
                XmlParseError,
            >(e),
        },
{
    let n = doc.len();
    let gt: Vec<u8> = vec![62];
    proof {
        assert(gt@ == seq![62u8]);
    }
    match find_tag(doc, open, pos) {
        None => Ok(None),
        Some(i) => {
            match find_sub(doc, i, &gt) {
                None => Err(XmlParseError::Malformed),
                Some(g) => {
                    proof {
                        lemma_first_match_some(doc@, gt@, i as int, g as int);
                        assert(doc@[i as int] == open@[0]);
                        assert(doc@[g as int] == 62);
                        assert(g != i);
                        assert(g < n);
                        assert(gt@ == seq![62u8]);
                    }
                    if doc[g - 1] == 47 {
                        proof {
                            assert(elem_text_from(doc@, open@, close@, pos as int) == Ok::<
                                _,
                                XmlParseError,
                            >(Some((g + 1 as int, g + 1 as int))));
                        }
                        Ok(Some((g + 1, g + 1)))
                    } else {
                        match find_sub(doc, g + 1, close) {
                            None => Err(XmlParseError::Malformed),
                            Some(c) => {
                                proof {
                                    lemma_first_match_some(doc@, close@, g + 1 as int, c as int);
                                    assert(elem_text_from(doc@, open@, close@, pos as int) == Ok::<
                                        _,
                                        XmlParseError,
                                    >(Some((g + 1 as int, c as int))));
                                }
                                Ok(Some((g + 1, c)))
                            },
                        }
                    }
                },
            }
        },
    }
}

} // verus!
