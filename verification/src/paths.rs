//! Resolution of resource references against the directory of the document
//! that declares them: segments are split on `/`, with `.` and `..`
//! normalized away, and any path that would climb out of the archive root is
//! rejected rather than resolved.

use vstd::prelude::*;

use crate::archive::valid_entry_path;
use crate::bytes::{copy_range, find_sub, first_match, lemma_first_match_some};
use crate::errors::ArchiveError;

verus! {

/// The path split at every `/`, from `pos` to the end. A trailing separator
/// yields a final empty segment; separators never appear inside segments.
pub open spec fn split_from(p: Seq<u8>, pos: int) -> Seq<Seq<u8>>
    decreases p.len() - pos
        when 0 <= pos <= p.len()
        via split_from_dec
{
    match first_match(p, seq![47u8], pos) {
        Some(j) => seq![p.subrange(pos, j)] + split_from(p, j + 1),
        None => seq![p.subrange(pos, p.len() as int)],
    }
}

#[via_fn]
proof fn split_from_dec(p: Seq<u8>, pos: int) {
    match first_match(p, seq![47u8], pos) {
        Some(j) => lemma_first_match_some(p, seq![47u8], pos, j),
        None => (),
    }
}

/// Normalization of the segments in `segs` onto the stack `acc`: empty and
/// `.` segments vanish, `..` pops the stack, and a pop past the root fails.
pub open spec fn norm_segs(acc: Seq<Seq<u8>>, segs: Seq<Seq<u8>>) -> Option<Seq<Seq<u8>>>
    decreases segs.len(),
{
    if segs.len() == 0 {
        Some(acc)
    } else {
        let s = segs[0];
        if s.len() == 0 || s == seq![46u8] {
            norm_segs(acc, segs.skip(1))
        } else if s == seq![46u8, 46u8] {
            if acc.len() == 0 {
                None
            } else {
                norm_segs(acc.drop_last(), segs.skip(1))
            }
        } else {
            norm_segs(acc.push(s), segs.skip(1))
        }
    }
}

/// The segments joined with a single `/` between each pair.
pub open spec fn join_segs(segs: Seq<Seq<u8>>) -> Seq<u8>
    decreases segs.len(),
{
    if segs.len() == 0 {
        Seq::<u8>::empty()
    } else if segs.len() == 1 {
        segs[0]
    } else {
        segs[0] + seq![47u8] + join_segs(segs.skip(1))
    }
}

/// Joining one more segment appends a separator and the segment.
pub proof fn lemma_join_snoc(segs: Seq<Seq<u8>>, x: Seq<u8>)
    ensures
        join_segs(segs.push(x)) == if segs.len() == 0 {
            x
        } else {
            join_segs(segs) + seq![47u8] + x
        },
    decreases segs.len(),
{
    if segs.len() == 0 {
        assert(segs.push(x)[0] == x);
    } else if segs.len() == 1 {
        assert(segs.push(x).skip(1) =~= seq![x]);
        assert(join_segs(seq![x]) == x);
        assert(segs.push(x)[0] == segs[0]);
    } else {
        assert(segs.push(x).skip(1) =~= segs.skip(1).push(x));
        lemma_join_snoc(segs.skip(1), x);
        assert(segs.push(x)[0] == segs[0]);
        assert((segs[0] + seq![47u8] + (join_segs(segs.skip(1)) + seq![47u8] + x)) =~= (segs[0]
            + seq![47u8] + join_segs(segs.skip(1))) + seq![47u8] + x);
    }
}

/// A reference `href`, resolved against the directory `base_dir` (empty for
/// the archive root): the normalized joined path, or nothing when
/// normalization climbs out of the root or leaves no path at all.
pub open spec fn resolve_spec(base_dir: Seq<u8>, href: Seq<u8>) -> Option<Seq<u8>> {
    let full = if base_dir.len() == 0 {
        href
    } else {
        base_dir + seq![47u8] + href
    };
    match norm_segs(Seq::<Seq<u8>>::empty(), split_from(full, 0)) {
        None => None,
        Some(ss) => if ss.len() == 0 {
            None
        } else {
            Some(join_segs(ss))
        },
    }
}

/// Resolves `href` against `base_dir` and rejects, as a traversal attempt,
/// every reference whose normalization escapes the archive root or otherwise
/// fails to name a safe entry path.
#[verifier::loop_isolation(false)]
pub fn resolve_path(base_dir: &Vec<u8>, href: &Vec<u8>) -> (r: Result<Vec<u8>, ArchiveError>)
    ensures
        ({
            let rs = resolve_spec(base_dir@, href@);
            match rs {
                Some(p) => if valid_entry_path(p) {
                    r is Ok && r.unwrap()@ == p
                } else {
                    r == Err::<Vec<u8>, ArchiveError>(ArchiveError::PathTraversal)
                },
                None => r == Err::<Vec<u8>, ArchiveError>(ArchiveError::PathTraversal),
            }
        }),
        r is Ok ==> valid_entry_path(r.unwrap()@) && resolve_spec(base_dir@, href@) == Some(
            r.unwrap()@,
        ),
{
    let mut full: Vec<u8> = Vec::new();
    if base_dir.len() > 0 {
        full.extend_from_slice(base_dir.as_slice());
        full.push(47);
    }
    full.extend_from_slice(href.as_slice());
    proof {
        if base_dir@.len() == 0 {
            assert(full@ =~= href@);
        } else {
            assert(full@ =~= base_dir@ + seq![47u8] + href@);
        }
    }

    let slash: Vec<u8> = vec![47];
    let n = full.len();
    let mut stack: Vec<Vec<u8>> = Vec::new();
    let mut pos: usize = 0;
    let mut done = false;
    let ghost goal = norm_segs(Seq::<Seq<u8>>::empty(), split_from(full@, 0));

    proof {
        assert(stack.deep_view() =~= Seq::<Seq<u8>>::empty());
    }
    while !done
        invariant
            pos <= n == full@.len(),
            slash@ == seq![47u8],
            !done ==> norm_segs(stack.deep_view(), split_from(full@, pos as int)) == goal,
            done ==> Some(stack.deep_view()) == goal,
        decreases n - pos + (if done { 0int } else { 1int }),
    {
        let j = find_sub(&full, pos, &slash);
        let end = match j {
            Some(i) => i,
            None => n,
        };
        proof {
            match j {
                Some(i) => {
                    lemma_first_match_some(full@, slash@, pos as int, i as int);
                },
                None => (),
            }
        }
        let seg = copy_range(&full, pos, end);
        let ghost segs_here = split_from(full@, pos as int);
        proof {
            match j {
                Some(i) => {
                    assert(segs_here == seq![seg@] + split_from(full@, i + 1));
                    assert(segs_here[0] == seg@);
                    assert(segs_here.skip(1) =~= split_from(full@, i + 1));
                },
                None => {
                    assert(segs_here == seq![seg@]);
                    assert(segs_here[0] == seg@);
                    assert(segs_here.skip(1) =~= Seq::<Seq<u8>>::empty());
                },
            }
        }
        let ghost old_stack = stack.deep_view();
        if seg.len() == 0 || (seg.len() == 1 && seg[0] == 46) {
            proof {
                if seg@.len() == 1 && seg@[0] == 46 {
                    assert(seg@ =~= seq![46u8]);
                }
            }
        } else if seg.len() == 2 && seg[0] == 46 && seg[1] == 46 {
            proof {
                assert(seg@ =~= seq![46u8, 46u8]);
            }
            if stack.len() == 0 {
                proof {
                    assert(old_stack =~= Seq::<Seq<u8>>::empty());
                    assert(segs_here[0] == seq![46u8, 46u8]);
                    assert(norm_segs(old_stack, segs_here) is None);
                    assert(goal is None);
                }
                return Err(ArchiveError::PathTraversal);
            }
            stack.pop();
            proof {
                assert(stack.deep_view() =~~= old_stack.drop_last());
            }
        } else {
            proof {
                assert(seg@.len() >= 1);
                assert(seg@ != seq![46u8] && seg@ != seq![46u8, 46u8]) by {
                    if seg@.len() == 1 {
                        assert(seg@[0] != 46);
                    }
                    if seg@.len() == 2 {
                        assert(!(seg@[0] == 46 && seg@[1] == 46));
                    }
                }
            }
            stack.push(seg);
            proof {
                assert(stack.deep_view() =~~= old_stack.push(segs_here[0]));
            }
        }
        match j {
            Some(i) => {
                pos = i + 1;
            },
            None => {
                done = true;
            },
        }
        proof {
            if done {
                assert(norm_segs(stack.deep_view(), Seq::<Seq<u8>>::empty()) == Some(
                    stack.deep_view(),
                ));
            }
        }
    }

    if stack.len() == 0 {
        return Err(ArchiveError::PathTraversal);
    }

    let mut out: Vec<u8> = Vec::new();
    let mut k: usize = 0;
    let ghost sd = stack.deep_view();
    proof {
        assert(sd.take(0) =~= Seq::<Seq<u8>>::empty());
    }
    while k < stack.len()
        invariant
            k <= stack@.len(),
            sd == stack.deep_view(),
            sd.len() == stack@.len(),
            out@ == join_segs(sd.take(k as int)),
        decreases stack@.len() - k,
    {
        if k > 0 {
            out.push(47);
        }
        out.extend_from_slice(stack[k].as_slice());
        proof {
            assert(sd.take(k + 1) =~= sd.take(k as int).push(sd[k as int]));
            lemma_join_snoc(sd.take(k as int), sd[k as int]);
            assert(sd[k as int] == stack@[k as int].deep_view());
            assert(stack@[k as int].deep_view() == stack@[k as int]@);
        }
        k += 1;
    }
    proof {
        assert(sd.take(sd.len() as int) =~= sd);
    }

    if !crate::archive::check_entry_path(&out) {
        return Err(ArchiveError::PathTraversal);
    }
    Ok(out)
}

} // verus!
