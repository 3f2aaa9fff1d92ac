//! Directory-scan filtering: of all paths that a caller enumerates, exactly
//! those whose name ends in the archive extension are kept, in order.

use vstd::prelude::*;

verus! {

/// The name ends in the archive extension, compared without regard to
/// letter case: a dot and the four extension letters.
pub open spec fn is_epub_name(s: Seq<char>) -> bool {
    &&& s.len() >= 5
    &&& s[s.len() - 5] == '.'
    &&& (s[s.len() - 4] == 'e' || s[s.len() - 4] == 'E')
    &&& (s[s.len() - 3] == 'p' || s[s.len() - 3] == 'P')
    &&& (s[s.len() - 2] == 'u' || s[s.len() - 2] == 'U')
    &&& (s[s.len() - 1] == 'b' || s[s.len() - 1] == 'B')
}

/// Decides whether a path carries the archive extension.
pub fn is_epub_path(name: &str) -> (r: bool)
    ensures
        r == is_epub_name(name@),
{
    let n = name.unicode_len();
    if n < 5 {
        return false;
    }
    let c0 = name.get_char(n - 5);
    let c1 = name.get_char(n - 4);
    let c2 = name.get_char(n - 3);
    let c3 = name.get_char(n - 2);
    let c4 = name.get_char(n - 1);
    c0 == '.' && (c1 == 'e' || c1 == 'E') && (c2 == 'p' || c2 == 'P') && (c3 == 'u' || c3 == 'U')
        && (c4 == 'b' || c4 == 'B')
}

/// The paths carrying the archive extension, in their given order.
pub open spec fn epub_names(s: Seq<Seq<char>>) -> Seq<Seq<char>>
    decreases s.len(),
{
    if s.len() == 0 {
        Seq::<Seq<char>>::empty()
    } else if is_epub_name(s[0]) {
        seq![s[0]] + epub_names(s.skip(1))
    } else {
        epub_names(s.skip(1))
    }
}

/// A path is kept exactly when it carries the archive extension: the filter
/// returns every matching path and nothing else.
pub proof fn lemma_epub_names_contains(s: Seq<Seq<char>>, x: Seq<char>)
    ensures
        epub_names(s).contains(x) <==> s.contains(x) && is_epub_name(x),
    decreases s.len(),
{
    if s.len() > 0 {
        lemma_epub_names_contains(s.skip(1), x);
        assert(s.contains(x) <==> s[0] == x || s.skip(1).contains(x)) by {
            if s.contains(x) {
                let i = choose|i: int| 0 <= i < s.len() && s[i] == x;
                if i > 0 {
                    assert(s.skip(1)[i - 1] == x);
                }
            }
            if s.skip(1).contains(x) {
                let i = choose|i: int| 0 <= i < s.skip(1).len() && s.skip(1)[i] == x;
                assert(s[i + 1] == x);
            }
        }
        if is_epub_name(s[0]) {
            assert(epub_names(s)[0] == s[0]);
            assert forall|y: Seq<char>|
                epub_names(s).contains(y) <==> (s[0] == y || epub_names(s.skip(1)).contains(
                    y,
                )) by {
                if epub_names(s).contains(y) {
                    let i = choose|i: int| 0 <= i < epub_names(s).len() && epub_names(s)[i] == y;
                    if i > 0 {
                        assert(epub_names(s.skip(1))[i - 1] == y);
                    }
                }
                if epub_names(s.skip(1)).contains(y) {
                    let i = choose|i: int|
                        0 <= i < epub_names(s.skip(1)).len() && epub_names(s.skip(1))[i] == y;
                    assert(epub_names(s)[i + 1] == y);
                }
            }
        }
    }
}

/// Keeps exactly the paths whose name ends in the archive extension,
/// preserving their order.
#[verifier::loop_isolation(false)]
pub fn filter_epub_paths(paths: &Vec<String>) -> (r: Vec<String>)
    ensures
        r.deep_view() == epub_names(paths.deep_view()),
{
    let ghost sd = paths.deep_view();
    proof {
        assert(sd.skip(0) =~= sd);
    }
    let mut out: Vec<String> = Vec::new();
    let mut k: usize = 0;
    proof {
        assert(out.deep_view() + epub_names(sd) =~= epub_names(sd));
    }
    while k < paths.len()
        invariant
            k <= sd.len() == paths@.len(),
            sd == paths.deep_view(),
            epub_names(sd) == out.deep_view() + epub_names(sd.skip(k as int)),
        decreases sd.len() - k,
    {
        proof {
            assert(sd.skip(k as int)[0] == sd[k as int]);
            assert(sd[k as int] == paths@[k as int]@);
            assert(sd.skip(k as int).skip(1) =~= sd.skip(k + 1));
        }
        let ghost old_out = out.deep_view();
        if is_epub_path(paths[k].as_str()) {
            out.push(paths[k].clone());
            proof {
                assert(out.deep_view() =~~= old_out.push(sd[k as int]));
                assert(old_out + (seq![sd[k as int]] + epub_names(sd.skip(k + 1)))
                    =~= out.deep_view() + epub_names(sd.skip(k + 1)));
            }
        }
        k += 1;
    }
    proof {
        assert(sd.skip(sd.len() as int) =~= Seq::<Seq<char>>::empty());
        assert(out.deep_view() + Seq::<Seq<char>>::empty() =~= out.deep_view());
    }
    out
}

} // verus!
