//! Archive-relative entry names: stripping the source root from a path
//! and normalizing separators to forward slashes.

use vstd::prelude::*;
use crate::error::ZipError;

verus! {

/// Path separators normalized: every backslash becomes a forward slash,
/// every other character stays.
pub open spec fn sanitize_chars(s: Seq<char>) -> Seq<char> {
    s.map_values(|c: char| if c == '\\' { '/' } else { c })
}

/// A normalized name never holds a backslash, whatever host convention
/// produced the path.
pub proof fn lemma_sanitized_has_no_backslash(s: Seq<char>)
    ensures
        forall|i: int| 0 <= i < sanitize_chars(s).len() ==> sanitize_chars(s)[i] != '\\',
{
}

/// Whether `p` lies under `root` character-wise, both already
/// normalized to `/` separators: `root` is a prefix and the cut falls
/// on a separator (or `root` is empty, or `p` is `root` itself).
pub open spec fn spec_is_under(p: Seq<char>, root: Seq<char>) -> bool {
    &&& p.len() >= root.len()
    &&& p.subrange(0, root.len() as int) == root
    &&& {
        ||| p.len() == root.len()
        ||| root.len() == 0
        ||| root[root.len() - 1] == '/'
        ||| p[root.len() as int] == '/'
    }
}

/// The part of `p` after `root` and after the separator dividing them.
pub open spec fn spec_rel_of(p: Seq<char>, root: Seq<char>) -> Seq<char> {
    if p.len() == root.len() {
        Seq::empty()
    } else if root.len() == 0 || root[root.len() - 1] == '/' {
        p.subrange(root.len() as int, p.len() as int)
    } else {
        p.subrange(root.len() as int + 1, p.len() as int)
    }
}

/// Replaces every backslash with a forward slash.
pub fn replace_backslashes(s: &str) -> (r: String)
    ensures
        r@ == sanitize_chars(s@),
{
    let n = s.unicode_len();
    let mut r = String::new();
    let mut i: usize = 0;
    while i < n
        invariant
            n == s@.len(),
            0 <= i <= n,
            r@ == sanitize_chars(s@.subrange(0, i as int)),
        decreases n - i,
    {
        let c = s.get_char(i);
        let nc = if c == '\\' {
            '/'
        } else {
            c
        };
        crate::zipio::push_char(&mut r, nc);
        proof {
            assert(s@.subrange(0, i + 1).drop_last() =~= s@.subrange(0, i as int));
            assert(sanitize_chars(s@.subrange(0, i + 1)) =~= sanitize_chars(
                s@.subrange(0, i as int),
            ).push(nc));
        }
        i = i + 1;
    }
    proof {
        assert(s@.subrange(0, n as int) =~= s@);
    }
    r
}

/// The archive-relative name of a discovered file: separators are
/// normalized to `/` first — so a path handed in with the backslash
/// convention of another host works the same — then the source-root
/// prefix is stripped. A path that does not lie under the root is
/// refused with `PathError` — unreachable for what the scanner yields,
/// but checked defensively.
pub fn archive_name(path: &str, root: &str) -> (r: Result<String, ZipError>)
    ensures
        match r {
            Ok(name) => {
                &&& spec_is_under(sanitize_chars(path@), sanitize_chars(root@))
                &&& name@ == spec_rel_of(sanitize_chars(path@), sanitize_chars(root@))
                &&& forall|i: int| 0 <= i < name@.len() ==> name@[i] != '\\'
            },
            Err(e) => {
                &&& !spec_is_under(sanitize_chars(path@), sanitize_chars(root@))
                &&& e matches ZipError::PathError(s) && s@ == path@
            },
        },
{
    let sp = replace_backslashes(path);
    let sr = replace_backslashes(root);
    let pn = sp.as_str().unicode_len();
    let rn = sr.as_str().unicode_len();
    if pn < rn {
        return Err(ZipError::PathError(path.to_owned()));
    }
    let mut i: usize = 0;
    while i < rn
        invariant
            sp@ == sanitize_chars(path@),
            sr@ == sanitize_chars(root@),
            pn == sp@.len(),
            rn == sr@.len(),
            rn <= pn,
            0 <= i <= rn,
            forall|j: int| 0 <= j < i ==> sp@[j] == sr@[j],
        decreases rn - i,
    {
        if sp.as_str().get_char(i) != sr.as_str().get_char(i) {
            return Err(ZipError::PathError(path.to_owned()));
        }
        i = i + 1;
    }
    proof {
        assert(sp@.subrange(0, rn as int) =~= sr@);
    }
    let start: usize = if pn == rn {
        rn
    } else if rn == 0 {
        0
    } else if sr.as_str().get_char(rn - 1) == '/' {
        rn
    } else if sp.as_str().get_char(rn) == '/' {
        rn + 1
    } else {
        return Err(ZipError::PathError(path.to_owned()));
    };
    let rel = sp.as_str().substring_char(start, pn);
    proof {
        assert(rel@ =~= spec_rel_of(sp@, sr@));
        lemma_sanitized_has_no_backslash(path@);
    }
    Ok(rel.to_owned())
}

} // verus!
