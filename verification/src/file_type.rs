//! The extension classifier: decides, per file, whether compression is
//! worth the CPU (deflate) or the bytes should be stored raw.
//!
//! The decision looks at the lowercased extension first: a set of formats
//! that are already internally compressed is stored raw, a set of text and
//! source formats is deflated, and an unknown extension falls back to a
//! size heuristic. When no size is known the classifier fails safe and
//! stores raw.

use vstd::prelude::*;
use crate::paths::sanitize_chars;

verus! {

/// Unknown-extension files above this many bytes are stored raw.
pub const SMALL_UNKNOWN_LIMIT: u64 = 1048576;

/// The lowercased form of one character: ASCII letters fold, all else stays.
pub open spec fn lower_char(c: char) -> char {
    if 'A' <= c && c <= 'Z' {
        ((c as u8) + 32) as char
    } else {
        c
    }
}

/// A string folded to lowercase, character by character.
pub open spec fn lower_chars(s: Seq<char>) -> Seq<char> {
    s.map_values(|c: char| lower_char(c))
}

/// The index of the last occurrence of `c` in `s`, or -1 when `c` does
/// not occur.
pub open spec fn last_index_of_char(s: Seq<char>, c: char) -> int
    decreases s.len(),
{
    if s.len() == 0 {
        -1
    } else if s[s.len() - 1] == c {
        s.len() - 1
    } else {
        last_index_of_char(s.drop_last(), c)
    }
}

/// The last occurrence lies inside the string, or is -1.
pub proof fn lemma_last_index_of_char_bounds(s: Seq<char>, c: char)
    ensures
        -1 <= last_index_of_char(s, c) < s.len(),
    decreases s.len(),
{
    if s.len() == 0 {
    } else if s[s.len() - 1] == c {
    } else {
        lemma_last_index_of_char_bounds(s.drop_last(), c);
    }
}

/// The characterization of `last_index_of_char` pins it down: any index
/// that carries `c` and is followed by no further `c` is the last one.
pub proof fn lemma_last_index_of_char_unique(s: Seq<char>, c: char, x: int)
    requires
        -1 <= x < s.len(),
        x >= 0 ==> s[x] == c,
        forall|j: int| x < j < s.len() ==> s[j] != c,
    ensures
        x == last_index_of_char(s, c),
    decreases s.len(),
{
    if s.len() == 0 {
    } else if s[s.len() - 1] == c {
        assert(x == s.len() - 1);
    } else {
        assert(x < s.len() - 1);
        lemma_last_index_of_char_unique(s.drop_last(), c, x);
    }
}

/// The file-name part of a path: everything after the last separator,
/// whichever of `/` and `\` the host wrote.
pub open spec fn file_name_of(p: Seq<char>) -> Seq<char> {
    p.subrange(last_index_of_char(sanitize_chars(p), '/') + 1, p.len() as int)
}

/// The extension of a path: the part of the file name after its last
/// dot. A name without a dot, and a hidden name whose only dot leads it,
/// have the empty extension.
pub open spec fn extension_of_spec(p: Seq<char>) -> Seq<char> {
    let name = file_name_of(p);
    let d = last_index_of_char(name, '.');
    if d <= 0 {
        Seq::empty()
    } else {
        name.subrange(d + 1, name.len() as int)
    }
}

/// Extensions of formats that are already internally compressed: the
/// emitted entry stores their bytes raw.
pub open spec fn is_stored_ext(e: Seq<char>) -> bool {
    ||| e == "pdf"@
    ||| e == "mp3"@
    ||| e == "mp4"@
    ||| e == "avi"@
    ||| e == "mkv"@
    ||| e == "mov"@
    ||| e == "zip"@
    ||| e == "rar"@
    ||| e == "7z"@
    ||| e == "gz"@
    ||| e == "bz2"@
    ||| e == "exe"@
    ||| e == "dll"@
    ||| e == "so"@
    ||| e == "iso"@
    ||| e == "dmg"@
    ||| e == "docx"@
    ||| e == "xlsx"@
    ||| e == "pptx"@
    ||| e == "rlib"@
}

/// Extensions of text, source and similar formats that deflate well.
pub open spec fn is_compressible_ext(e: Seq<char>) -> bool {
    ||| e == "txt"@
    ||| e == "md"@
    ||| e == "csv"@
    ||| e == "json"@
    ||| e == "xml"@
    ||| e == "yaml"@
    ||| e == "yml"@
    ||| e == "html"@
    ||| e == "css"@
    ||| e == "js"@
    ||| e == "log"@
    ||| e == "sql"@
    ||| e == "rs"@
    ||| e == "py"@
    ||| e == "java"@
    ||| e == "cpp"@
    ||| e == "c"@
    ||| e == "h"@
    ||| e == "ini"@
    ||| e == "conf"@
    ||| e == "config"@
    ||| e == "properties"@
    ||| e == "db"@
    ||| e == "sqlite"@
    ||| e == "bmp"@
    ||| e == "tiff"@
    ||| e == "glb"@
}

/// The classifier's full decision: store raw when the extension is known
/// incompressible; deflate when it is known text; otherwise store raw
/// exactly when the size is unknown or above the small-file limit.
pub open spec fn spec_should_store_raw(p: Seq<char>, size: Option<u64>) -> bool {
    let e = lower_chars(extension_of_spec(p));
    if is_stored_ext(e) {
        true
    } else if is_compressible_ext(e) {
        false
    } else {
        match size {
            Option::Some(n) => n > SMALL_UNKNOWN_LIMIT,
            Option::None => true,
        }
    }
}

/// Folds a string to ASCII lowercase.
pub fn to_ascii_lower(s: &str) -> (r: String)
    ensures
        r@ == lower_chars(s@),
{
    let n = s.unicode_len();
    let mut r = String::new();
    let mut i: usize = 0;
    while i < n
        invariant
            n == s@.len(),
            0 <= i <= n,
            r@ == lower_chars(s@.subrange(0, i as int)),
        decreases n - i,
    {
        let c = s.get_char(i);
        let lc = if 'A' <= c && c <= 'Z' {
            ((c as u8) + 32) as char
        } else {
            c
        };
        crate::zipio::push_char(&mut r, lc);
        proof {
            assert(s@.subrange(0, i + 1).drop_last() =~= s@.subrange(0, i as int));
            assert(lower_chars(s@.subrange(0, i + 1)) =~= lower_chars(
                s@.subrange(0, i as int),
            ).push(lower_char(c)));
        }
        i = i + 1;
    }
    proof {
        assert(s@.subrange(0, n as int) =~= s@);
    }
    r
}

/// Whether two strings hold the same characters.
pub fn str_eq(a: &str, b: &str) -> (r: bool)
    ensures
        r == (a@ == b@),
{
    let na = a.unicode_len();
    let nb = b.unicode_len();
    if na != nb {
        return false;
    }
    let mut i: usize = 0;
    while i < na
        invariant
            na == a@.len(),
            nb == b@.len(),
            na == nb,
            0 <= i <= na,
            forall|j: int| 0 <= j < i ==> a@[j] == b@[j],
        decreases na - i,
    {
        if a.get_char(i) != b.get_char(i) {
            return false;
        }
        i = i + 1;
    }
    proof {
        assert(a@ =~= b@);
    }
    true
}

/// The index after the last separator of the path, i.e. where its file
/// name starts.
fn name_start_of(path: &str) -> (r: usize)
    ensures
        r == last_index_of_char(sanitize_chars(path@), '/') + 1,
{
    let n = path.unicode_len();
    let ghost sanitized = sanitize_chars(path@);
    let mut sep: Option<usize> = None;
    let mut i: usize = 0;
    while i < n
        invariant
            n == path@.len(),
            sanitized == sanitize_chars(path@),
            0 <= i <= n,
            match sep {
                Option::Some(d) => {
                    &&& 0 <= d < i
                    &&& sanitized[d as int] == '/'
                    &&& forall|j: int| d < j < i ==> sanitized[j] != '/'
                },
                Option::None => forall|j: int| 0 <= j < i ==> sanitized[j] != '/',
            },
        decreases n - i,
    {
        let c = path.get_char(i);
        if c == '/' || c == '\\' {
            sep = Some(i);
        }
        i = i + 1;
    }
    match sep {
        Some(d) => {
            proof {
                lemma_last_index_of_char_unique(sanitized, '/', d as int);
            }
            d + 1
        },
        None => {
            proof {
                lemma_last_index_of_char_unique(sanitized, '/', -1);
            }
            0
        },
    }
}

/// Extracts the extension of a path, not yet lowercased.
pub fn extension_of(path: &str) -> (r: String)
    ensures
        r@ == extension_of_spec(path@),
{
    let n = path.unicode_len();
    let start = name_start_of(path);
    let ghost name = file_name_of(path@);
    proof {
        lemma_last_index_of_char_bounds(sanitize_chars(path@), '/');
        assert(sanitize_chars(path@).len() == path@.len());
    }
    let mut dot: Option<usize> = None;
    let mut i: usize = start;
    while i < n
        invariant
            n == path@.len(),
            start == last_index_of_char(sanitize_chars(path@), '/') + 1,
            start <= i <= n,
            match dot {
                Option::Some(d) => {
                    &&& start <= d < i
                    &&& path@[d as int] == '.'
                    &&& forall|j: int| d < j < i ==> path@[j] != '.'
                },
                Option::None => forall|j: int| start <= j < i ==> path@[j] != '.',
            },
        decreases n - i,
    {
        if path.get_char(i) == '.' {
            dot = Some(i);
        }
        i = i + 1;
    }
    proof {
        assert(name =~= path@.subrange(start as int, n as int));
    }
    match dot {
        Some(d) => {
            proof {
                assert(name[d - start] == path@[d as int]);
                lemma_last_index_of_char_unique(name, '.', d - start);
            }
            if d == start {
                proof {
                    assert(extension_of_spec(path@) =~= Seq::<char>::empty());
                }
                String::new()
            } else {
                let r = path.substring_char(d + 1, n).to_owned();
                proof {
                    assert(name.subrange(d - start + 1, name.len() as int) =~= path@.subrange(
                        d + 1,
                        n as int,
                    ));
                }
                r
            }
        },
        None => {
            proof {
                lemma_last_index_of_char_unique(name, '.', -1);
                assert(extension_of_spec(path@) =~= Seq::<char>::empty());
            }
            String::new()
        },
    }
}

/// Whether a lowercased extension is in the known-incompressible set.
pub fn stored_ext(e: &str) -> (r: bool)
    ensures
        r == is_stored_ext(e@),
{
    str_eq(e, "pdf") || str_eq(e, "mp3") || str_eq(e, "mp4") || str_eq(e, "avi") || str_eq(
        e,
        "mkv",
    ) || str_eq(e, "mov") || str_eq(e, "zip") || str_eq(e, "rar") || str_eq(e, "7z") || str_eq(
        e,
        "gz",
    ) || str_eq(e, "bz2") || str_eq(e, "exe") || str_eq(e, "dll") || str_eq(e, "so") || str_eq(
        e,
        "iso",
    ) || str_eq(e, "dmg") || str_eq(e, "docx") || str_eq(e, "xlsx") || str_eq(e, "pptx") || str_eq(
        e,
        "rlib",
    )
}

/// Whether a lowercased extension is in the known-text set.
pub fn compressible_ext(e: &str) -> (r: bool)
    ensures
        r == is_compressible_ext(e@),
{
    str_eq(e, "txt") || str_eq(e, "md") || str_eq(e, "csv") || str_eq(e, "json") || str_eq(
        e,
        "xml",
    ) || str_eq(e, "yaml") || str_eq(e, "yml") || str_eq(e, "html") || str_eq(e, "css") || str_eq(
        e,
        "js",
    ) || str_eq(e, "log") || str_eq(e, "sql") || str_eq(e, "rs") || str_eq(e, "py") || str_eq(
        e,
        "java",
    ) || str_eq(e, "cpp") || str_eq(e, "c") || str_eq(e, "h") || str_eq(e, "ini") || str_eq(
        e,
        "conf",
    ) || str_eq(e, "config") || str_eq(e, "properties") || str_eq(e, "db") || str_eq(e, "sqlite")
        || str_eq(e, "bmp") || str_eq(e, "tiff") || str_eq(e, "glb")
}

/// Decides whether a file's bytes go into the archive raw. `size` is the
/// file's byte count when it could be determined; an unknown size falls
/// back to the cheaper choice, storing raw.
pub fn should_store_raw(path: &str, size: Option<u64>) -> (r: bool)
    ensures
        r == spec_should_store_raw(path@, size),
{
    let ext = extension_of(path);
    let low = to_ascii_lower(ext.as_str());
    if stored_ext(low.as_str()) {
        true
    } else if compressible_ext(low.as_str()) {
        false
    } else {
        match size {
            Some(n) => n > SMALL_UNKNOWN_LIMIT,
            None => true,
        }
    }
}

} // verus!
