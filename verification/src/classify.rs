//! Image classifier: decides from a path's extension whether a filesystem
//! entry is a supported image, and maps it to its canonical MIME type.
//!
//! The extension is the part of the final path component after its last dot,
//! provided that dot is not the component's first character.

use vstd::prelude::*;
use vstd::string::StrSliceExecFns;

verus! {

/// Index of the last occurrence of `c` in `s`, or -1 if `c` does not occur.
pub open spec fn last_index_of(s: Seq<char>, c: char) -> int
    decreases s.len(),
{
    if s.len() == 0 {
        -1
    } else if s[s.len() - 1] == c {
        s.len() - 1
    } else {
        last_index_of(s.drop_last(), c)
    }
}

proof fn lemma_last_index_push(s: Seq<char>, x: char, c: char)
    ensures
        last_index_of(s.push(x), c) == if x == c {
            s.len() as int
        } else {
            last_index_of(s, c)
        },
{
    assert(s.push(x).drop_last() =~= s);
}

proof fn lemma_last_index_bound(s: Seq<char>, c: char)
    ensures
        -1 <= last_index_of(s, c) < s.len(),
    decreases s.len(),
{
    if s.len() > 0 && s[s.len() - 1] != c {
        lemma_last_index_bound(s.drop_last(), c);
    }
}

/// ASCII lowercase of a single character; everything else is unchanged.
pub open spec fn lower_char(c: char) -> char {
    match c {
        'A' => 'a',
        'B' => 'b',
        'C' => 'c',
        'D' => 'd',
        'E' => 'e',
        'F' => 'f',
        'G' => 'g',
        'H' => 'h',
        'I' => 'i',
        'J' => 'j',
        'K' => 'k',
        'L' => 'l',
        'M' => 'm',
        'N' => 'n',
        'O' => 'o',
        'P' => 'p',
        'Q' => 'q',
        'R' => 'r',
        'S' => 's',
        'T' => 't',
        'U' => 'u',
        'V' => 'v',
        'W' => 'w',
        'X' => 'x',
        'Y' => 'y',
        'Z' => 'z',
        _ => c,
    }
}

/// ASCII lowercase of a character sequence.
pub open spec fn lower_seq(s: Seq<char>) -> Seq<char> {
    s.map_values(|c: char| lower_char(c))
}

/// The extension of a path: the part of the final component after its last
/// dot, unless that dot begins the component (hidden files have no extension).
pub open spec fn spec_extension_of(p: Seq<char>) -> Option<Seq<char>> {
    let name_start = last_index_of(p, '/') + 1;
    let dot = last_index_of(p, '.');
    if dot > name_start {
        Some(p.subrange(dot + 1, p.len() as int))
    } else {
        None
    }
}

/// The final component of a path (possibly empty for paths ending in `/`).
pub open spec fn spec_file_name(p: Seq<char>) -> Seq<char> {
    p.subrange(last_index_of(p, '/') + 1, p.len() as int)
}

/// The fixed allow-list of supported extensions, compared lowercased.
pub open spec fn is_allowed_ext(l: Seq<char>) -> bool {
    ||| l == "jpg"@
    ||| l == "jpeg"@
    ||| l == "png"@
    ||| l == "gif"@
    ||| l == "bmp"@
    ||| l == "webp"@
    ||| l == "tif"@
    ||| l == "tiff"@
}

/// Whether a path names a supported image format.
pub open spec fn spec_is_supported(p: Seq<char>) -> bool {
    match spec_extension_of(p) {
        Some(e) => is_allowed_ext(lower_seq(e)),
        None => false,
    }
}

/// The canonical MIME type for a supported path, `None` otherwise.
pub open spec fn spec_mime_for(p: Seq<char>) -> Option<Seq<char>> {
    match spec_extension_of(p) {
        Some(e) => {
            let l = lower_seq(e);
            if l == "jpg"@ || l == "jpeg"@ {
                Some("image/jpeg"@)
            } else if l == "png"@ {
                Some("image/png"@)
            } else if l == "gif"@ {
                Some("image/gif"@)
            } else if l == "bmp"@ {
                Some("image/bmp"@)
            } else if l == "webp"@ {
                Some("image/webp"@)
            } else if l == "tif"@ || l == "tiff"@ {
                Some("image/tiff"@)
            } else {
                None
            }
        },
        None => None,
    }
}

/// Law: the allow-list and the MIME mapping cover exactly the same paths.
pub proof fn lemma_supported_iff_mime(p: Seq<char>)
    ensures
        spec_is_supported(p) <==> spec_mime_for(p) is Some,
{
}

fn to_lower(c: char) -> (r: char)
    ensures
        r == lower_char(c),
{
    match c {
        'A' => 'a',
        'B' => 'b',
        'C' => 'c',
        'D' => 'd',
        'E' => 'e',
        'F' => 'f',
        'G' => 'g',
        'H' => 'h',
        'I' => 'i',
        'J' => 'j',
        'K' => 'k',
        'L' => 'l',
        'M' => 'm',
        'N' => 'n',
        'O' => 'o',
        'P' => 'p',
        'Q' => 'q',
        'R' => 'r',
        'S' => 's',
        'T' => 't',
        'U' => 'u',
        'V' => 'v',
        'W' => 'w',
        'X' => 'x',
        'Y' => 'y',
        'Z' => 'z',
        _ => c,
    }
}

/// True iff `s`, lowercased, equals `lit` exactly.
fn lower_eq(s: &str, lit: &str) -> (r: bool)
    ensures
        r == (lower_seq(s@) == lit@),
{
    let n = s.unicode_len();
    if n != lit.unicode_len() {
        assert(lower_seq(s@).len() == s@.len());
        return false;
    }
    let mut i: usize = 0;
    while i < n
        invariant
            n == s@.len() && n == lit@.len(),
            i <= n,
            forall|k: int| 0 <= k < i ==> lower_char(s@[k]) == lit@[k],
        decreases n - i,
    {
        if to_lower(s.get_char(i)) != lit.get_char(i) {
            assert(lower_seq(s@)[i as int] != lit@[i as int]);
            return false;
        }
        i += 1;
    }
    assert(lower_seq(s@) =~= lit@);
    true
}

/// Index of the last occurrence of `c` among the first `n` characters.
fn find_last(s: &str, c: char) -> (r: Option<usize>)
    ensures
        match r {
            Some(j) => j < s@.len() && last_index_of(s@, c) == j as int,
            None => last_index_of(s@, c) == -1,
        },
{
    let n = s.unicode_len();
    let mut i: usize = 0;
    let mut found: Option<usize> = None;
    proof {
        assert(s@.subrange(0, 0) =~= Seq::<char>::empty());
    }
    while i < n
        invariant
            n == s@.len(),
            i <= n,
            match found {
                Some(j) => j < i && last_index_of(s@.subrange(0, i as int), c) == j as int,
                None => last_index_of(s@.subrange(0, i as int), c) == -1,
            },
        decreases n - i,
    {
        let ch = s.get_char(i);
        proof {
            assert(s@.subrange(0, i + 1) =~= s@.subrange(0, i as int).push(s@[i as int]));
            lemma_last_index_push(s@.subrange(0, i as int), s@[i as int], c);
        }
        if ch == c {
            found = Some(i);
        }
        i += 1;
    }
    proof {
        assert(s@.subrange(0, n as int) =~= s@);
    }
    found
}

/// The extension of `path`, as a borrowed substring.
fn extension_of<'a>(path: &'a str) -> (r: Option<&'a str>)
    ensures
        match r {
            Some(e) => spec_extension_of(path@) == Some(e@),
            None => spec_extension_of(path@) is None,
        },
{
    let n = path.unicode_len();
    let last_slash = find_last(path, '/');
    let last_dot = find_last(path, '.');
    proof {
        lemma_last_index_bound(path@, '/');
        lemma_last_index_bound(path@, '.');
    }
    let name_start: usize = match last_slash {
        Some(j) => j + 1,
        None => 0,
    };
    match last_dot {
        Some(d) => {
            if d > name_start {
                Some(path.substring_char(d + 1, n))
            } else {
                None
            }
        },
        None => None,
    }
}

/// True iff the path's extension (case-insensitive) is on the allow-list:
/// jpg, jpeg, png, gif, bmp, webp, tif, tiff.
pub fn is_supported_image(path: &str) -> (r: bool)
    ensures
        r == spec_is_supported(path@),
{
    match extension_of(path) {
        Some(e) => {
            lower_eq(e, "jpg") || lower_eq(e, "jpeg") || lower_eq(e, "png") || lower_eq(e, "gif")
                || lower_eq(e, "bmp") || lower_eq(e, "webp") || lower_eq(e, "tif") || lower_eq(
                e,
                "tiff",
            )
        },
        None => false,
    }
}

/// The canonical MIME type for the path's extension, `None` for anything else.
pub fn mime_type_for_path(path: &str) -> (r: Option<&'static str>)
    ensures
        match r {
            Some(m) => spec_mime_for(path@) == Some(m@),
            None => spec_mime_for(path@) is None,
        },
{
    match extension_of(path) {
        Some(e) => {
            if lower_eq(e, "jpg") || lower_eq(e, "jpeg") {
                Some("image/jpeg")
            } else if lower_eq(e, "png") {
                Some("image/png")
            } else if lower_eq(e, "gif") {
                Some("image/gif")
            } else if lower_eq(e, "bmp") {
                Some("image/bmp")
            } else if lower_eq(e, "webp") {
                Some("image/webp")
            } else if lower_eq(e, "tif") || lower_eq(e, "tiff") {
                Some("image/tiff")
            } else {
                None
            }
        },
        None => None,
    }
}

/// The final component of the path, as a borrowed substring.
pub fn file_name_of<'a>(path: &'a str) -> (r: &'a str)
    ensures
        r@ == spec_file_name(path@),
{
    let n = path.unicode_len();
    let last_slash = find_last(path, '/');
    proof {
        lemma_last_index_bound(path@, '/');
    }
    match last_slash {
        Some(j) => path.substring_char(j + 1, n),
        None => path.substring_char(0, n),
    }
}

} // verus!
