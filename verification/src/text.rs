//! Text helpers for file names: the leaf of a path, and its extension.

use vstd::prelude::*;
use vstd::utf8::encode_utf8_decode_utf8;

verus! {

/// The number of characters of `s` up to and including the last one that
/// is `a` or `b`; zero where neither occurs.
pub open spec fn after_last(s: Seq<char>, a: char, b: char) -> int
    decreases s.len(),
{
    if s.len() == 0 {
        0
    } else if s.last() == a || s.last() == b {
        s.len() as int
    } else {
        after_last(s.drop_last(), a, b)
    }
}

/// Where the leaf of a path begins: after its last separator, be it the
/// slash of POSIX or the backslash of Windows.
pub open spec fn leaf_start(s: Seq<char>) -> int {
    after_last(s, '/', '\\')
}

/// The leaf of a path: what follows its last separator, or all of it.
pub open spec fn leaf_of(s: Seq<char>) -> Seq<char> {
    s.subrange(leaf_start(s), s.len() as int)
}

/// Where the last dot-separated piece of a file name begins.
pub open spec fn extension_start(s: Seq<char>) -> int {
    after_last(s, '.', '.')
}

/// Whether a file name holds a dot at all.
pub open spec fn has_extension(s: Seq<char>) -> bool {
    extension_start(s) > 0
}

/// The last dot-separated piece of a file name; the whole name where it
/// holds no dot.
pub open spec fn extension_of(s: Seq<char>) -> Seq<char> {
    s.subrange(extension_start(s), s.len() as int)
}

/// A file name without its last dot and what follows it.
pub open spec fn stem_of(s: Seq<char>) -> Seq<char>
    recommends
        has_extension(s),
{
    s.take(extension_start(s) - 1)
}

/// The lower-case form of a text, as `str::to_lowercase` gives it.
pub uninterp spec fn lowercase(s: Seq<char>) -> Seq<char>;

/// The file name that results once the lower-case form of the extension is
/// known: the extension gives way to `new_extension` where that form is
/// `match_extension`, and `new_extension` is appended otherwise.
pub open spec fn with_extension(
    filename: Seq<char>,
    lowered: Seq<char>,
    match_extension: Seq<char>,
    new_extension: Seq<char>,
) -> Seq<char> {
    if has_extension(filename) && lowered == match_extension {
        stem_of(filename) + seq!['.'] + new_extension
    } else {
        filename + seq!['.'] + new_extension
    }
}

/// What `replace_or_add_extension` returns.
pub open spec fn replaced_extension(
    filename: Seq<char>,
    match_extension: Seq<char>,
    new_extension: Seq<char>,
) -> Seq<char> {
    with_extension(filename, lowercase(extension_of(filename)), match_extension, new_extension)
}

/// `str::to_lowercase`: the result is the lower-case form of the argument.
#[verifier::external_body]
fn to_lowercase(s: &str) -> (r: String)
    ensures
        r@ == lowercase(s@),
{
    s.to_lowercase()
}

/// Scans `s` once; returns the position after the last `a` or `b`, and the
/// number of characters in `s`.
fn scan_after_last(s: &str, a: char, b: char) -> (r: (usize, usize))
    ensures
        r.0 == after_last(s@, a, b),
        r.1 == s@.len(),
        r.0 <= r.1,
{
    let len = s.unicode_len();
    let mut start: usize = 0;
    let mut n: usize = 0;
    for c in iter: s.chars()
        invariant
            iter.seq() == s@,
            n == iter.index(),
            n <= s@.len(),
            s@.len() == len,
            start == after_last(s@.take(n as int), a, b),
            start <= n,
    {
        assert(s@.take(n + 1).drop_last() =~= s@.take(n as int));
        n = n + 1;
        if c == a || c == b {
            start = n;
        }
    }
    assert(s@.take(s@.len() as int) =~= s@);
    (start, n)
}

/// The last component of a path that may be written in the POSIX or in the
/// Windows style.
pub fn leafname(path: &str) -> (leaf: &str)
    ensures
        leaf@ == leaf_of(path@),
{
    let (start, len) = scan_after_last(path, '/', '\\');
    path.substring_char(start, len)
}

/// Whether two texts hold the same characters.
pub fn str_eq(a: &str, b: &str) -> (r: bool)
    ensures
        r == (a@ == b@),
{
    let x = a.as_bytes();
    let y = b.as_bytes();
    proof {
        encode_utf8_decode_utf8(a@);
        encode_utf8_decode_utf8(b@);
    }
    if x.len() != y.len() {
        return false;
    }
    let mut i: usize = 0;
    while i < x.len()
        invariant
            i <= x.len(),
            x.len() == y.len(),
            forall|j: int| 0 <= j < i ==> x@[j] == y@[j],
            a@ == b@ ==> x@ == y@,
        decreases x.len() - i,
    {
        if x[i] != y[i] {
            return false;
        }
        i = i + 1;
    }
    assert(x@ =~= y@);
    true
}

/// Gives `filename` the extension that goes with `lowered`, the lower-case
/// form of its present one.
pub fn replace_extension_given(
    filename: &str,
    lowered: &str,
    match_extension: &str,
    new_extension: &str,
) -> (r: String)
    ensures
        r@ == with_extension(filename@, lowered@, match_extension@, new_extension@),
{
    let (start, _len) = scan_after_last(filename, '.', '.');
    let mut out = if start > 0 && str_eq(lowered, match_extension) {
        filename.substring_char(0, start - 1).to_owned()
    } else {
        filename.to_owned()
    };
    proof {
        reveal_strlit(".");
    }
    out.append(".");
    out.append(new_extension);
    out
}

/// If `filename` ends with `match_extension`, whatever its case, removes
/// it. Appends `new_extension` to the result.
pub fn replace_or_add_extension(filename: &str, match_extension: &str, new_extension: &str) -> (r:
    String)
    ensures
        r@ == replaced_extension(filename@, match_extension@, new_extension@),
{
    let (start, len) = scan_after_last(filename, '.', '.');
    let lowered = to_lowercase(filename.substring_char(start, len));
    replace_extension_given(filename, lowered.as_str(), match_extension, new_extension)
}

} // verus!
