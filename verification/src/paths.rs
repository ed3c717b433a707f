//! What the library reads of a file path: its final component, the
//! extension of that component, and whether the path exists.
use vstd::prelude::*;
use crate::text::{chars_of, string_of_range};

verus! {

/// The final component of a path, as `std::path::Path::file_name` gives
/// it (`None` for a path that ends in `..` or has no component).
pub uninterp spec fn path_file_name(path: Seq<char>) -> Option<Seq<char>>;

/// The view of an optional string.
pub open spec fn opt_view(o: Option<String>) -> Option<Seq<char>> {
    match o {
        Some(s) => Some(s@),
        None => None,
    }
}

/// The final component of `path`.
///
/// Trusted: calls `std::path::Path::file_name` on the path and converts the
/// component back to a string (always possible, since it came from one).
/// The claim is that the result is `path_file_name` of the path.
#[verifier::external_body]
pub(crate) fn file_name_of(path: &str) -> (r: Option<String>)
    ensures
        opt_view(r) == path_file_name(path@),
{
    std::path::Path::new(path).file_name().and_then(|n| n.to_str()).map(|n| n.to_string())
}

/// A path as its `Debug` rendering writes it (`format!("{:?}", path)`):
/// quoted, with special characters escaped.
pub uninterp spec fn path_debug(path: Seq<char>) -> Seq<char>;

/// The `Debug` rendering of a path.
///
/// Trusted: formats `std::path::Path::new(path)` with `{:?}`. The claim is
/// only that the text is `path_debug` of the path: the rendering depends on
/// the path's text alone.
#[verifier::external_body]
pub(crate) fn path_debug_text(path: &str) -> (r: String)
    ensures
        r@ == path_debug(path@),
{
    format!("{:?}", std::path::Path::new(path))
}

/// Whether a path exists on disk.
///
/// Trusted: calls `std::path::Path::exists`. The answer depends on the
/// disk, so nothing is stated of it.
#[verifier::external_body]
pub(crate) fn path_exists(path: &str) -> bool {
    std::path::Path::new(path).exists()
}

/// The index of the last `c` in `s`, or -1 when there is none.
pub open spec fn last_index_of(s: Seq<char>, c: char) -> int
    decreases s.len(),
{
    if s.len() == 0 {
        -1
    } else if s.last() == c {
        s.len() - 1
    } else {
        last_index_of(s.drop_last(), c)
    }
}

/// The extension of a file name, as `Path::extension` defines it: the part
/// after the last `.`; none when there is no `.`, when the only `.` is the
/// first character, or for the name `..`.
pub open spec fn extension_of(name: Seq<char>) -> Option<Seq<char>> {
    let k = last_index_of(name, '.');
    if name == seq!['.', '.'] || k <= 0 {
        None
    } else {
        Some(name.skip(k + 1))
    }
}

/// The extension of a path, as `Path::extension` gives it.
pub open spec fn path_extension(path: Seq<char>) -> Option<Seq<char>> {
    match path_file_name(path) {
        Some(n) => extension_of(n),
        None => None,
    }
}

proof fn lemma_last_index_bounds(s: Seq<char>, c: char)
    ensures
        -1 <= last_index_of(s, c) < s.len(),
        last_index_of(s, c) >= 0 ==> s[last_index_of(s, c)] == c,
    decreases s.len(),
{
    if s.len() > 0 && s.last() != c {
        lemma_last_index_bounds(s.drop_last(), c);
    }
}

/// The extension of the file name `name`.
pub fn extension_of_name(name: &str) -> (r: Option<String>)
    ensures
        opt_view(r) == extension_of(name@),
{
    let cs = chars_of(name);
    let n = cs.len();
    if n == 2 && cs[0] == '.' && cs[1] == '.' {
        assert(cs@ == seq!['.', '.']);
        return None;
    }
    assert(cs@ != seq!['.', '.']) by {
        if cs@ == seq!['.', '.'] {
            assert(cs@[0] == '.' && cs@[1] == '.');
        }
    }
    let mut i = n;
    assert(cs@.take(n as int) == cs@);
    while i > 0 && cs[i - 1] != '.'
        invariant
            i <= n == cs@.len(),
            forall|j: int| i <= j < n ==> cs@[j] != '.',
            last_index_of(cs@, '.') == last_index_of(cs@.take(i as int), '.'),
        decreases i,
    {
        assert(cs@.take(i as int).drop_last() == cs@.take(i - 1));
        i = i - 1;
    }
    proof {
        if i > 0 {
            assert(cs@.take(i as int).last() == '.');
            assert(last_index_of(cs@.take(i as int), '.') == i - 1);
            if i > 1 {
                assert(cs@.skip(i as int) == cs@.subrange(i as int, n as int));
            }
        } else {
            assert(cs@.take(0).len() == 0);
        }
    }
    if i <= 1 {
        None
    } else {
        Some(string_of_range(&cs, i, n))
    }
}

} // verus!
