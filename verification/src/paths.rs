// File-name extensions of local paths.

use vstd::prelude::*;

verus! {

/// `e` can be the extension of `path`: it holds no `.` and stands in `path`
/// right after a `.`.
pub open spec fn is_extension_of(path: Seq<char>, e: Seq<char>) -> bool {
    &&& !e.contains('.')
    &&& exists|i: int|
        0 <= i && i + 1 + e.len() <= path.len() && #[trigger] path[i] == '.' && path.subrange(
            i + 1,
            i + 1 + e.len(),
        ) == e
}

/// Index of the last `c` in `s`, or -1 when `s` holds none.
pub open spec fn last_pos(s: Seq<char>, c: char) -> int
    decreases s.len(),
{
    if s.len() == 0 {
        -1
    } else if s.last() == c {
        s.len() - 1
    } else {
        last_pos(s.drop_last(), c)
    }
}

pub proof fn lemma_last_pos(s: Seq<char>, c: char)
    ensures
        -1 <= last_pos(s, c) < s.len(),
        last_pos(s, c) >= 0 ==> s[last_pos(s, c)] == c,
        forall|j: int| last_pos(s, c) < j < s.len() ==> s[j] != c,
    decreases s.len(),
{
    if s.len() > 0 && s.last() != c {
        lemma_last_pos(s.drop_last(), c);
        assert forall|j: int| last_pos(s, c) < j < s.len() implies s[j] != c by {
            if j < s.len() - 1 {
                assert(s[j] == s.drop_last()[j]);
            }
        }
    }
}

/// A path whose reading is the same on every platform: it holds neither `\`
/// nor `:`, so `/` alone separates its components and it has no drive prefix.
pub open spec fn plain_path(path: Seq<char>) -> bool {
    !path.contains('\\') && !path.contains(':')
}

/// The final component of a plain path, as `Path::file_name` documents it:
/// components are separated by `/`, empty ones and `.` ones are skipped, and
/// there is none when the path ends in `..` or has no component left.
pub open spec fn file_name_of(path: Seq<char>) -> Option<Seq<char>>
    decreases path.len(),
{
    let k = last_pos(path, '/');
    let seg = path.subrange(k + 1, path.len() as int);
    if seg.len() == 0 || seg == "."@ {
        if k < 0 {
            None
        } else {
            proof {
                lemma_last_pos(path, '/');
            }
            file_name_of(path.subrange(0, k))
        }
    } else if seg == ".."@ {
        None
    } else {
        Some(seg)
    }
}

/// The extension of a file name, as `Path::extension` documents it: what
/// follows the last `.`, or none when the name has no `.` or its only `.`
/// is the first character.
pub open spec fn name_extension(name: Seq<char>) -> Option<Seq<char>> {
    let k = last_pos(name, '.');
    if k <= 0 {
        None
    } else {
        Some(name.subrange(k + 1, name.len() as int))
    }
}

/// The extension of a plain path.
pub open spec fn extension_of(path: Seq<char>) -> Option<Seq<char>> {
    match file_name_of(path) {
        Some(name) => name_extension(name),
        None => None,
    }
}

/// The extension of a path (std's `Path::extension`, taken as text): the part
/// of the file name after its last `.`, or `None` when there is no file name
/// or it has no `.` past its first character. A returned extension holds no
/// `.` and follows a `.` in the path; on a plain path the result is exactly
/// `extension_of`. Which characters separate components of other paths
/// (`\` or a drive prefix) depends on the platform, and is not stated.
#[verifier::external_body]
pub(crate) fn path_extension(path: &str) -> (r: Option<String>)
    ensures
        r matches Some(e) ==> is_extension_of(path@, e@),
        plain_path(path@) ==> match extension_of(path@) {
            Some(x) => r matches Some(e) && e@ == x,
            None => r is None,
        },
{
    std::path::Path::new(path).extension().and_then(|e| e.to_str()).map(|e| e.to_string())
}

} // verus!
