//! A file name without its final extension.

use vstd::prelude::*;

verus! {

/// Position of the last `'.'` of `s`, or -1 when `s` holds none.
pub open spec fn last_dot(s: Seq<char>) -> int
    decreases s.len(),
{
    if s.len() == 0 {
        -1
    } else if s.last() == '.' {
        s.len() - 1
    } else {
        last_dot(s.drop_last())
    }
}

/// A name that every platform reads as a single path component: it holds no
/// `'/'`, no `'\\'` (a separator on Windows) and no `':'` (which starts a
/// Windows prefix such as `C:`).
pub open spec fn is_plain_name(s: Seq<char>) -> bool {
    !s.contains('/') && !s.contains('\\') && !s.contains(':')
}

/// The stem of a plain file name (see `is_plain_name`): the text before
/// the final `'.'`, or the whole name when its only `'.'` leads it, when it
/// holds none, or when it is `..`.
pub open spec fn name_stem(s: Seq<char>) -> Seq<char> {
    if s == seq!['.', '.'] || last_dot(s) <= 0 {
        s
    } else {
        s.subrange(0, last_dot(s))
    }
}

/// What the standard library reports as the stem of the path `s`; `None`
/// where the path has no file name.
pub uninterp spec fn path_stem(s: Seq<char>) -> Option<Seq<char>>;

/// `name` without its final extension: the path's stem, or `name` itself
/// where the path has no file name.
pub open spec fn stem_or_name(name: Seq<char>) -> Seq<char> {
    match path_stem(name) {
        Some(t) => t,
        None => name,
    }
}

/// Relies on `std::path::Path::file_stem` (through `OsStr::to_str`, which
/// cannot fail on text cut from a `&str` at a `'.'`). For a plain name (no
/// `'/'`, `'\\'` or `':'`) the path is that one component on every
/// platform: it has no file name when it is
/// empty, `.` or `..`, and otherwise its stem is as its documentation gives
/// it: the whole name without an embedded `'.'` or with a leading one only,
/// else the part before the final `'.'`.
#[verifier::external_body]
fn file_stem(name: &str) -> (r: Option<String>)
    ensures
        match r {
            Some(t) => path_stem(name@) == Some(t@),
            None => path_stem(name@) is None,
        },
        is_plain_name(name@) ==> match r {
            Some(t) => name@.len() > 0 && name@ != seq!['.'] && name@ != seq!['.', '.'] && t@
                == name_stem(name@),
            None => name@.len() == 0 || name@ == seq!['.'] || name@ == seq!['.', '.'],
        },
{
    std::path::Path::new(name).file_stem().and_then(|s| s.to_str()).map(|s| s.to_string())
}

/// `filename` without its final extension, as the platform's path rules
/// give it. A plain name without a `'.'` past its first character, and one
/// that has no file name as a path (empty, `.`, `..`), comes back unchanged.
pub fn remove_extension(filename: &str) -> (r: String)
    ensures
        r@ == stem_or_name(filename@),
        is_plain_name(filename@) ==> r@ == name_stem(filename@),
{
    match file_stem(filename) {
        Some(t) => t,
        None => {
            let r = String::from_str(filename);
            proof {
                if is_plain_name(filename@) {
                    if filename@ == seq!['.'] {
                        assert(last_dot(filename@.drop_last()) == -1);
                    }
                }
            }
            r
        },
    }
}

} // verus!
