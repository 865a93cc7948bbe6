//! Contiguous runs of characters: where one occurs in another, and the
//! longest run that every string of a sequence shares.

use vstd::prelude::*;

verus! {

/// `t` occurs in `s` starting at position `i`.
pub open spec fn occurs_at(s: Seq<char>, t: Seq<char>, i: int) -> bool {
    0 <= i && i + t.len() <= s.len() && s.subrange(i, i + t.len()) == t
}

/// `t` is a contiguous run of characters of `s`.
pub open spec fn has_substring(s: Seq<char>, t: Seq<char>) -> bool {
    exists|i: int| occurs_at(s, t, i)
}

/// Every string of `names` has `t` as a contiguous run.
pub open spec fn common_to_all(names: Seq<Seq<char>>, t: Seq<char>) -> bool {
    forall|k: int| 0 <= k < names.len() ==> has_substring(#[trigger] names[k], t)
}

/// The non-empty run of the first string that starts at `start` and has
/// `len` characters is found in every string of `names`.
pub open spec fn is_common_window(names: Seq<Seq<char>>, start: int, len: int) -> bool {
    &&& names.len() > 0
    &&& 1 <= len
    &&& 0 <= start
    &&& start + len <= names[0].len()
    &&& common_to_all(names, names[0].subrange(start, start + len))
}

/// The window at `start` of `len` characters is the first common window in
/// search order: longer windows first, and among equal lengths the leftmost.
pub open spec fn is_first_common_window(names: Seq<Seq<char>>, start: int, len: int) -> bool {
    &&& is_common_window(names, start, len)
    &&& forall|s: int, l: int| l > len ==> !#[trigger] is_common_window(names, s, l)
    &&& forall|s: int| s < start ==> !#[trigger] is_common_window(names, s, len)
}

/// `r` is the longest common substring of `names` as the search defines it:
/// `None` when no non-empty run of the first string is common to all (so also
/// for an empty sequence), else the first common window in search order.
pub open spec fn is_lcs_result(names: Seq<Seq<char>>, r: Option<Seq<char>>) -> bool {
    &&& r is None ==> forall|s: int, l: int| !#[trigger] is_common_window(names, s, l)
    &&& r is Some ==> exists|s: int| #[trigger] is_first_common_run(names, r->0, s)
}

/// `t` is the first common window in search order, and it starts at `start`.
pub open spec fn is_first_common_run(names: Seq<Seq<char>>, t: Seq<char>, start: int) -> bool {
    &&& is_first_common_window(names, start, t.len() as int)
    &&& t == names[0].subrange(start, start + t.len())
}

/// The character sequences of a sequence of strings.
pub open spec fn names_view(names: Seq<String>) -> Seq<Seq<char>> {
    names.map_values(|s: String| s@)
}

/// The character sequence held by an optional string.
pub open spec fn opt_view(r: Option<String>) -> Option<Seq<char>> {
    match r {
        Some(t) => Some(t@),
        None => None,
    }
}

/// The characters of `s`, one by one.
pub fn chars_of(s: &str) -> (r: Vec<char>)
    ensures
        r@ == s@,
{
    let n = s.unicode_len();
    let mut r: Vec<char> = Vec::new();
    let mut i: usize = 0;
    while i < n
        invariant
            n == s@.len(),
            i <= n,
            r@ == s@.subrange(0, i as int),
        decreases n - i,
    {
        r.push(s.get_char(i));
        i = i + 1;
        assert(r@ =~= s@.subrange(0, i as int));
    }
    assert(r@ =~= s@);
    r
}

/// Whether the `len` characters of `hay` from `at` equal those of `pat` from
/// `from`.
pub fn window_matches(hay: &Vec<char>, at: usize, pat: &Vec<char>, from: usize, len: usize) -> (r:
    bool)
    requires
        at + len <= hay.len(),
        from + len <= pat.len(),
    ensures
        r == (hay@.subrange(at as int, at + len) == pat@.subrange(from as int, from + len)),
{
    let mut k: usize = 0;
    while k < len
        invariant
            at + len <= hay.len(),
            from + len <= pat.len(),
            k <= len,
            hay@.subrange(at as int, at + k) == pat@.subrange(from as int, from + k),
        decreases len - k,
    {
        if hay[at + k] != pat[from + k] {
            assert(hay@.subrange(at as int, at + len)[k as int] != pat@.subrange(
                from as int,
                from + len,
            )[k as int]);
            return false;
        }
        assert(hay@.subrange(at as int, at + k + 1) =~= hay@.subrange(at as int, at + k).push(
            hay@[at + k],
        ));
        assert(pat@.subrange(from as int, from + k + 1) =~= pat@.subrange(from as int, from + k).push(
            pat@[from + k],
        ));
        k = k + 1;
    }
    true
}

/// Whether the `len` characters of `pat` from `from` occur in `hay`.
pub fn occurs_in(hay: &Vec<char>, pat: &Vec<char>, from: usize, len: usize) -> (r: bool)
    requires
        from + len <= pat.len(),
    ensures
        r == has_substring(hay@, pat@.subrange(from as int, from + len)),
{
    let ghost t = pat@.subrange(from as int, from + len);
    if len > hay.len() {
        assert(forall|i: int| !occurs_at(hay@, t, i));
        return false;
    }
    if len == 0 {
        assert(hay@.subrange(0, 0) =~= t);
        assert(occurs_at(hay@, t, 0));
        return true;
    }
    let last = hay.len() - len;
    let mut i: usize = 0;
    while i <= last
        invariant
            from + len <= pat.len(),
            1 <= len <= hay.len(),
            last == hay.len() - len,
            t == pat@.subrange(from as int, from + len),
            i <= last + 1,
            forall|j: int| 0 <= j < i ==> !occurs_at(hay@, t, j),
        decreases hay.len() - len + 1 - i,
    {
        if window_matches(hay, i, pat, from, len) {
            assert(occurs_at(hay@, t, i as int));
            return true;
        }
        i = i + 1;
    }
    assert forall|j: int| !occurs_at(hay@, t, j) by {
        if 0 <= j < i {
        }
    }
    false
}

/// Whether the `len` characters of the first string from `start` occur in
/// every string of `all`.
fn window_in_all(all: &Vec<Vec<char>>, start: usize, len: usize) -> (r: bool)
    requires
        all.len() > 0,
        start + len <= all[0].len(),
    ensures
        r == common_to_all(all@.map_values(|v: Vec<char>| v@), all[0]@.subrange(start as int, start + len)),
{
    let ghost names = all@.map_values(|v: Vec<char>| v@);
    let ghost t = all[0]@.subrange(start as int, start + len);
    let mut k: usize = 0;
    while k < all.len()
        invariant
            all.len() > 0,
            start + len <= all[0].len(),
            names == all@.map_values(|v: Vec<char>| v@),
            t == all[0]@.subrange(start as int, start + len),
            k <= all.len(),
            forall|j: int| 0 <= j < k ==> has_substring(#[trigger] names[j], t),
        decreases all.len() - k,
    {
        if !occurs_in(&all[k], &all[0], start, len) {
            assert(!has_substring(names[k as int], t));
            return false;
        }
        k = k + 1;
    }
    true
}

/// The longest run of characters found in every string of `filenames`.
///
/// The runs of the first string are tried from the longest down, and among
/// runs of one length from the leftmost; the first that every string holds
/// is returned. `None` when the sequence is empty or no non-empty run is
/// common to all.
pub fn longest_common_substring(filenames: &[String]) -> (r: Option<String>)
    ensures
        is_lcs_result(names_view(filenames@), opt_view(r)),
{
    let ghost names = names_view(filenames@);
    if filenames.len() == 0 {
        return None;
    }
    let mut all: Vec<Vec<char>> = Vec::new();
    let mut i: usize = 0;
    while i < filenames.len()
        invariant
            i <= filenames.len(),
            all.len() == i,
            forall|j: int| 0 <= j < i ==> (#[trigger] all[j])@ == filenames[j]@,
        decreases filenames.len() - i,
    {
        all.push(chars_of(filenames[i].as_str()));
        i = i + 1;
    }
    assert(all@.map_values(|v: Vec<char>| v@) =~= names);
    let n = all[0].len();
    let mut len: usize = n;
    while len >= 1
        invariant
            filenames.len() > 0,
            all[0]@ == filenames[0]@,
            names == names_view(filenames@),
            names == all@.map_values(|v: Vec<char>| v@),
            all.len() > 0,
            n == all[0].len(),
            len <= n,
            forall|s: int, l: int| l > len ==> !#[trigger] is_common_window(names, s, l),
        decreases len,
    {
        let mut start: usize = 0;
        while start <= n - len
            invariant
                filenames.len() > 0,
                all[0]@ == filenames[0]@,
                names == names_view(filenames@),
                names == all@.map_values(|v: Vec<char>| v@),
                all.len() > 0,
                n == all[0].len(),
                1 <= len <= n,
                start <= n - len + 1,
                forall|s: int, l: int| l > len ==> !#[trigger] is_common_window(names, s, l),
                forall|s: int| s < start ==> !#[trigger] is_common_window(names, s, len as int),
            decreases n - len + 1 - start,
        {
            if window_in_all(&all, start, len) {
                let t = String::from_str(filenames[0].as_str().substring_char(start, start + len));
                assert(is_first_common_run(names, opt_view(Some(t))->0, start as int));
                assert(is_lcs_result(names, opt_view(Some(t))));
                return Some(t);
            }
            start = start + 1;
        }
        assert forall|s: int| !#[trigger] is_common_window(names, s, len as int) by {
            if s < start {
            }
        }
        len = len - 1;
    }
    None
}

/// A single non-empty string is its own longest common substring.
pub proof fn law_single_string(s: Seq<char>, r: Option<Seq<char>>)
    requires
        s.len() > 0,
        is_lcs_result(seq![s], r),
    ensures
        r == Some(s),
{
    let names = seq![s];
    let n = s.len() as int;
    assert(names[0] == s);
    assert(s.subrange(0, n) =~= s);
    assert(occurs_at(s, s, 0));
    assert(common_to_all(names, s));
    assert(is_common_window(names, 0, n));
    if r is Some {
        let t = r->0;
        let st = choose|st: int| #[trigger] is_first_common_run(names, t, st);
        assert(t.len() >= n);
        assert(st == 0);
        assert(t == s);
    }
}

/// When some string of the sequence is empty, there is no common substring.
pub proof fn law_empty_string_gives_none(names: Seq<Seq<char>>, k: int, r: Option<Seq<char>>)
    requires
        0 <= k < names.len(),
        names[k].len() == 0,
        is_lcs_result(names, r),
    ensures
        r is None,
{
    if r is Some {
        let t = r->0;
        let st = choose|st: int| #[trigger] is_first_common_run(names, t, st);
        assert(is_common_window(names, st, t.len() as int));
        assert(has_substring(names[k], t));
        let i = choose|i: int| occurs_at(names[k], t, i);
    }
}

/// A returned substring occurs in every string, and no longer run of
/// characters occurs in every string.
pub proof fn law_result_is_longest(names: Seq<Seq<char>>, t: Seq<char>, u: Seq<char>)
    requires
        is_lcs_result(names, Some(t)),
    ensures
        t.len() >= 1,
        common_to_all(names, t),
        u.len() > t.len() ==> !common_to_all(names, u),
{
    let st = choose|st: int| #[trigger] is_first_common_run(names, t, st);
    assert(is_common_window(names, st, t.len() as int));
    if u.len() > t.len() && common_to_all(names, u) {
        assert(has_substring(names[0], u));
        let i = choose|i: int| occurs_at(names[0], u, i);
        assert(is_common_window(names, i, u.len() as int));
    }
}

/// When nothing is returned for a non-empty sequence, no non-empty run of
/// characters occurs in every string.
pub proof fn law_none_means_nothing_common(names: Seq<Seq<char>>, u: Seq<char>)
    requires
        names.len() > 0,
        u.len() >= 1,
        is_lcs_result(names, None),
    ensures
        !common_to_all(names, u),
{
    if common_to_all(names, u) {
        assert(has_substring(names[0], u));
        let i = choose|i: int| occurs_at(names[0], u, i);
        assert(is_common_window(names, i, u.len() as int));
    }
}

/// The search has exactly one result for any sequence of strings.
pub proof fn law_result_is_unique(names: Seq<Seq<char>>, r1: Option<Seq<char>>, r2: Option<Seq<char>>)
    requires
        is_lcs_result(names, r1),
        is_lcs_result(names, r2),
    ensures
        r1 == r2,
{
    if r1 is Some {
        let s1 = choose|s: int| #[trigger] is_first_common_run(names, r1->0, s);
        assert(is_common_window(names, s1, r1->0.len() as int));
        if r2 is Some {
            let s2 = choose|s: int| #[trigger] is_first_common_run(names, r2->0, s);
            assert(is_common_window(names, s2, r2->0.len() as int));
            assert(r1->0.len() == r2->0.len());
            assert(s1 == s2);
        }
    } else if r2 is Some {
        let s2 = choose|s: int| #[trigger] is_first_common_run(names, r2->0, s);
        assert(is_common_window(names, s2, r2->0.len() as int));
    }
}

} // verus!
