//! The renames that take a run of characters out of file names.

use vstd::prelude::*;
use crate::substring::{chars_of, has_substring, names_view, occurs_in, window_matches};

verus! {

/// `s` with every occurrence of `t` taken out, matched from the left and
/// without overlap; `s` itself when `t` is empty.
pub open spec fn remove_all(s: Seq<char>, t: Seq<char>) -> Seq<char>
    decreases s.len(),
{
    if t.len() == 0 || s.len() < t.len() {
        s
    } else if s.subrange(0, t.len() as int) == t {
        remove_all(s.subrange(t.len() as int, s.len() as int), t)
    } else {
        seq![s[0]] + remove_all(s.subrange(1, s.len() as int), t)
    }
}

/// One file to rename, from its name to the new one.
#[derive(Debug, Clone, PartialEq, Eq)]
pub struct Rename {
    pub from: String,
    pub to: String,
}

impl Rename {
    /// The two names as character sequences.
    pub open spec fn view(&self) -> (Seq<char>, Seq<char>) {
        (self.from@, self.to@)
    }
}

/// The renames for `files` and `target`, in the order of `files`: each name
/// that holds the non-empty `target` goes to that name with `target` taken
/// out.
pub open spec fn planned_renames(files: Seq<Seq<char>>, target: Seq<char>) -> Seq<
    (Seq<char>, Seq<char>),
>
    decreases files.len(),
{
    if files.len() == 0 {
        seq![]
    } else {
        let rest = planned_renames(files.drop_last(), target);
        let f = files.last();
        if target.len() > 0 && has_substring(f, target) {
            rest.push((f, remove_all(f, target)))
        } else {
            rest
        }
    }
}

/// The views of a sequence of renames.
pub open spec fn renames_view(rs: Seq<Rename>) -> Seq<(Seq<char>, Seq<char>)> {
    rs.map_values(|r: Rename| r.view())
}

proof fn lemma_remove_all_step(s: Seq<char>, t: Seq<char>, i: int)
    requires
        t.len() > 0,
        0 <= i,
        i + t.len() <= s.len(),
    ensures
        s.subrange(i, i + t.len()) == t ==> remove_all(s.subrange(i, s.len() as int), t)
            == remove_all(s.subrange(i + t.len(), s.len() as int), t),
        s.subrange(i, i + t.len()) != t ==> remove_all(s.subrange(i, s.len() as int), t)
            == seq![s[i]] + remove_all(s.subrange(i + 1, s.len() as int), t),
{
    let rest = s.subrange(i, s.len() as int);
    assert(rest.subrange(0, t.len() as int) =~= s.subrange(i, i + t.len()));
    assert(rest.subrange(t.len() as int, rest.len() as int) =~= s.subrange(
        i + t.len(),
        s.len() as int,
    ));
    assert(rest.subrange(1, rest.len() as int) =~= s.subrange(i + 1, s.len() as int));
}

/// `s` with every occurrence of `t` taken out, matched from the left and
/// without overlap.
pub fn remove_substring(s: &str, t: &str) -> (r: String)
    ensures
        r@ == remove_all(s@, t@),
{
    let sc = chars_of(s);
    let tc = chars_of(t);
    let n = sc.len();
    let m = tc.len();
    if m == 0 || n < m {
        return String::from_str(s);
    }
    let mut out = String::new();
    let mut seg: usize = 0;
    let mut i: usize = 0;
    assert(s@.subrange(0, n as int) =~= s@);
    assert(out@ + s@.subrange(0, 0) =~= Seq::<char>::empty());
    while i <= n - m
        invariant
            sc@ == s@,
            tc@ == t@,
            n == s@.len(),
            m == t@.len(),
            0 < m <= n,
            seg <= i <= n,
            out@ + s@.subrange(seg as int, i as int) + remove_all(s@.subrange(i as int, n as int), t@)
                == remove_all(s@, t@),
        decreases n - i,
    {
        proof {
            lemma_remove_all_step(s@, t@, i as int);
        }
        if window_matches(&sc, i, &tc, 0, m) {
            assert(tc@.subrange(0, m as int) =~= t@);
            out.append(s.substring_char(seg, i));
            i = i + m;
            seg = i;
            assert(s@.subrange(seg as int, i as int) =~= Seq::<char>::empty());
        } else {
            assert(tc@.subrange(0, m as int) =~= t@);
            assert(s@.subrange(seg as int, i + 1) =~= s@.subrange(seg as int, i as int).push(
                s@[i as int],
            ));
            i = i + 1;
        }
    }
    proof {
        let rest = s@.subrange(i as int, n as int);
        assert(remove_all(rest, t@) == rest);
        assert(s@.subrange(seg as int, i as int) + rest =~= s@.subrange(seg as int, n as int));
    }
    out.append(s.substring_char(seg, n));
    out
}

/// The renames that take `target` out of the names in `files`, in their
/// order; none where `target` is empty.
pub fn rename_plan(files: &[String], target: &str) -> (r: Vec<Rename>)
    ensures
        renames_view(r@) == planned_renames(names_view(files@), target@),
{
    let ghost names = names_view(files@);
    let mut r: Vec<Rename> = Vec::new();
    let tc = chars_of(target);
    let m = tc.len();
    let mut i: usize = 0;
    while i < files.len()
        invariant
            names == names_view(files@),
            tc@ == target@,
            m == target@.len(),
            i <= files.len(),
            renames_view(r@) == planned_renames(names.subrange(0, i as int), target@),
        decreases files.len() - i,
    {
        let ghost before = r@;
        let fc = chars_of(files[i].as_str());
        assert(names.subrange(0, i + 1).drop_last() =~= names.subrange(0, i as int));
        assert(tc@.subrange(0, m as int) =~= target@);
        if m > 0 && occurs_in(&fc, &tc, 0, m) {
            let to = remove_substring(files[i].as_str(), target);
            r.push(Rename { from: files[i].clone(), to });
            assert(renames_view(r@) =~= renames_view(before).push(
                (names[i as int], remove_all(names[i as int], target@)),
            ));
        }
        i = i + 1;
    }
    assert(names.subrange(0, files.len() as int) =~= names);
    r
}

} // verus!
