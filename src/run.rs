//! What one run does with a directory listing, given its two options:
//! `nameloop` (look for the common substring) and `remove`.

use vstd::prelude::*;
use crate::rename::{planned_renames, rename_plan, renames_view, Rename};
use crate::stem::{remove_extension, stem_or_name};
use crate::substring::{is_lcs_result, longest_common_substring, names_view, opt_view};

verus! {

/// The `remove` option.
#[derive(Debug, Clone, PartialEq, Eq)]
pub enum RemoveArg {
    /// Not given.
    Unset,
    /// Given without a value: take out the common substring.
    UseCommon,
    /// Given with this non-empty value: take it out.
    Explicit(String),
}

/// The `remove` option from its raw value: absent, empty, or a text.
pub fn remove_arg_of(value: Option<String>) -> (r: RemoveArg)
    ensures
        match value {
            None => r is Unset,
            Some(v) => if v@.len() == 0 {
                r is UseCommon
            } else {
                r is Explicit && r->0@ == v@
            },
        },
{
    match value {
        None => RemoveArg::Unset,
        Some(v) => {
            if v.as_str().is_empty() {
                RemoveArg::UseCommon
            } else {
                RemoveArg::Explicit(v)
            }
        },
    }
}

/// What a run prints before any rename.
#[derive(Debug, Clone, PartialEq, Eq)]
pub enum Report {
    /// The names of the listing, one per line.
    Listing,
    /// The common substring that was found.
    Common(String),
    /// That no common substring was found.
    NoCommon,
    /// Nothing.
    Silent,
}

/// What a run prints, then the renames it attempts in order.
#[derive(Debug, Clone, PartialEq, Eq)]
pub struct Plan {
    pub report: Report,
    pub renames: Vec<Rename>,
    /// An explicit `remove` value was set aside because `nameloop` was
    /// given; the run warns of it.
    pub remove_ignored: bool,
}

/// Whether the `remove` option carries an explicit value.
fn remove_is_explicit(remove: &RemoveArg) -> (r: bool)
    ensures
        r == remove is Explicit,
{
    match remove {
        RemoveArg::Explicit(_) => true,
        _ => false,
    }
}

/// The names of a listing without their extensions.
pub open spec fn stripped_view(files: Seq<String>) -> Seq<Seq<char>> {
    files.map_values(|f: String| stem_or_name(f@))
}

/// The longest common substring of the names in `files`, each without its
/// extension.
pub fn common_of_listing(files: &[String]) -> (r: Option<String>)
    ensures
        is_lcs_result(stripped_view(files@), opt_view(r)),
{
    let mut stripped: Vec<String> = Vec::new();
    let mut i: usize = 0;
    while i < files.len()
        invariant
            i <= files.len(),
            names_view(stripped@) == stripped_view(files@).subrange(0, i as int),
        decreases files.len() - i,
    {
        let s = remove_extension(files[i].as_str());
        let ghost before = stripped@;
        stripped.push(s);
        assert(names_view(stripped@) =~= names_view(before).push(stem_or_name(files@[i as int]@)));
        i = i + 1;
        assert(names_view(stripped@) =~= stripped_view(files@).subrange(0, i as int));
    }
    assert(stripped_view(files@).subrange(0, i as int) =~= stripped_view(files@));
    longest_common_substring(stripped.as_slice())
}

/// What a run does with the listing `files`.
///
/// With `nameloop` it reports the common substring of the names without
/// their extensions, or that there is none, and where `remove` was given
/// without a value it takes that substring out of the names; an explicit
/// `remove` value is then ignored, and the plan says so. Without
/// `nameloop`, an explicit value is taken out of the names with nothing
/// reported, `remove` without a value does nothing, and with neither option
/// the listing is reported.
pub fn plan_run(files: &[String], nameloop: bool, remove: &RemoveArg) -> (r: Plan)
    ensures
        r.remove_ignored == (nameloop && remove is Explicit),
        nameloop ==> match r.report {
            Report::Common(c) => is_lcs_result(stripped_view(files@), Some(c@)) && renames_view(
                r.renames@,
            ) == (if remove is UseCommon {
                planned_renames(names_view(files@), c@)
            } else {
                seq![]
            }),
            Report::NoCommon => is_lcs_result(stripped_view(files@), None) && r.renames@.len()
                == 0,
            _ => false,
        },
        !nameloop ==> match remove {
            RemoveArg::Unset => r.report is Listing && r.renames@.len() == 0,
            RemoveArg::UseCommon => r.report is Silent && r.renames@.len() == 0,
            RemoveArg::Explicit(t) => r.report is Silent && renames_view(r.renames@)
                == planned_renames(names_view(files@), t@),
        },
{
    if nameloop {
        match common_of_listing(files) {
            Some(c) => {
                let renames = match remove {
                    RemoveArg::UseCommon => rename_plan(files, c.as_str()),
                    _ => Vec::new(),
                };
                proof {
                    if !(remove is UseCommon) {
                        assert(renames_view(renames@) =~= seq![]);
                    }
                }
                Plan { report: Report::Common(c), renames, remove_ignored: remove_is_explicit(remove) }
            },
            None => Plan {
                report: Report::NoCommon,
                renames: Vec::new(),
                remove_ignored: remove_is_explicit(remove),
            },
        }
    } else {
        match remove {
            RemoveArg::Unset => Plan {
                report: Report::Listing,
                renames: Vec::new(),
                remove_ignored: false,
            },
            RemoveArg::UseCommon => Plan {
                report: Report::Silent,
                renames: Vec::new(),
                remove_ignored: false,
            },
            RemoveArg::Explicit(t) => Plan {
                report: Report::Silent,
                renames: rename_plan(files, t.as_str()),
                remove_ignored: false,
            },
        }
    }
}

} // verus!
