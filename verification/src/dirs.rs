use vstd::prelude::*;

verus! {

use crate::scan::path_views;
use vstd::string::StringExecFns;

// The directory resolver. Reading the process environment is outside
// work; the caller hands over the values of the three path variables
// (system data root, per-user data root, user profile root), each
// absent when unset, and this module derives the ordered list of scan
// roots. An unset variable simply omits its root.

/// The subtree of a data root that holds the program shortcuts.
pub open spec fn programs_suffix() -> Seq<char> {
    "\\Microsoft\\Windows\\Start Menu\\Programs"@
}

/// The desktop directory under the user profile root.
pub open spec fn desktop_suffix() -> Seq<char> {
    "\\Desktop"@
}

/// The root an optional variable contributes: its value with the suffix
/// appended, or nothing when the variable is unset.
pub open spec fn opt_root(v: Option<Seq<char>>, suffix: Seq<char>) -> Seq<Seq<char>> {
    match v {
        Some(s) => seq![s + suffix],
        None => Seq::empty(),
    }
}

/// The view of an optional string.
pub open spec fn opt_view(v: Option<String>) -> Option<Seq<char>> {
    match v {
        Some(s) => Some(s@),
        None => None,
    }
}

/// The ordered scan roots: system programs root, user programs root,
/// user desktop. Earlier roots win duplicated names downstream.
pub open spec fn spec_start_menu_dirs(
    program_data: Option<Seq<char>>,
    app_data: Option<Seq<char>>,
    user_profile: Option<Seq<char>>,
) -> Seq<Seq<char>> {
    opt_root(program_data, programs_suffix()) + opt_root(app_data, programs_suffix()) + opt_root(
        user_profile,
        desktop_suffix(),
    )
}

/// Derives the ordered list of root directories to scan from the values
/// of the three environment-provided locations.
pub fn get_start_menu_dirs(
    program_data: Option<String>,
    app_data: Option<String>,
    user_profile: Option<String>,
) -> (r: Vec<String>)
    ensures
        path_views(r@) == spec_start_menu_dirs(
            opt_view(program_data),
            opt_view(app_data),
            opt_view(user_profile),
        ),
{
    let mut r: Vec<String> = Vec::new();
    match program_data {
        Some(v) => {
            let mut s = v;
            s.append("\\Microsoft\\Windows\\Start Menu\\Programs");
            r.push(s);
        },
        None => {},
    }
    match app_data {
        Some(v) => {
            let mut s = v;
            s.append("\\Microsoft\\Windows\\Start Menu\\Programs");
            r.push(s);
        },
        None => {},
    }
    match user_profile {
        Some(v) => {
            let mut s = v;
            s.append("\\Desktop");
            r.push(s);
        },
        None => {},
    }
    proof {
        assert(path_views(r@) =~= spec_start_menu_dirs(
            opt_view(program_data),
            opt_view(app_data),
            opt_view(user_profile),
        ));
    }
    r
}

} // verus!
