//! The uninstall plan and the removal laws it obeys.
//!
//! Uninstalling removes the install directory tree, then the desktop and
//! start-menu shortcuts derived from the application name. The plan lists
//! what the host has to remove; a filesystem is modelled as the set of the
//! paths that exist, so that removal can be proved idempotent.

use vstd::prelude::*;

use crate::paths::{
    desktop_shortcut_path, desktop_shortcut_path_spec, start_menu_shortcut_path,
    start_menu_shortcut_path_spec,
};

verus! {

/// What one uninstall run removes, in order: first the directory tree, then
/// each listed shortcut. Absence of any of them is not an error; the host
/// skips what no longer exists.
#[derive(Debug, Clone, PartialEq, Eq)]
pub struct UninstallPlan {
    /// Whether the install directory still exists and is to be removed.
    pub remove_install_dir: bool,
    /// The desktop shortcut to delete, when a desktop directory is known.
    pub desktop_shortcut: Option<String>,
    /// The start-menu shortcut to delete, when the roaming data directory
    /// is known.
    pub start_menu_shortcut: Option<String>,
}

/// Lay out one uninstall run for `app_name`.
///
/// The shortcut paths are re-derived from `app_name` with the same scheme
/// used at creation time; nothing is looked up or stored. A base directory
/// that cannot be resolved skips its shortcut rather than failing the run.
pub fn uninstall_plan(
    install_dir_exists: bool,
    desktop_dir: Option<&str>,
    appdata_dir: Option<&str>,
    sep: &str,
    app_name: &str,
) -> (p: UninstallPlan)
    ensures
        p.remove_install_dir == install_dir_exists,
        (match desktop_dir {
            Some(d) => p.desktop_shortcut matches Some(s) && s@ == desktop_shortcut_path_spec(
                d@,
                sep@,
                app_name@,
            ),
            None => p.desktop_shortcut is None,
        }),
        (match appdata_dir {
            Some(a) => p.start_menu_shortcut matches Some(s) && s@ == start_menu_shortcut_path_spec(
                a@,
                sep@,
                app_name@,
            ),
            None => p.start_menu_shortcut is None,
        }),
{
    let desktop_shortcut = match desktop_dir {
        Some(d) => Some(desktop_shortcut_path(d, sep, app_name)),
        None => None,
    };
    let start_menu_shortcut = match appdata_dir {
        Some(a) => Some(start_menu_shortcut_path(a, sep, app_name)),
        None => None,
    };
    UninstallPlan { remove_install_dir: install_dir_exists, desktop_shortcut, start_menu_shortcut }
}

/// The path lies in the tree rooted at `dir`: it is `dir` itself or starts
/// with `dir` followed by the separator.
pub open spec fn in_tree(p: Seq<char>, dir: Seq<char>, sep: Seq<char>) -> bool {
    p == dir || (p.len() >= dir.len() + sep.len() && p.subrange(
        0,
        dir.len() + sep.len() as int,
    ) == dir + sep)
}

/// Remove the tree rooted at `dir` from a filesystem, modelled as the set
/// of existing paths.
pub open spec fn remove_tree(fs: Set<Seq<char>>, dir: Seq<char>, sep: Seq<char>) -> Set<Seq<char>> {
    fs.filter(|p: Seq<char>| !in_tree(p, dir, sep))
}

/// What a whole uninstall run leaves of a filesystem: the install tree and
/// both derived shortcut paths are gone.
pub open spec fn apply_uninstall(
    fs: Set<Seq<char>>,
    install_dir: Seq<char>,
    sep: Seq<char>,
    desktop: Seq<char>,
    appdata: Seq<char>,
    app_name: Seq<char>,
) -> Set<Seq<char>> {
    remove_tree(fs, install_dir, sep).remove(
        desktop_shortcut_path_spec(desktop, sep, app_name),
    ).remove(start_menu_shortcut_path_spec(appdata, sep, app_name))
}

/// After an uninstall run, neither the install directory, nor anything
/// under it, nor either derived shortcut exists.
pub proof fn lemma_uninstall_removes(
    fs: Set<Seq<char>>,
    install_dir: Seq<char>,
    sep: Seq<char>,
    desktop: Seq<char>,
    appdata: Seq<char>,
    app_name: Seq<char>,
)
    ensures
        ({
            let after = apply_uninstall(fs, install_dir, sep, desktop, appdata, app_name);
            &&& !after.contains(install_dir)
            &&& forall|p: Seq<char>| in_tree(p, install_dir, sep) ==> !after.contains(p)
            &&& !after.contains(desktop_shortcut_path_spec(desktop, sep, app_name))
            &&& !after.contains(start_menu_shortcut_path_spec(appdata, sep, app_name))
        }),
{
}

/// Uninstalling is idempotent: a second run over the same install directory
/// and application name changes nothing further, and (since absence is not
/// an error) produces no failure.
pub proof fn lemma_uninstall_idempotent(
    fs: Set<Seq<char>>,
    install_dir: Seq<char>,
    sep: Seq<char>,
    desktop: Seq<char>,
    appdata: Seq<char>,
    app_name: Seq<char>,
)
    ensures
        apply_uninstall(
            apply_uninstall(fs, install_dir, sep, desktop, appdata, app_name),
            install_dir,
            sep,
            desktop,
            appdata,
            app_name,
        ) =~= apply_uninstall(fs, install_dir, sep, desktop, appdata, app_name),
{
    let once = apply_uninstall(fs, install_dir, sep, desktop, appdata, app_name);
    let twice = apply_uninstall(once, install_dir, sep, desktop, appdata, app_name);
    assert forall|p: Seq<char>| twice.contains(p) implies once.contains(p) by {}
    assert forall|p: Seq<char>| once.contains(p) implies twice.contains(p) by {}
}

} // verus!
