//! Creation of launch shortcuts: the plan for one request and the platform
//! script that materializes a single shortcut.

use vstd::prelude::*;

use crate::errors::InstallError;
use crate::launcher::CommandSpec;
use crate::paths::{
    desktop_shortcut_path, desktop_shortcut_path_spec, parent_dir, parent_of,
    start_menu_shortcut_path, start_menu_shortcut_path_spec,
};
use crate::uninstall::apply_uninstall;

verus! {

/// The script handed to the platform shell to materialize one shortcut.
/// The three paths are spliced in verbatim, between single quotes, exactly
/// as the platform call expects them.
pub open spec fn shortcut_script_spec(
    shortcut_path: Seq<char>,
    target_path: Seq<char>,
    working_dir: Seq<char>,
) -> Seq<char> {
    "$W = New-Object -ComObject WScript.Shell; $S = $W.CreateShortcut('"@ + shortcut_path
        + "'); $S.TargetPath = '"@ + target_path + "'; $S.WorkingDirectory = '"@ + working_dir
        + "'; $S.Save();"@
}

/// Build the script that creates one shortcut at `shortcut_path`, launching
/// `target_path` from `working_dir`.
pub fn shortcut_script(shortcut_path: &str, target_path: &str, working_dir: &str) -> (r: String)
    ensures
        r@ == shortcut_script_spec(shortcut_path@, target_path@, working_dir@),
{
    let mut r = String::from_str("$W = New-Object -ComObject WScript.Shell; $S = $W.CreateShortcut('");
    r.append(shortcut_path);
    r.append("'); $S.TargetPath = '");
    r.append(target_path);
    r.append("'; $S.WorkingDirectory = '");
    r.append(working_dir);
    r.append("'; $S.Save();");
    proof {
        assert(r@ =~= shortcut_script_spec(shortcut_path@, target_path@, working_dir@));
    }
    r
}

/// The shell invocation that runs a shortcut-creation script.
pub fn shortcut_command(script: String) -> (c: CommandSpec)
    ensures
        c.program@ == "powershell"@,
        c.args.deep_view() =~= seq![
            "-NoProfile"@,
            "-ExecutionPolicy"@,
            "Bypass"@,
            "-Command"@,
            script@,
        ],
        c.working_dir is None,
{
    let mut args: Vec<String> = Vec::new();
    args.push(String::from_str("-NoProfile"));
    args.push(String::from_str("-ExecutionPolicy"));
    args.push(String::from_str("Bypass"));
    args.push(String::from_str("-Command"));
    args.push(script);
    CommandSpec { program: String::from_str("powershell"), args, working_dir: None }
}

/// What one shortcut-creation request resolves to: the target, the working
/// directory it will launch in, and the shortcut artifacts to create.
#[derive(Debug, Clone, PartialEq, Eq)]
pub struct ShortcutPlan {
    /// The executable every created shortcut points at.
    pub target: String,
    /// The directory the target is launched from: its parent directory.
    pub working_dir: String,
    /// The desktop shortcut to create, when requested and resolvable.
    pub desktop_shortcut: Option<String>,
    /// The start-menu shortcut to create, when requested and resolvable.
    pub start_menu_shortcut: Option<String>,
}

/// Resolve one shortcut-creation request.
///
/// The target must exist and have a parent directory; otherwise the whole
/// request is refused. A requested shortcut whose base directory cannot be
/// resolved is skipped silently rather than failing the request.
pub fn shortcut_plan(
    exe_path: &str,
    app_name: &str,
    create_desktop: bool,
    create_start_menu: bool,
    exe_exists: bool,
    desktop_dir: Option<&str>,
    appdata_dir: Option<&str>,
    sep: &str,
) -> (r: Result<ShortcutPlan, InstallError>)
    ensures
        !exe_exists ==> r == Err::<ShortcutPlan, InstallError>(InstallError::TargetNotFound),
        exe_exists && parent_of(exe_path@) is None ==> r == Err::<ShortcutPlan, InstallError>(
            InstallError::WorkingDirMissing,
        ),
        exe_exists && parent_of(exe_path@) is Some ==> (r matches Ok(p) && {
            &&& p.target@ == exe_path@
            &&& parent_of(exe_path@) == Some(p.working_dir@)
            &&& (match (create_desktop, desktop_dir) {
                (true, Some(d)) => p.desktop_shortcut matches Some(s) && s@
                    == desktop_shortcut_path_spec(d@, sep@, app_name@),
                _ => p.desktop_shortcut is None,
            })
            &&& (match (create_start_menu, appdata_dir) {
                (true, Some(a)) => p.start_menu_shortcut matches Some(s) && s@
                    == start_menu_shortcut_path_spec(a@, sep@, app_name@),
                _ => p.start_menu_shortcut is None,
            })
        }),
{
    if !exe_exists {
        return Err(InstallError::TargetNotFound);
    }
    let working_dir = match parent_dir(exe_path) {
        Some(w) => w,
        None => {
            return Err(InstallError::WorkingDirMissing);
        },
    };
    let desktop_shortcut = if create_desktop {
        match desktop_dir {
            Some(d) => Some(desktop_shortcut_path(d, sep, app_name)),
            None => None,
        }
    } else {
        None
    };
    let start_menu_shortcut = if create_start_menu {
        match appdata_dir {
            Some(a) => Some(start_menu_shortcut_path(a, sep, app_name)),
            None => None,
        }
    } else {
        None
    };
    Ok(
        ShortcutPlan {
            target: String::from_str(exe_path),
            working_dir,
            desktop_shortcut,
            start_menu_shortcut,
        },
    )
}

/// Creating a shortcut and then uninstalling under the same application
/// name leaves no artifact at either derived path: removal re-derives the
/// paths with the same scheme creation used.
pub proof fn lemma_create_then_remove_shortcut(
    fs: Set<Seq<char>>,
    install_dir: Seq<char>,
    sep: Seq<char>,
    desktop: Seq<char>,
    appdata: Seq<char>,
    app_name: Seq<char>,
)
    ensures
        ({
            let desk = desktop_shortcut_path_spec(desktop, sep, app_name);
            let menu = start_menu_shortcut_path_spec(appdata, sep, app_name);
            let created = fs.insert(desk).insert(menu);
            let after = apply_uninstall(created, install_dir, sep, desktop, appdata, app_name);
            !after.contains(desk) && !after.contains(menu)
        }),
{
}

} // verus!
