use hub_installer::errors::InstallError;
use hub_installer::shortcuts::{shortcut_command, shortcut_plan, shortcut_script};
use hub_installer::uninstall::uninstall_plan;

#[test]
fn uninstall_plan_lists_tree_and_derived_shortcuts() {
    let plan = uninstall_plan(
        true,
        Some("C:\\Users\\u\\Desktop"),
        Some("C:\\Users\\u\\Roaming"),
        "\\",
        "My Game",
    );
    assert!(plan.remove_install_dir);
    assert_eq!(plan.desktop_shortcut, Some("C:\\Users\\u\\Desktop\\My Game.lnk".to_string()));
    assert_eq!(
        plan.start_menu_shortcut,
        Some(
            "C:\\Users\\u\\Roaming\\Microsoft\\Windows\\Start Menu\\Programs\\Enderfall\\My Game.lnk"
                .to_string()
        )
    );
}

#[test]
fn second_uninstall_run_changes_nothing_and_raises_no_error() {
    // After the first run the directory is gone; the second run observes
    // that, removes nothing, and still succeeds.
    let second = uninstall_plan(
        false,
        Some("C:\\Users\\u\\Desktop"),
        Some("C:\\Users\\u\\Roaming"),
        "\\",
        "My Game",
    );
    assert!(!second.remove_install_dir);
    assert_eq!(second.desktop_shortcut, Some("C:\\Users\\u\\Desktop\\My Game.lnk".to_string()));
}

#[test]
fn unresolvable_base_directories_skip_shortcut_removal() {
    let plan = uninstall_plan(true, None, None, "\\", "My Game");
    assert!(plan.remove_install_dir);
    assert_eq!(plan.desktop_shortcut, None);
    assert_eq!(plan.start_menu_shortcut, None);
}

#[test]
fn creation_and_removal_derive_the_same_shortcut_paths() {
    let create = shortcut_plan(
        "C:\\Games\\MyGame\\game.exe",
        "My Game",
        true,
        true,
        true,
        Some("C:\\Users\\u\\Desktop"),
        Some("C:\\Users\\u\\Roaming"),
        "\\",
    )
    .unwrap();
    let remove = uninstall_plan(
        true,
        Some("C:\\Users\\u\\Desktop"),
        Some("C:\\Users\\u\\Roaming"),
        "\\",
        "My Game",
    );
    assert_eq!(create.desktop_shortcut, remove.desktop_shortcut);
    assert_eq!(create.start_menu_shortcut, remove.start_menu_shortcut);
}

#[test]
fn shortcut_plan_resolves_target_and_working_dir() {
    let plan = shortcut_plan(
        "C:\\Games\\MyGame\\game.exe",
        "My Game",
        true,
        false,
        true,
        Some("C:\\Users\\u\\Desktop"),
        None,
        "\\",
    )
    .unwrap();
    assert_eq!(plan.target, "C:\\Games\\MyGame\\game.exe".to_string());
    assert_eq!(plan.working_dir, "C:\\Games\\MyGame".to_string());
    assert_eq!(plan.desktop_shortcut, Some("C:\\Users\\u\\Desktop\\My Game.lnk".to_string()));
    assert_eq!(plan.start_menu_shortcut, None);
}

#[test]
fn shortcut_plan_error_cases() {
    let missing = shortcut_plan("x.exe", "X", true, true, false, None, None, "\\");
    assert_eq!(missing, Err(InstallError::TargetNotFound));
    let no_parent = shortcut_plan("x.exe", "X", true, true, true, None, None, "\\");
    assert_eq!(no_parent, Err(InstallError::WorkingDirMissing));
}

#[test]
fn shortcut_script_splices_the_three_paths() {
    let script = shortcut_script("C:\\D\\G.lnk", "C:\\G\\g.exe", "C:\\G");
    assert_eq!(
        script,
        "$W = New-Object -ComObject WScript.Shell; $S = $W.CreateShortcut('C:\\D\\G.lnk'); $S.TargetPath = 'C:\\G\\g.exe'; $S.WorkingDirectory = 'C:\\G'; $S.Save();"
            .to_string()
    );
    let cmd = shortcut_command(script.clone());
    assert_eq!(cmd.program, "powershell".to_string());
    assert_eq!(
        cmd.args,
        vec![
            "-NoProfile".to_string(),
            "-ExecutionPolicy".to_string(),
            "Bypass".to_string(),
            "-Command".to_string(),
            script
        ]
    );
}
