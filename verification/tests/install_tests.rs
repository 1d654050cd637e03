use hub_installer::errors::InstallError;
use hub_installer::install::InstallFlow;
use hub_installer::progress::Progress;

fn flow() -> InstallFlow {
    InstallFlow::new(
        "C:\\Games\\MyGame".to_string(),
        "game.exe".to_string(),
        "My Game".to_string(),
        true,
        true,
    )
}

#[test]
fn orchestrated_install_happy_path() {
    let mut f = flow();
    assert_eq!(f.validate(true), Ok(()));
    let p1 = f.prepared(true).unwrap();
    assert_eq!(p1, Progress { num: 10, den: 100 });
    let p2 = f.extracted(true).unwrap();
    assert_eq!(p2, Progress { num: 85, den: 100 });
    let plan = f.link_plan(Some("C:\\Users\\u\\Desktop"), Some("C:\\Users\\u\\Roaming"), "\\");
    assert_eq!(plan.target, "C:\\Games\\MyGame\\game.exe".to_string());
    assert_eq!(plan.working_dir, "C:\\Games\\MyGame".to_string());
    assert_eq!(plan.desktop_shortcut, Some("C:\\Users\\u\\Desktop\\My Game.lnk".to_string()));
    assert_eq!(
        plan.start_menu_shortcut,
        Some(
            "C:\\Users\\u\\Roaming\\Microsoft\\Windows\\Start Menu\\Programs\\Enderfall\\My Game.lnk"
                .to_string()
        )
    );
    let last = f.finish();
    assert_eq!(last, Progress { num: 100, den: 100 });
    assert!(last.complete());
    assert!(p1.num * p2.den <= p2.num * p1.den);
    assert!(p2.num * last.den <= last.num * p2.den);
}

#[test]
fn missing_installer_aborts_validation() {
    let mut f = flow();
    assert_eq!(f.validate(false), Err(InstallError::InstallerNotFound));
}

#[test]
fn failed_directory_creation_aborts_preparation() {
    let mut f = flow();
    f.validate(true).unwrap();
    assert_eq!(f.prepared(false), Err(InstallError::IoError));
}

#[test]
fn failed_extraction_aborts_the_flow() {
    let mut f = flow();
    f.validate(true).unwrap();
    f.prepared(true).unwrap();
    assert_eq!(f.extracted(false), Err(InstallError::ExtractError));
}

#[test]
fn unresolvable_base_directories_skip_shortcuts_silently() {
    let mut f = flow();
    f.validate(true).unwrap();
    f.prepared(true).unwrap();
    f.extracted(true).unwrap();
    let plan = f.link_plan(None, None, "\\");
    assert_eq!(plan.desktop_shortcut, None);
    assert_eq!(plan.start_menu_shortcut, None);
    assert!(f.finish().complete());
}

#[test]
fn unrequested_shortcuts_are_not_planned() {
    let mut f = InstallFlow::new(
        "/opt/game".to_string(),
        "game".to_string(),
        "Game".to_string(),
        false,
        false,
    );
    f.validate(true).unwrap();
    f.prepared(true).unwrap();
    f.extracted(true).unwrap();
    let plan = f.link_plan(Some("/home/u/Desktop"), Some("/home/u/.data"), "/");
    assert_eq!(plan.desktop_shortcut, None);
    assert_eq!(plan.start_menu_shortcut, None);
}
