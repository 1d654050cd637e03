use hub_installer::errors::{ErrorKind, InstallError};
use hub_installer::launcher::{dev_command_plan, exit_outcome, installer_gate, launch_gate};

#[test]
fn empty_dev_command_is_refused_before_any_spawn() {
    let none: Vec<String> = Vec::new();
    assert_eq!(dev_command_plan("/work", &none, true), Err(InstallError::EmptyCommand));
    assert_eq!(dev_command_plan("/work", &none, false), Err(InstallError::EmptyCommand));
    assert_eq!(InstallError::EmptyCommand.kind(), ErrorKind::Process);
}

#[test]
fn dev_command_through_shell_interpreter() {
    let tokens = vec!["npm".to_string(), "run".to_string(), "dev".to_string()];
    let cmd = dev_command_plan("C:\\proj", &tokens, true).unwrap();
    assert_eq!(cmd.program, "cmd".to_string());
    assert_eq!(
        cmd.args,
        vec!["/c".to_string(), "npm".to_string(), "run".to_string(), "dev".to_string()]
    );
    assert_eq!(cmd.working_dir, Some("C:\\proj".to_string()));
}

#[test]
fn dev_command_direct_exec() {
    let tokens = vec!["cargo".to_string(), "run".to_string()];
    let cmd = dev_command_plan("/proj", &tokens, false).unwrap();
    assert_eq!(cmd.program, "cargo".to_string());
    assert_eq!(cmd.args, vec!["run".to_string()]);
    assert_eq!(cmd.working_dir, Some("/proj".to_string()));

    let single = vec!["make".to_string()];
    let cmd = dev_command_plan("/proj", &single, false).unwrap();
    assert_eq!(cmd.program, "make".to_string());
    assert!(cmd.args.is_empty());
}

#[test]
fn exit_outcome_maps_termination() {
    assert_eq!(exit_outcome(true, Some(0)), Ok(()));
    assert_eq!(exit_outcome(false, Some(3)), Err(InstallError::NonZeroExit(Some(3))));
    assert_eq!(exit_outcome(false, None), Err(InstallError::NonZeroExit(None)));
    assert_eq!(InstallError::NonZeroExit(Some(3)).kind(), ErrorKind::Process);
}

#[test]
fn launch_and_installer_gates() {
    assert_eq!(launch_gate(true), Ok(()));
    assert_eq!(launch_gate(false), Err(InstallError::TargetNotFound));
    assert_eq!(installer_gate(true), Ok(()));
    assert_eq!(installer_gate(false), Err(InstallError::InstallerNotFound));
    assert_eq!(InstallError::TargetNotFound.kind(), ErrorKind::NotFound);
}

#[test]
fn error_taxonomy() {
    assert_eq!(InstallError::SourceMissing.kind(), ErrorKind::NotFound);
    assert_eq!(InstallError::FilenameMissing.kind(), ErrorKind::NotFound);
    assert_eq!(InstallError::InstallerNotFound.kind(), ErrorKind::NotFound);
    assert_eq!(InstallError::WorkingDirMissing.kind(), ErrorKind::NotFound);
    assert_eq!(InstallError::IoError.kind(), ErrorKind::Io);
    assert_eq!(InstallError::SerializeError.kind(), ErrorKind::Io);
    assert_eq!(InstallError::HttpError.kind(), ErrorKind::Transport);
    assert_eq!(InstallError::ExtractError.kind(), ErrorKind::Format);
    assert_eq!(InstallError::ShortcutCreationError.kind(), ErrorKind::Process);
    assert_eq!(InstallError::SpawnError.kind(), ErrorKind::Process);
    assert_eq!(InstallError::ConfigurationError.kind(), ErrorKind::Configuration);
}
