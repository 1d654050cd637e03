use hub_installer::acquire::{copy_destination, download_destination, response_gate};
use hub_installer::errors::{ErrorKind, InstallError};

#[test]
fn copy_destination_joins_source_file_name() {
    let dest = copy_destination("C:\\downloads\\setup.msi", "C:\\staging", "\\", true);
    assert_eq!(dest, Ok("C:\\staging\\setup.msi".to_string()));
}

#[test]
fn copy_missing_source_is_refused() {
    let dest = copy_destination("C:\\downloads\\setup.msi", "C:\\staging", "\\", false);
    assert_eq!(dest, Err(InstallError::SourceMissing));
    assert_eq!(InstallError::SourceMissing.kind(), ErrorKind::NotFound);
}

#[test]
fn copy_source_without_file_name_is_refused() {
    assert_eq!(copy_destination("/", "/staging", "/", true), Err(InstallError::FilenameMissing));
    assert_eq!(
        copy_destination("/a/..", "/staging", "/", true),
        Err(InstallError::FilenameMissing)
    );
}

#[test]
fn download_destination_from_url() {
    assert_eq!(
        download_destination("https://cdn.example.com/f/setup.exe", "/tmp/dl", "/"),
        "/tmp/dl/setup.exe".to_string()
    );
    assert_eq!(
        download_destination("https://cdn.example.com/f/", "/tmp/dl", "/"),
        "/tmp/dl/installer.bin".to_string()
    );
}

#[test]
fn non_success_status_is_a_transport_error_and_streams_nothing() {
    // The status decision comes before the destination is opened.
    let refused = response_gate(404);
    assert_eq!(refused, Err(InstallError::HttpStatusError(404)));
    assert_eq!(InstallError::HttpStatusError(404).kind(), ErrorKind::Transport);
    assert_eq!(response_gate(500), Err(InstallError::HttpStatusError(500)));
    assert_eq!(response_gate(200), Ok(()));
    assert_eq!(response_gate(204), Ok(()));
    assert_eq!(response_gate(299), Ok(()));
    assert_eq!(response_gate(300), Err(InstallError::HttpStatusError(300)));
    assert_eq!(response_gate(199), Err(InstallError::HttpStatusError(199)));
}
