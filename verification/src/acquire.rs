//! Decisions of payload acquisition: where an acquired payload lands, and
//! whether an HTTP response is worth streaming at all.
//!
//! The byte streaming itself is the host's work; its progress accounting
//! stands in [`crate::progress`].

use vstd::prelude::*;

use crate::errors::InstallError;
use crate::paths::{file_name_from_url, file_name_of_path, join_path, path_file_name, url_file_name};

verus! {

/// Decide the destination of a local copy: the source's file name inside
/// the destination directory. A missing source or a source without a
/// file-name component refuses the copy before anything is created.
pub fn copy_destination(
    source_path: &str,
    destination_dir: &str,
    sep: &str,
    source_exists: bool,
) -> (r: Result<String, InstallError>)
    ensures
        !source_exists ==> r == Err::<String, InstallError>(InstallError::SourceMissing),
        source_exists && path_file_name(source_path@) is None ==> r == Err::<String, InstallError>(
            InstallError::FilenameMissing,
        ),
        source_exists && path_file_name(source_path@) is Some ==> (r matches Ok(d) && d@
            == destination_dir@ + sep@ + path_file_name(source_path@)->Some_0),
{
    if !source_exists {
        return Err(InstallError::SourceMissing);
    }
    match file_name_of_path(source_path) {
        None => Err(InstallError::FilenameMissing),
        Some(name) => Ok(join_path(destination_dir, sep, name.as_str())),
    }
}

/// Decide the destination of a download: the name derived from the URL's
/// last path segment (or the generic fallback) inside the destination
/// directory.
pub fn download_destination(url: &str, destination_dir: &str, sep: &str) -> (r: String)
    ensures
        r@ == destination_dir@ + sep@ + url_file_name(url@),
{
    let name = file_name_from_url(url);
    join_path(destination_dir, sep, name.as_str())
}

/// An HTTP status in the success range.
pub open spec fn is_success_status(status: u16) -> bool {
    200 <= status < 300
}

/// Decide from the response status whether the body is worth streaming.
/// The host makes this decision first and opens the destination only for
/// a success status.
pub fn response_gate(status: u16) -> (r: Result<(), InstallError>)
    ensures
        is_success_status(status) ==> r == Ok::<(), InstallError>(()),
        !is_success_status(status) ==> r == Err::<(), InstallError>(
            InstallError::HttpStatusError(status),
        ),
{
    if 200 <= status && status < 300 {
        Ok(())
    } else {
        Err(InstallError::HttpStatusError(status))
    }
}

} // verus!
