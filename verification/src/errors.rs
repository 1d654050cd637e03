//! Errors of the installation pipeline and their taxonomy.

use vstd::prelude::*;

verus! {

/// One failure of a pipeline operation. Variants follow the operations that
/// raise them; `kind` places each in the coarser taxonomy.
#[derive(Debug, Clone, Copy, PartialEq, Eq)]
pub enum InstallError {
    /// The source file of a local copy does not exist.
    SourceMissing,
    /// The source path of a local copy has no file-name component.
    FilenameMissing,
    /// The installer payload to extract or run does not exist.
    InstallerNotFound,
    /// The executable to launch or link does not exist.
    TargetNotFound,
    /// The executable path has no parent directory to use as working directory.
    WorkingDirMissing,
    /// A local read, write, create or remove failed.
    IoError,
    /// The network transfer itself failed.
    HttpError,
    /// The server answered with a non-success HTTP status.
    HttpStatusError(u16),
    /// The installer payload could not be parsed as an archive.
    ExtractError,
    /// The platform call that materializes a shortcut failed.
    ShortcutCreationError,
    /// A child process could not be spawned.
    SpawnError,
    /// An installer process terminated unsuccessfully; the payload is its
    /// exit code, if one was reported.
    NonZeroExit(Option<i32>),
    /// A development command was requested with no command tokens.
    EmptyCommand,
    /// The serialized preferences record could not be produced.
    SerializeError,
    /// A required per-user location or environment entry is unavailable.
    ConfigurationError,
}

/// The coarse error taxonomy of the pipeline.
#[derive(Debug, Clone, Copy, PartialEq, Eq, Structural)]
pub enum ErrorKind {
    /// A source, installer, target or directory is missing.
    NotFound,
    /// A local file operation failed.
    Io,
    /// A network failure or a non-success HTTP status.
    Transport,
    /// An archive could not be parsed.
    Format,
    /// A process could not be spawned or exited unsuccessfully.
    Process,
    /// A required environment or location is unavailable.
    Configuration,
}

impl InstallError {
    /// The taxonomy entry of an error.
    pub open spec fn kind_spec(self) -> ErrorKind {
        match self {
            InstallError::SourceMissing => ErrorKind::NotFound,
            InstallError::FilenameMissing => ErrorKind::NotFound,
            InstallError::InstallerNotFound => ErrorKind::NotFound,
            InstallError::TargetNotFound => ErrorKind::NotFound,
            InstallError::WorkingDirMissing => ErrorKind::NotFound,
            InstallError::IoError => ErrorKind::Io,
            InstallError::HttpError => ErrorKind::Transport,
            InstallError::HttpStatusError(_) => ErrorKind::Transport,
            InstallError::ExtractError => ErrorKind::Format,
            InstallError::ShortcutCreationError => ErrorKind::Process,
            InstallError::SpawnError => ErrorKind::Process,
            InstallError::NonZeroExit(_) => ErrorKind::Process,
            InstallError::EmptyCommand => ErrorKind::Process,
            InstallError::SerializeError => ErrorKind::Io,
            InstallError::ConfigurationError => ErrorKind::Configuration,
        }
    }

    /// Report which taxonomy entry an error belongs to.
    pub fn kind(&self) -> (k: ErrorKind)
        ensures
            k == self.kind_spec(),
    {
        match self {
            InstallError::SourceMissing => ErrorKind::NotFound,
            InstallError::FilenameMissing => ErrorKind::NotFound,
            InstallError::InstallerNotFound => ErrorKind::NotFound,
            InstallError::TargetNotFound => ErrorKind::NotFound,
            InstallError::WorkingDirMissing => ErrorKind::NotFound,
            InstallError::IoError => ErrorKind::Io,
            InstallError::HttpError => ErrorKind::Transport,
            InstallError::HttpStatusError(_) => ErrorKind::Transport,
            InstallError::ExtractError => ErrorKind::Format,
            InstallError::ShortcutCreationError => ErrorKind::Process,
            InstallError::SpawnError => ErrorKind::Process,
            InstallError::NonZeroExit(_) => ErrorKind::Process,
            InstallError::EmptyCommand => ErrorKind::Process,
            InstallError::SerializeError => ErrorKind::Io,
            InstallError::ConfigurationError => ErrorKind::Configuration,
        }
    }
}

} // verus!
