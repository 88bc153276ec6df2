use vstd::prelude::*;
use crate::crypto::backend::CryptoError;

verus! {

/// How the editor collaborator failed.
#[derive(Clone, Copy, PartialEq, Eq, Structural, Debug)]
pub enum EditorFault {
    /// The editor program could not be launched.
    LaunchFailed,
    /// The editor exited with a non-zero status.
    ExitError,
    /// The editor produced no content (after trimming trailing whitespace).
    Empty,
}

/// Every hard error an entry-lifecycle operation can surface.
/// Synchronization failures are deliberately absent: they are recorded in
/// `SyncOutcome` and never propagate.
#[derive(Debug, PartialEq, Eq)]
pub enum VaultError {
    /// The addressed entry, file or directory does not exist.
    NotFound { path: String },
    /// A create collided with an existing file.
    AlreadyExists { path: String },
    /// The archive target is already dot-prefixed.
    AlreadyArchived { directory: bool },
    /// A file was addressed where a directory was required, or vice versa.
    TypeMismatch { path: String, directory_expected: bool },
    /// No supported encryption backend is installed.
    BackendUnavailable,
    /// An encryption tool could not be launched.
    BackendLaunchFailure,
    /// An encryption tool ran and failed.
    CryptoFailure { detail: String },
    /// The editor failed or returned nothing.
    EditorFailure { fault: EditorFault },
    /// A filesystem operation failed on the given path.
    IoFailure { path: String },
    /// A line was requested past the end of the decrypted entry.
    LineOutOfRange { path: String, line: usize },
}

/// How a failed tool run surfaces to the command layer.
pub fn crypto_err_to_vault(e: CryptoError) -> (r: VaultError)
    ensures
        e is LaunchFailure ==> r is BackendLaunchFailure,
        e matches CryptoError::Failure(d) ==> (r matches VaultError::CryptoFailure { detail }
            && detail@ == d@),
{
    match e {
        CryptoError::LaunchFailure => VaultError::BackendLaunchFailure,
        CryptoError::Failure(d) => VaultError::CryptoFailure { detail: d },
    }
}

} // verus!
