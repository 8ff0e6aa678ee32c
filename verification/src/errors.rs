//! The error taxonomy of the upload pipeline. Client-caused conditions are
//! answered with a 400, server-caused ones with a 500.

use vstd::prelude::*;

verus! {

/// Everything that can go wrong while handling one upload request.
#[derive(Clone, Copy, Debug, PartialEq, Eq, Structural)]
pub enum UploadError {
    /// The declared request size exceeds the ceiling; the body is never read.
    RequestTooLarge,
    /// The multipart body held no `file` field at all.
    MissingFile,
    /// A `file` field arrived without a filename.
    MissingFilename,
    /// The multipart body could not be read to its end.
    MultipartReadError,
    /// The managed directory could not be created or accessed.
    StorageUnavailable,
    /// Writing the uploaded bytes to disk failed.
    WriteFailed,
    /// The external analyzer could not be started.
    ProcessSpawnFailed,
    /// The external analyzer ran but exited with failure.
    ProcessFailed,
    /// The expected artifact was not there after a reported success.
    ArtifactMissing,
}

/// Whether the client caused the failure (as opposed to the server).
pub open spec fn is_client_error(e: UploadError) -> bool {
    match e {
        UploadError::RequestTooLarge => true,
        UploadError::MissingFile => true,
        UploadError::MissingFilename => true,
        UploadError::MultipartReadError => true,
        UploadError::StorageUnavailable => false,
        UploadError::WriteFailed => false,
        UploadError::ProcessSpawnFailed => false,
        UploadError::ProcessFailed => false,
        UploadError::ArtifactMissing => false,
    }
}

/// The human-readable message for each failure.
pub open spec fn spec_message(e: UploadError) -> Seq<char> {
    match e {
        UploadError::RequestTooLarge => "Request size too large"@,
        UploadError::MissingFile => "No file uploaded"@,
        UploadError::MissingFilename => "No filename provided"@,
        UploadError::MultipartReadError => "Error reading multipart"@,
        UploadError::StorageUnavailable => "Could not create uploads folder"@,
        UploadError::WriteFailed => "Error writing file"@,
        UploadError::ProcessSpawnFailed => "Error running analyzer"@,
        UploadError::ProcessFailed => "Analyzer failed"@,
        UploadError::ArtifactMissing => "Result file not found"@,
    }
}

impl UploadError {
    /// The human-readable message served to the client.
    pub fn message(&self) -> (r: String)
        ensures
            r@ == spec_message(*self),
    {
        let s: &str = match self {
            UploadError::RequestTooLarge => "Request size too large",
            UploadError::MissingFile => "No file uploaded",
            UploadError::MissingFilename => "No filename provided",
            UploadError::MultipartReadError => "Error reading multipart",
            UploadError::StorageUnavailable => "Could not create uploads folder",
            UploadError::WriteFailed => "Error writing file",
            UploadError::ProcessSpawnFailed => "Error running analyzer",
            UploadError::ProcessFailed => "Analyzer failed",
            UploadError::ArtifactMissing => "Result file not found",
        };
        s.to_owned()
    }
}

} // verus!
