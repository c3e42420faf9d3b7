//! The failures that end a patch run.

use vstd::prelude::*;

verus! {

/// The three classes of failure.
#[derive(Debug, Clone, Copy, PartialEq, Eq, Structural)]
pub enum ErrorKind {
    /// The manifest holds a malformed line.
    Manifest,
    /// A read, write, rename or directory operation on the local disk failed.
    Io,
    /// A request to the patch server, or its response, failed.
    Transport,
}

/// The point at which a patch run failed. Every failure ends the run: none
/// is retried.
#[derive(Debug, Clone, Copy, PartialEq, Eq, Structural)]
pub enum PatchError {
    /// The staging directory could not be created.
    CreateStaging,
    /// A line of the manifest is malformed.
    Manifest,
    /// The request for a file could not be sent or was not answered.
    Request,
    /// The patch server answered with a status other than success.
    Status,
    /// The staged file has no parent directory.
    StagedParent,
    /// The parent directory of the staged file could not be created.
    CreateStagedParent,
    /// The staged file could not be opened for writing.
    OpenStaged,
    /// A chunk of the response body could not be read.
    ReadChunk,
    /// A chunk of the response body could not be written to the staged file.
    WriteChunk,
    /// The target file has no parent directory.
    TargetParent,
    /// The parent directory of the target file could not be created.
    CreateTargetParent,
    /// The staged file could not be moved to its target.
    MoveFile,
    /// The marker file could not be opened for writing.
    OpenMarker,
    /// The marker file could not be written.
    WriteMarker,
    /// The staging directory could not be removed.
    RemoveStaging,
}

impl PatchError {
    /// The class of this failure.
    pub open spec fn spec_kind(self) -> ErrorKind {
        match self {
            PatchError::Manifest => ErrorKind::Manifest,
            PatchError::Request | PatchError::Status | PatchError::ReadChunk => {
                ErrorKind::Transport
            },
            _ => ErrorKind::Io,
        }
    }

    /// The text shown to the user for this failure.
    pub open spec fn spec_message(self) -> Seq<char> {
        match self {
            PatchError::CreateStaging => "Failed to create temp patcher directory"@,
            PatchError::Manifest => "Failed to parse patcher server response"@,
            PatchError::Request => "Patch server request failed"@,
            PatchError::Status => "Patch server answered with an error status"@,
            PatchError::StagedParent => "Failed to get temp file parent"@,
            PatchError::CreateStagedParent => "Failed to create temp file parent"@,
            PatchError::OpenStaged => "Failed to open temp file"@,
            PatchError::ReadChunk => "Failed to read patcher response chunk"@,
            PatchError::WriteChunk => "Failed to write patcher response chunk to file"@,
            PatchError::TargetParent => "Failed to get target file parent"@,
            PatchError::CreateTargetParent => "Failed to create target file parent"@,
            PatchError::MoveFile => "Failed to move patched file to game folder"@,
            PatchError::OpenMarker => "Failed to open patcher etag file"@,
            PatchError::WriteMarker => "Failed to write to patcher etag file"@,
            PatchError::RemoveStaging => "Failed to delete temp patcher directory"@,
        }
    }

    /// The class of this failure.
    pub fn kind(&self) -> (kind: ErrorKind)
        ensures
            kind == self.spec_kind(),
    {
        match self {
            PatchError::Manifest => ErrorKind::Manifest,
            PatchError::Request | PatchError::Status | PatchError::ReadChunk => {
                ErrorKind::Transport
            },
            _ => ErrorKind::Io,
        }
    }

    /// The text shown to the user for this failure.
    pub fn message(&self) -> (text: String)
        ensures
            text@ == self.spec_message(),
    {
        match self {
            PatchError::CreateStaging => "Failed to create temp patcher directory".to_owned(),
            PatchError::Manifest => "Failed to parse patcher server response".to_owned(),
            PatchError::Request => "Patch server request failed".to_owned(),
            PatchError::Status => "Patch server answered with an error status".to_owned(),
            PatchError::StagedParent => "Failed to get temp file parent".to_owned(),
            PatchError::CreateStagedParent => "Failed to create temp file parent".to_owned(),
            PatchError::OpenStaged => "Failed to open temp file".to_owned(),
            PatchError::ReadChunk => "Failed to read patcher response chunk".to_owned(),
            PatchError::WriteChunk => "Failed to write patcher response chunk to file".to_owned(),
            PatchError::TargetParent => "Failed to get target file parent".to_owned(),
            PatchError::CreateTargetParent => "Failed to create target file parent".to_owned(),
            PatchError::MoveFile => "Failed to move patched file to game folder".to_owned(),
            PatchError::OpenMarker => "Failed to open patcher etag file".to_owned(),
            PatchError::WriteMarker => "Failed to write to patcher etag file".to_owned(),
            PatchError::RemoveStaging => "Failed to delete temp patcher directory".to_owned(),
        }
    }
}

} // verus!
