//! Why a tool could not be provided.

use vstd::prelude::*;
use crate::application::Application;
use crate::platform::{Arch, Os};

verus! {

/// The step of reading an archive that went wrong.
#[derive(Clone, Copy, Debug, PartialEq, Eq, Structural, Hash)]
pub enum ArchiveFault {
    /// The bytes are not an archive of the expected container.
    Open,
    /// A sequential archive was read again without being reset.
    NotReset,
    /// An entry met before the wanted one could not be read.
    Entry,
    /// An entry met before the wanted one has a path that leads out of the
    /// directory into which the archive is unpacked.
    EntryPath,
    /// The content of the wanted entry could not be read.
    Content,
}

/// A failure to provide a tool.
#[derive(Clone, Debug, PartialEq, Eq)]
pub enum ToolError {
    /// No release of the tool serves the host.
    UnsupportedPlatform { app: Application, os: Os, arch: Arch },
    /// The tool answered a version query with text of an unexpected shape;
    /// `output` is that text without the white space at its ends.
    MalformedVersionOutput { output: String },
    /// The server answered the download request with a status other than success.
    NetworkFailure { status: u16, url: String },
    /// The archive holds no entry for the file at `path`.
    ArchiveEntryNotFound { path: String },
    /// The archive could not be read.
    IoFailure { fault: ArchiveFault },
}

/// A failure as contracts speak of it: text by its characters.
pub enum ToolErrorView {
    UnsupportedPlatform { app: Application, os: Os, arch: Arch },
    MalformedVersionOutput { output: Seq<char> },
    NetworkFailure { status: u16, url: Seq<char> },
    ArchiveEntryNotFound { path: Seq<char> },
    IoFailure { fault: ArchiveFault },
}

impl View for ToolError {
    type V = ToolErrorView;

    open spec fn view(&self) -> ToolErrorView {
        match self {
            ToolError::UnsupportedPlatform { app, os, arch } => ToolErrorView::UnsupportedPlatform {
                app: *app,
                os: *os,
                arch: *arch,
            },
            ToolError::MalformedVersionOutput { output } => ToolErrorView::MalformedVersionOutput {
                output: output@,
            },
            ToolError::NetworkFailure { status, url } => ToolErrorView::NetworkFailure {
                status: *status,
                url: url@,
            },
            ToolError::ArchiveEntryNotFound { path } => ToolErrorView::ArchiveEntryNotFound {
                path: path@,
            },
            ToolError::IoFailure { fault } => ToolErrorView::IoFailure { fault: *fault },
        }
    }
}

} // verus!
