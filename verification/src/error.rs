//! The ways in which a run of the pipeline ends without bundles.

use vstd::prelude::*;
use crate::text::{appended, decode_lossy, lossy_text};

verus! {

/// Why a run was given up. Every one of them ends the run at once.
#[derive(Debug, Clone, PartialEq, Eq)]
pub enum PipelineError {
    /// The targets that the build needs could not be installed.
    ToolchainUnavailable { detail: String },
    /// The toolchain did not build the crate; with what it wrote to its
    /// error stream, and the target it built for where one was named.
    BuildFailure { target: Option<String>, diagnostics: Vec<u8> },
    /// The toolchain reported success, and the static library is not there.
    ArtifactNotFound { path: String },
    /// The merge tool did not produce the universal archive.
    FusionFailure,
    /// The packaging template is not complete.
    MissingTemplate,
    /// The packaging system failed to configure.
    PackagingConfigureFailure,
    /// The packaging system failed to build.
    PackagingBuildFailure,
    /// A file or directory could not be read, made or copied.
    FilesystemError { detail: String },
    /// What the toolchain printed is not valid UTF-8.
    UndecodableDiagnostics,
    /// An event arrived that does not answer the action that was asked for.
    UnexpectedEvent,
}

/// A `PipelineError` as plain values.
pub enum ErrorView {
    ToolchainUnavailable { detail: Seq<char> },
    BuildFailure { target: Option<Seq<char>>, diagnostics: Seq<u8> },
    ArtifactNotFound { path: Seq<char> },
    FusionFailure,
    MissingTemplate,
    PackagingConfigureFailure,
    PackagingBuildFailure,
    FilesystemError { detail: Seq<char> },
    UndecodableDiagnostics,
    UnexpectedEvent,
}

impl View for PipelineError {
    type V = ErrorView;

    open spec fn view(&self) -> ErrorView {
        match self {
            PipelineError::ToolchainUnavailable { detail } => ErrorView::ToolchainUnavailable {
                detail: detail@,
            },
            PipelineError::BuildFailure { target, diagnostics } => ErrorView::BuildFailure {
                target: match target {
                    Some(t) => Some(t@),
                    None => None,
                },
                diagnostics: diagnostics@,
            },
            PipelineError::ArtifactNotFound { path } => ErrorView::ArtifactNotFound { path: path@ },
            PipelineError::FusionFailure => ErrorView::FusionFailure,
            PipelineError::MissingTemplate => ErrorView::MissingTemplate,
            PipelineError::PackagingConfigureFailure => ErrorView::PackagingConfigureFailure,
            PipelineError::PackagingBuildFailure => ErrorView::PackagingBuildFailure,
            PipelineError::FilesystemError { detail } => ErrorView::FilesystemError {
                detail: detail@,
            },
            PipelineError::UndecodableDiagnostics => ErrorView::UndecodableDiagnostics,
            PipelineError::UnexpectedEvent => ErrorView::UnexpectedEvent,
        }
    }
}

/// What is said of a build that failed, given the target it was for and the
/// text of what the toolchain wrote to its error stream.
pub open spec fn build_failure_text(target: Option<Seq<char>>, diagnostics: Seq<char>) -> Seq<
    char,
> {
    match target {
        Some(t) => "Failed to build for "@ + t + ": "@ + diagnostics,
        None => "Failed to build static library: "@ + diagnostics,
    }
}

/// What is said of the targets that could not be installed.
pub open spec fn toolchain_unavailable_text(detail: Seq<char>) -> Seq<char> {
    if detail.len() == 0 {
        "Failed to add required targets"@
    } else {
        "Failed to add required targets: "@ + detail
    }
}

/// The message of an error. The diagnostics of a failed build are part of
/// it, decoded as `diagnostics`.
pub open spec fn message_text(error: ErrorView, diagnostics: Seq<char>) -> Seq<char> {
    match error {
        ErrorView::ToolchainUnavailable { detail } => toolchain_unavailable_text(detail),
        ErrorView::BuildFailure { target, diagnostics: _ } => build_failure_text(
            target,
            diagnostics,
        ),
        ErrorView::ArtifactNotFound { path } => "Static library file not found: "@ + path,
        ErrorView::FusionFailure => "Failed to create universal binary with lipo"@,
        ErrorView::MissingTemplate => "Required CMake files not found in xtask/cmake directory"@,
        ErrorView::PackagingConfigureFailure => "CMake configuration failed"@,
        ErrorView::PackagingBuildFailure => "Plugin build failed"@,
        ErrorView::FilesystemError { detail } => detail,
        ErrorView::UndecodableDiagnostics => "stream did not contain valid UTF-8"@,
        ErrorView::UnexpectedEvent => "unexpected event"@,
    }
}

/// The bytes whose text a message quotes: the diagnostics of a failed build,
/// and nothing for any other error.
pub open spec fn quoted_bytes(error: ErrorView) -> Seq<u8> {
    match error {
        ErrorView::BuildFailure { target: _, diagnostics } => diagnostics,
        _ => Seq::empty(),
    }
}

/// Says that a build failed, naming the target where there is one, and
/// quoting the toolchain's diagnostics.
pub fn build_failure_message(target: &Option<String>, diagnostics: &str) -> (message: String)
    ensures
        message@ == build_failure_text(
            match target {
                Some(t) => Some(t@),
                None => None,
            },
            diagnostics@,
        ),
{
    match target {
        Some(t) => {
            let mut message = appended("Failed to build for ", t.as_str());
            message.append(": ");
            message.append(diagnostics);
            message
        },
        None => appended("Failed to build static library: ", diagnostics),
    }
}

impl PipelineError {
    /// The message of this error, as it is shown to the user.
    pub fn message(&self) -> (message: String)
        ensures
            message@ == message_text(self@, lossy_text(quoted_bytes(self@))),
    {
        match self {
            PipelineError::ToolchainUnavailable { detail } => {
                if detail.as_str().is_empty() {
                    "Failed to add required targets".to_owned()
                } else {
                    appended("Failed to add required targets: ", detail.as_str())
                }
            },
            PipelineError::BuildFailure { target, diagnostics } => {
                let text = decode_lossy(diagnostics.as_slice());
                build_failure_message(target, text.as_str())
            },
            PipelineError::ArtifactNotFound { path } => appended(
                "Static library file not found: ",
                path.as_str(),
            ),
            PipelineError::FusionFailure => "Failed to create universal binary with lipo".to_owned(),
            PipelineError::MissingTemplate => "Required CMake files not found in xtask/cmake directory".to_owned(),
            PipelineError::PackagingConfigureFailure => "CMake configuration failed".to_owned(),
            PipelineError::PackagingBuildFailure => "Plugin build failed".to_owned(),
            PipelineError::FilesystemError { detail } => detail.clone(),
            PipelineError::UndecodableDiagnostics => "stream did not contain valid UTF-8".to_owned(),
            PipelineError::UnexpectedEvent => "unexpected event".to_owned(),
        }
    }
}

} // verus!
