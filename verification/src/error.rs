//! The failures the pipeline can report.

use vstd::prelude::*;

verus! {

/// Everything that can go wrong along the transformation pipeline.
///
/// All variants but `CredentialMissing` (fatal at startup) and
/// `ClipboardAccess` at initialization are recoverable: they are reported per
/// trigger and the worker keeps running.
#[derive(Debug, Clone, PartialEq, Eq)]
pub enum PipelineError {
    /// The config file exists but does not parse as a mode configuration.
    ConfigCorrupt,
    /// A mode cycle was requested while the configured mode set is empty.
    NoModesConfigured,
    /// No API credential was available when a transform was triggered.
    CredentialMissing,
    /// The request to the text-generation API could not be completed.
    TransportFailure,
    /// The API answered with a non-success status; the raw body is kept
    /// for diagnosis.
    ApiStatusFailure(String),
    /// The API answered with a success status but the generated message
    /// could not be found where the response contract places it.
    MalformedResponse,
    /// The generated message was empty after trimming; the clipboard is
    /// left untouched rather than overwritten with nothing.
    EmptyGeneration,
    /// The system clipboard could not be opened, read or written.
    ClipboardAccess,
}

impl PipelineError {
    /// A short human-readable description, for logs and notifications.
    pub fn describe(&self) -> String {
        match self {
            PipelineError::ConfigCorrupt => "config file is not valid mode JSON".to_owned(),
            PipelineError::NoModesConfigured => "no modes configured".to_owned(),
            PipelineError::CredentialMissing => "API key not set".to_owned(),
            PipelineError::TransportFailure => "API request failed to complete".to_owned(),
            PipelineError::ApiStatusFailure(body) => {
                let mut s = "API request failed: ".to_owned();
                s.append(body.as_str());
                s
            },
            PipelineError::MalformedResponse => "invalid API response format".to_owned(),
            PipelineError::EmptyGeneration => "API returned empty content".to_owned(),
            PipelineError::ClipboardAccess => "clipboard unavailable".to_owned(),
        }
    }
}

} // verus!
