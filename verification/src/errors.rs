//! Error taxonomy of the pipeline.

use vstd::prelude::*;

verus! {

/// One failure kind per pipeline boundary.
///
/// - `DeviceUnavailable`: no capture source exists; fatal to `start`.
/// - `DeviceError`: capture aborted mid-stream; ends the session.
/// - `TranscriptionError`: one dispatch failed (network, auth, or a
///   malformed reply); recovered locally, the pipeline continues.
/// - `AnalysisError`: the structure call failed or its reply held no
///   parsable bracketed list.
/// - `StorageError`: a read, write or serialization failure.
/// - `NoActiveSession`: stop or a live query with nothing recording.
#[derive(Debug, Clone, PartialEq, Eq)]
pub enum PipelineError {
    DeviceUnavailable,
    DeviceError(String),
    TranscriptionError(String),
    AnalysisError(String),
    StorageError(String),
    NoActiveSession,
}

impl PipelineError {
    /// A short fixed label for the error kind, for logs and user messages.
    pub fn label(&self) -> (r: &'static str)
        ensures
            r@ == self.spec_label(),
    {
        match self {
            PipelineError::DeviceUnavailable => "device unavailable",
            PipelineError::DeviceError(_) => "device error",
            PipelineError::TranscriptionError(_) => "transcription error",
            PipelineError::AnalysisError(_) => "analysis error",
            PipelineError::StorageError(_) => "storage error",
            PipelineError::NoActiveSession => "no active session",
        }
    }

    pub open spec fn spec_label(&self) -> Seq<char> {
        match self {
            PipelineError::DeviceUnavailable => "device unavailable"@,
            PipelineError::DeviceError(_) => "device error"@,
            PipelineError::TranscriptionError(_) => "transcription error"@,
            PipelineError::AnalysisError(_) => "analysis error"@,
            PipelineError::StorageError(_) => "storage error"@,
            PipelineError::NoActiveSession => "no active session"@,
        }
    }
}

} // verus!
