//! Data model of the pipeline.
//!
//! All times are integer milliseconds since the start of the recording
//! (except `Transcription::created_at`, Unix seconds, and
//! `Transcription::duration`, whole seconds, as the stored record keeps
//! them). Confidences are thousandths in `0..=1000`.

use vstd::prelude::*;

verus! {

/// Lifecycle of a transcript record.
///
/// `Recording` -> `Completed` on a normal stop, or -> `Error(reason)` on
/// an unrecoverable capture failure; `Completed` -> `Processing` ->
/// `Completed` again when structure analysis is re-run.
#[derive(Debug, Clone, PartialEq, Eq)]
pub enum TranscriptionStatus {
    Recording,
    Processing,
    Completed,
    Error(String),
}

/// A finer-grained division inside a chapter. Produced only by the
/// structure analysis; currently always left empty by the analyzer.
#[derive(Debug, Clone, PartialEq, Eq)]
pub struct Subsection {
    pub id: String,
    pub content: String,
    pub start_time_ms: u64,
    pub end_time_ms: u64,
    pub confidence_milli: u32,
}

/// One chapter of an analyzed transcript.
#[derive(Debug, Clone, PartialEq, Eq)]
pub struct Chapter {
    pub id: String,
    pub title: String,
    pub start_time_ms: u64,
    pub content: String,
    pub confidence_milli: u32,
    pub subsections: Vec<Subsection>,
}

impl Chapter {
    pub open spec fn wf(&self) -> bool {
        self.confidence_milli <= 1000
    }
}

/// A finished (or finishing) transcript record.
#[derive(Debug, Clone, PartialEq, Eq)]
pub struct Transcription {
    pub id: String,
    pub title: String,
    /// Unix seconds at which the recording was created.
    pub created_at: u64,
    /// Whole seconds of recorded audio.
    pub duration: u64,
    pub chapters: Vec<Chapter>,
    pub raw_text: String,
    pub status: TranscriptionStatus,
}

impl Transcription {
    pub open spec fn wf(&self) -> bool {
        forall|i: int| 0 <= i < self.chapters@.len() ==> (#[trigger] self.chapters@[i]).wf()
    }
}

/// Live state of the one recording in progress.
#[derive(Debug, Clone, PartialEq, Eq)]
pub struct RecordingState {
    pub is_recording: bool,
    pub current_text: String,
    pub duration_ms: u64,
    pub audio_level_milli: u32,
    pub transcription_id: Option<String>,
}

/// One transcribed fragment with its time span. Produced by the
/// dispatcher, consumed exactly once by the merger. Fragments are
/// always provisional: nothing re-finalizes them later, so `is_final`
/// stays false (a known limitation).
#[derive(Debug, Clone, PartialEq, Eq)]
pub struct TranscriptionChunk {
    pub text: String,
    pub confidence_milli: u32,
    pub start_time_ms: u64,
    pub end_time_ms: u64,
    pub is_final: bool,
}

/// How a transcript is rendered on export.
#[derive(Debug, Clone, PartialEq, Eq)]
pub struct ExportFormat {
    pub format_type: ExportType,
    pub include_timestamps: bool,
    pub include_chapters: bool,
    pub custom_template: Option<String>,
}

#[derive(Debug, Clone, PartialEq, Eq)]
pub enum ExportType {
    Pdf,
    Docx,
    Txt,
    Markdown,
}

/// One remote model preset offered to the user.
#[derive(Debug, Clone, PartialEq, Eq)]
pub struct GeminiModel {
    pub id: String,
    pub name: String,
    pub description: String,
    pub supports_audio: bool,
    pub context_window: String,
}

/// The fixed list of model presets, in the order they are offered.
pub fn get_available_models() -> (r: Vec<GeminiModel>)
    ensures
        r@.len() == 4,
        r@[0].id@ == "gemini-2.5-flash"@,
        r@[0].name@ == "Gemini 2.5 Flash"@,
        r@[0].description@ == "Best price/performance, audio support, thinking capabilities"@,
        r@[0].context_window@ == "1M tokens"@,
        r@[1].id@ == "gemini-2.5-pro"@,
        r@[1].name@ == "Gemini 2.5 Pro"@,
        r@[1].description@ == "Most powerful model for complex reasoning and analysis"@,
        r@[1].context_window@ == "2M tokens"@,
        r@[2].id@ == "gemini-2.0-flash"@,
        r@[2].name@ == "Gemini 2.0 Flash"@,
        r@[2].description@ == "Fast with native tool use and improved capabilities"@,
        r@[2].context_window@ == "1M tokens"@,
        r@[3].id@ == "gemini-1.5-pro"@,
        r@[3].name@ == "Gemini 1.5 Pro (Legacy)"@,
        r@[3].description@ == "Available only for existing projects with prior usage"@,
        r@[3].context_window@ == "2M tokens"@,
        forall|i: int| 0 <= i < 4 ==> (#[trigger] r@[i]).supports_audio,
{
    let mut models: Vec<GeminiModel> = Vec::new();
    models.push(GeminiModel {
        id: String::from_str("gemini-2.5-flash"),
        name: String::from_str("Gemini 2.5 Flash"),
        description: String::from_str(
            "Best price/performance, audio support, thinking capabilities",
        ),
        supports_audio: true,
        context_window: String::from_str("1M tokens"),
    });
    models.push(GeminiModel {
        id: String::from_str("gemini-2.5-pro"),
        name: String::from_str("Gemini 2.5 Pro"),
        description: String::from_str("Most powerful model for complex reasoning and analysis"),
        supports_audio: true,
        context_window: String::from_str("2M tokens"),
    });
    models.push(GeminiModel {
        id: String::from_str("gemini-2.0-flash"),
        name: String::from_str("Gemini 2.0 Flash"),
        description: String::from_str("Fast with native tool use and improved capabilities"),
        supports_audio: true,
        context_window: String::from_str("1M tokens"),
    });
    models.push(GeminiModel {
        id: String::from_str("gemini-1.5-pro"),
        name: String::from_str("Gemini 1.5 Pro (Legacy)"),
        description: String::from_str("Available only for existing projects with prior usage"),
        supports_audio: true,
        context_window: String::from_str("2M tokens"),
    });
    models
}

} // verus!
