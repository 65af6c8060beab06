use trascrivi::audio::AudioCapture;
use trascrivi::export::{export_to_docx, export_to_markdown, export_to_txt, wrap_text};
use trascrivi::models::{
    get_available_models, Chapter, ExportFormat, ExportType, Transcription, TranscriptionStatus,
};

fn sample_transcription() -> Transcription {
    Transcription {
        id: "t-1".to_string(),
        title: "My Talk".to_string(),
        created_at: 0,
        duration: 75,
        chapters: vec![
            Chapter {
                id: "c-1".to_string(),
                title: "Intro".to_string(),
                start_time_ms: 0,
                content: "Welcome.".to_string(),
                confidence_milli: 900,
                subsections: vec![],
            },
            Chapter {
                id: "c-2".to_string(),
                title: "Middle".to_string(),
                start_time_ms: 12500,
                content: "The point.".to_string(),
                confidence_milli: 900,
                subsections: vec![],
            },
        ],
        raw_text: "Welcome. The point.".to_string(),
        status: TranscriptionStatus::Completed,
    }
}

fn fmt(kind: ExportType, ts: bool, chapters: bool) -> ExportFormat {
    ExportFormat {
        format_type: kind,
        include_timestamps: ts,
        include_chapters: chapters,
        custom_template: None,
    }
}

#[test]
fn txt_export_with_chapters_and_timestamps() {
    let t = sample_transcription();
    let out = export_to_txt(&t, &fmt(ExportType::Txt, true, true));
    assert_eq!(
        out,
        "My Talk\nDate: 1970-01-01 00:00:00\nDuration: 75s\n\n\
         --- Intro ---\nStart: 0.0s\nWelcome.\n\n\
         --- Middle ---\nStart: 12.5s\nThe point.\n\n"
    );
}

#[test]
fn txt_export_without_chapters_uses_raw_text() {
    let t = sample_transcription();
    let out = export_to_txt(&t, &fmt(ExportType::Txt, true, false));
    assert_eq!(out, "My Talk\nDate: 1970-01-01 00:00:00\nDuration: 75s\n\nWelcome. The point.");
}

#[test]
fn markdown_export() {
    let t = sample_transcription();
    let out = export_to_markdown(&t, &fmt(ExportType::Markdown, true, true));
    assert_eq!(
        out,
        "# My Talk\n\n**Date:** 1970-01-01 00:00:00\n**Duration:** 75s\n\n\
         ## Intro\n*Start: 0.0s*\n\nWelcome.\n\n\
         ## Middle\n*Start: 12.5s*\n\nThe point.\n\n"
    );
}

#[test]
fn docx_export_without_timestamps() {
    let t = sample_transcription();
    let out = export_to_docx(&t, &fmt(ExportType::Docx, false, true));
    assert_eq!(
        out,
        "# My Talk\n\nDate: 1970-01-01 00:00:00\nDuration: 75s\n\n\
         ## Intro\nWelcome.\n\n## Middle\nThe point.\n\n"
    );
}

#[test]
fn greedy_wrap() {
    assert_eq!(wrap_text("the quick brown fox", 10), vec!["the quick", "brown fox"]);
    assert_eq!(wrap_text("", 10), Vec::<String>::new());
    assert_eq!(wrap_text("   ", 10), Vec::<String>::new());
    // A single over-long word stands on its own line.
    assert_eq!(wrap_text("abcdefghijkl on", 5), vec!["abcdefghijkl", "on"]);
    // Runs of whitespace collapse.
    assert_eq!(wrap_text("a   b \n c", 80), vec!["a b c"]);
}

#[test]
fn model_presets() {
    let models = get_available_models();
    assert_eq!(models.len(), 4);
    assert_eq!(models[0].id, "gemini-2.5-flash");
    assert_eq!(models[1].id, "gemini-2.5-pro");
    assert_eq!(models[2].id, "gemini-2.0-flash");
    assert_eq!(models[3].id, "gemini-1.5-pro");
    assert_eq!(
        models[0].description,
        "Best price/performance, audio support, thinking capabilities"
    );
    assert_eq!(models[1].description, "Most powerful model for complex reasoning and analysis");
    assert_eq!(models[2].description, "Fast with native tool use and improved capabilities");
    assert_eq!(models[3].description, "Available only for existing projects with prior usage");
    assert!(models.iter().all(|m| m.supports_audio));
    assert!(models.iter().all(|m| !m.name.is_empty() && !m.context_window.is_empty()));
}

#[test]
fn capture_flag_lifecycle() {
    let mut cap = AudioCapture::new(44100);
    assert!(!cap.is_recording());
    cap.begin_recording();
    assert!(cap.is_recording());
    assert!(cap.stop_recording().is_ok());
    assert!(!cap.is_recording());
    assert_eq!(cap.get_audio_level(), 500);
}
