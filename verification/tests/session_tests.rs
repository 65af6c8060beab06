use trascrivi::dispatch::dispatch_outcome;
use trascrivi::errors::PipelineError;
use trascrivi::models::{TranscriptionChunk, TranscriptionStatus};
use trascrivi::session::AppState;

fn fragment(text: &str, start_ms: u64, end_ms: u64) -> TranscriptionChunk {
    TranscriptionChunk {
        text: text.to_string(),
        confidence_milli: 900,
        start_time_ms: start_ms,
        end_time_ms: end_ms,
        is_final: false,
    }
}

#[test]
fn default_state() {
    let state = AppState::default();
    assert_eq!(state.selected_model, "gemini-2.5-flash");
    assert!(state.current_recording.is_none());
    assert!(state.gemini_api_key.is_none());
    assert_eq!(state.transcriptions.len(), 0);
}

#[test]
fn merge_appends_space_separated_text() {
    let mut state = AppState::default();
    state.start_recording("t-1".to_string());
    assert!(state.apply_fragment(&fragment("hello", 0, 2000)));
    assert!(state.apply_fragment(&fragment("world", 2000, 4000)));
    let rec = state.current_recording.as_ref().unwrap();
    assert_eq!(rec.current_text, "hello world");
    assert_eq!(rec.duration_ms, 4000);
}

#[test]
fn duration_is_monotonic_under_out_of_order_arrival() {
    let mut state = AppState::default();
    state.start_recording("t-1".to_string());
    assert!(state.apply_fragment(&fragment("late", 2000, 4000)));
    // An earlier window completes after a later one: the duration
    // must not regress.
    assert!(state.apply_fragment(&fragment("early", 0, 2000)));
    let rec = state.current_recording.as_ref().unwrap();
    assert_eq!(rec.duration_ms, 4000);
    assert_eq!(rec.current_text, "late early");
}

#[test]
fn blank_fragment_is_a_no_op_on_state() {
    let mut state = AppState::default();
    state.start_recording("t-1".to_string());
    assert!(state.apply_fragment(&fragment("hello", 0, 2000)));
    let before_text = state.current_recording.as_ref().unwrap().current_text.clone();
    let before_dur = state.current_recording.as_ref().unwrap().duration_ms;
    assert!(!state.apply_fragment(&fragment("   \t\n", 2000, 9000)));
    let rec = state.current_recording.as_ref().unwrap();
    assert_eq!(rec.current_text, before_text);
    assert_eq!(rec.duration_ms, before_dur);
}

#[test]
fn failed_dispatch_does_not_stop_later_merges() {
    let mut state = AppState::default();
    state.start_recording("t-1".to_string());

    // First flush: the service misbehaves; the error is dropped.
    let bad = dispatch_outcome(true, "not json", 0, 2000);
    assert!(matches!(bad, Err(PipelineError::TranscriptionError(_))));

    // Second flush: a good reply merges normally.
    let body = "{\"candidates\":[{\"content\":{\"parts\":[{\"text\":\"still here\"}]}}]}";
    let good = dispatch_outcome(true, body, 2000, 2000).unwrap().unwrap();
    assert!(state.apply_fragment(&good));
    let rec = state.current_recording.as_ref().unwrap();
    assert_eq!(rec.current_text, "still here");
    assert_eq!(rec.duration_ms, 4000);
}

#[test]
fn stop_finalizes_and_late_fragment_is_discarded() {
    let mut state = AppState::default();
    state.start_recording("t-9".to_string());
    assert!(state.apply_fragment(&fragment("first", 0, 2000)));
    assert!(state.apply_fragment(&fragment("second", 2000, 4000)));

    let transcript = state.stop_recording(1700000000).expect("stop must succeed");
    assert_eq!(transcript.id, "t-9");
    assert_eq!(transcript.title, "New Transcription");
    assert_eq!(transcript.created_at, 1700000000);
    assert_eq!(transcript.duration, 4);
    assert_eq!(transcript.raw_text, "first second");
    assert!(transcript.chapters.is_empty());
    assert!(matches!(transcript.status, TranscriptionStatus::Completed));

    // A dispatch that was in flight when recording stopped arrives
    // late: it must be discarded, and the finalized text unchanged.
    assert!(!state.apply_fragment(&fragment("late straggler", 4000, 6000)));
    assert!(state.current_recording.is_none());
    assert_eq!(transcript.raw_text, "first second");
}

#[test]
fn device_failure_finalizes_with_error_status() {
    let mut state = AppState::default();
    state.start_recording("t-err".to_string());
    assert!(state.apply_fragment(&fragment("partial", 0, 2000)));
    let transcript = state.fail_recording("stream aborted".to_string(), 42).unwrap();
    assert_eq!(transcript.id, "t-err");
    assert_eq!(transcript.raw_text, "partial");
    match transcript.status {
        TranscriptionStatus::Error(ref m) => assert_eq!(m, "stream aborted"),
        ref other => panic!("expected Error status, got {:?}", other),
    }
    assert!(state.current_recording.is_none());
}

#[test]
fn stop_without_a_session_fails() {
    let mut state = AppState::default();
    match state.stop_recording(0) {
        Err(PipelineError::NoActiveSession) => {}
        other => panic!("expected NoActiveSession, got {:?}", other),
    }
}

#[test]
fn starting_again_replaces_the_active_session() {
    let mut state = AppState::default();
    state.start_recording("a".to_string());
    assert!(state.apply_fragment(&fragment("one", 0, 2000)));
    state.start_recording("b".to_string());
    let rec = state.current_recording.as_ref().unwrap();
    assert_eq!(rec.current_text, "");
    assert_eq!(rec.duration_ms, 0);
    assert_eq!(rec.transcription_id.as_deref(), Some("b"));
}

#[test]
fn transcript_index_insert_get_replace_remove() {
    let mut state = AppState::default();
    state.start_recording("x".to_string());
    let t1 = state.stop_recording(10).unwrap();
    state.insert_transcription(t1);
    assert_eq!(state.transcription_count(), 1);
    assert_eq!(state.get_transcription("x").unwrap().created_at, 10);

    // Replacing under the same id keeps one entry.
    state.start_recording("x".to_string());
    let t2 = state.stop_recording(20).unwrap();
    state.insert_transcription(t2);
    assert_eq!(state.transcription_count(), 1);
    assert_eq!(state.get_transcription("x").unwrap().created_at, 20);

    assert!(state.get_transcription("missing").is_none());
    assert!(!state.remove_transcription("missing"));
    assert!(state.remove_transcription("x"));
    assert_eq!(state.transcription_count(), 0);
}

#[test]
fn settings_round_trip() {
    let mut state = AppState::default();
    state.set_api_key("key-for-tests".to_string());
    assert_eq!(state.gemini_api_key.as_deref(), Some("key-for-tests"));
    state.set_selected_model("gemini-2.5-pro".to_string());
    assert_eq!(state.get_selected_model(), "gemini-2.5-pro");
    assert!(state.get_recording_state().is_none());
}

#[test]
fn error_labels() {
    assert_eq!(PipelineError::DeviceUnavailable.label(), "device unavailable");
    assert_eq!(PipelineError::NoActiveSession.label(), "no active session");
    assert_eq!(PipelineError::DeviceError(String::new()).label(), "device error");
    assert_eq!(PipelineError::StorageError(String::new()).label(), "storage error");
}
