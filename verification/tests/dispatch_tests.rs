use trascrivi::dispatch::{dispatch_outcome, encode_flush_request, transcription_request_body};
use trascrivi::errors::PipelineError;

#[test]
fn request_body_wraps_payload() {
    let body = transcription_request_body("AAAA");
    assert_eq!(
        body,
        "{\"contents\":[{\"parts\":[{\"text\":\"Please transcribe this audio to text. Only return the transcribed text, nothing else.\"},{\"inline_data\":{\"mime_type\":\"audio/wav\",\"data\":\"AAAA\"}}]}]}"
    );
}

#[test]
fn flush_request_carries_base64_wav() {
    let samples: Vec<i32> = vec![0];
    let body = encode_flush_request(&samples, 8000);
    // The payload must be real base64 of a real WAV container: it
    // starts with the base64 of "RIFF" ("UklGR").
    assert!(body.contains("\"data\":\"UklGR"));
    assert!(body.ends_with("\"}}]}]}"));
}

#[test]
fn failed_exchange_is_a_transcription_error() {
    let r = dispatch_outcome(false, "quota exceeded", 0, 2000);
    match r {
        Err(PipelineError::TranscriptionError(m)) => {
            assert_eq!(m, "API error: quota exceeded");
        }
        other => panic!("expected TranscriptionError, got {:?}", other),
    }
}

#[test]
fn unparsable_reply_is_a_transcription_error() {
    let r = dispatch_outcome(true, "not json at all", 0, 2000);
    match r {
        Err(PipelineError::TranscriptionError(m)) => {
            assert_eq!(m, "invalid transcription reply");
        }
        other => panic!("expected TranscriptionError, got {:?}", other),
    }
}

#[test]
fn good_reply_becomes_a_provisional_fragment() {
    let body = "{\"candidates\":[{\"content\":{\"parts\":[{\"text\":\"hello world\"}]}}]}";
    let r = dispatch_outcome(true, body, 1000, 2000);
    let chunk = r.expect("must decode").expect("must keep non-blank text");
    assert_eq!(chunk.text, "hello world");
    assert_eq!(chunk.confidence_milli, 900);
    assert_eq!(chunk.start_time_ms, 1000);
    assert_eq!(chunk.end_time_ms, 3000);
    assert!(!chunk.is_final);
}

#[test]
fn blank_reply_text_is_discarded() {
    let body = "{\"candidates\":[{\"content\":{\"parts\":[{\"text\":\"  \\n \"}]}}]}";
    let r = dispatch_outcome(true, body, 0, 2000);
    assert_eq!(r.expect("must decode"), None);
}

#[test]
fn missing_text_field_is_an_empty_transcript_not_an_error() {
    let r = dispatch_outcome(true, "{}", 0, 2000);
    assert_eq!(r.expect("must decode"), None);
}
