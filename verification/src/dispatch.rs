//! The transcription dispatcher's pure half: building the request for
//! one flushed buffer and turning the service's reply into a transcript
//! fragment. The caller performs the HTTP exchange and hands back the
//! status and body text.

use crate::codec::{b64_of, convert_to_wav, encode, spec_wav};
use crate::errors::PipelineError;
use crate::json::{json_parse, parse_json, reply_text, spec_reply_text, JVal};
use crate::models::TranscriptionChunk;
use crate::text::{escaped, is_blank, json_escape, spec_is_blank};
use vstd::prelude::*;

verus! {

/// The JSON request body for one flushed buffer, already base64-encoded:
/// one content with a text part carrying the instruction and an inline
/// WAV payload.
pub open spec fn spec_transcription_request_body(audio_b64: Seq<char>) -> Seq<char> {
    "{\"contents\":[{\"parts\":[{\"text\":\"Please transcribe this audio to text. Only return the transcribed text, nothing else.\"},{\"inline_data\":{\"mime_type\":\"audio/wav\",\"data\":\""@
        + escaped(audio_b64)
        + "\"}}]}]}"@
}

/// Builds the transcription request body around a base64 audio payload.
pub fn transcription_request_body(audio_b64: &str) -> (r: String)
    ensures
        r@ == spec_transcription_request_body(audio_b64@),
{
    let mut body = String::from_str(
        "{\"contents\":[{\"parts\":[{\"text\":\"Please transcribe this audio to text. Only return the transcribed text, nothing else.\"},{\"inline_data\":{\"mime_type\":\"audio/wav\",\"data\":\"",
    );
    let payload = json_escape(audio_b64);
    let body = body.concat(payload.as_str());
    let body = body.concat("\"}}]}]}");
    body
}

/// The request payload for one flushed buffer: the WAV container,
/// base64-encoded, wrapped in the request body.
#[verifier::rlimit(100)]
pub fn encode_flush_request(samples: &Vec<i32>, sample_rate: u32) -> (r: String)
    requires
        36 + 2 * samples@.len() <= u32::MAX,
        44 + 2 * samples@.len() <= usize::MAX - 2,
        sample_rate >= 1,
        sample_rate <= u32::MAX / 2,
    ensures
        r@ == spec_transcription_request_body(b64_of(spec_wav(samples@, sample_rate as int))),
{
    let wav = convert_to_wav(samples, sample_rate);
    let b64 = encode(wav.as_slice());
    transcription_request_body(b64.as_str())
}

/// The text the transcription reply carries: the first text part, or
/// empty where the expected field is absent (absence is an empty
/// transcript, not an error).
pub open spec fn spec_transcription_text(j: JVal) -> Seq<char> {
    match spec_reply_text(j) {
        Some(t) => t,
        None => Seq::empty(),
    }
}

/// What one dispatch yields, given the reply to its request.
///
/// - A failed exchange (`status_ok` false) or an unparsable reply body
///   is a `TranscriptionError`; the caller logs and drops it, and the
///   pipeline continues.
/// - A fragment whose text trims to nothing is discarded (`Ok(None)`)
///   before it ever reaches the merger.
/// - Otherwise the fragment spans the flushed window: it starts at the
///   buffer's window start, ends one flush interval later, carries the
///   fixed placeholder confidence, and is provisional (`is_final`
///   false).
pub fn dispatch_outcome(
    status_ok: bool,
    body: &str,
    window_start_ms: u64,
    flush_interval_ms: u64,
) -> (r: Result<Option<TranscriptionChunk>, PipelineError>)
    requires
        window_start_ms + flush_interval_ms <= u64::MAX,
    ensures
        !status_ok ==> (r matches Err(PipelineError::TranscriptionError(m)) && m@ == "API error: "@
            + body@),
        status_ok && json_parse(body@) is None ==> (r matches Err(
            PipelineError::TranscriptionError(m),
        ) && m@ == "invalid transcription reply"@),
        status_ok ==> (json_parse(body@) matches Some(j) ==> {
            let text = spec_transcription_text(j);
            if spec_is_blank(text) {
                r matches Ok(f) && f is None
            } else {
                &&& r matches Ok(f)
                &&& f matches Some(chunk)
                &&& (r matches Ok(f) && f matches Some(chunk) ==> {
                    &&& chunk.text@ == text
                    &&& chunk.confidence_milli == 900
                    &&& chunk.start_time_ms == window_start_ms
                    &&& chunk.end_time_ms == window_start_ms + flush_interval_ms
                    &&& chunk.is_final == false
                })
            }
        }),
{
    if !status_ok {
        let m = String::from_str("API error: ").concat(body);
        return Err(PipelineError::TranscriptionError(m));
    }
    let root = match parse_json(body) {
        Some(v) => v,
        None => {
            return Err(
                PipelineError::TranscriptionError(String::from_str("invalid transcription reply")),
            );
        },
    };
    let text = match reply_text(&root) {
        Some(t) => t,
        None => String::new(),
    };
    if is_blank(text.as_str()) {
        return Ok(None);
    }
    Ok(
        Some(
            TranscriptionChunk {
                text,
                confidence_milli: 900,
                start_time_ms: window_start_ms,
                end_time_ms: window_start_ms + flush_interval_ms,
                is_final: false,
            },
        ),
    )
}

} // verus!
