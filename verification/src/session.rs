//! Process-wide application state: the transcript index, the one live
//! recording session, and the merger that folds arriving fragments
//! into it.
//!
//! Exactly one session is active at a time; starting a new recording
//! while one is active replaces it. A fragment arriving with no active session — for
//! example after the recording was stopped while its dispatch was in
//! flight — is discarded, never merged into a finalized transcript.

use crate::errors::PipelineError;
use crate::ids::fresh_id;
use crate::models::{RecordingState, Transcription, TranscriptionChunk, TranscriptionStatus};
use crate::text::{is_blank, spec_is_blank};
use vstd::pervasive::VecAdditionalExecFns;
use vstd::prelude::*;

verus! {

/// Index of the first entry keyed `id`, or `entries.len()` if none is.
pub open spec fn find_key(entries: Seq<(String, Transcription)>, id: Seq<char>) -> int
    decreases entries.len(),
{
    if entries.len() == 0 {
        0
    } else if entries[0].0@ == id {
        0
    } else {
        1 + find_key(entries.skip(1), id)
    }
}

proof fn lemma_find_key(entries: Seq<(String, Transcription)>, id: Seq<char>, m: int)
    requires
        0 <= m <= entries.len(),
        forall|k: int| 0 <= k < m ==> (#[trigger] entries[k]).0@ != id,
        m < entries.len() ==> entries[m].0@ == id,
    ensures
        find_key(entries, id) == m,
    decreases m,
{
    if m > 0 {
        lemma_find_key(entries.skip(1), id, m - 1);
    }
}

/// The accumulated text after merging one more fragment: fragments are
/// separated by a single space, with no leading space on the first.
pub open spec fn spec_merged_text(acc: Seq<char>, add: Seq<char>) -> Seq<char> {
    if acc.len() == 0 {
        add
    } else {
        acc + " "@ + add
    }
}

/// In-memory application state: the transcript index (unique ids), the
/// live recording session if one is active, and the service settings.
pub struct AppState {
    pub transcriptions: Vec<(String, Transcription)>,
    pub current_recording: Option<RecordingState>,
    pub gemini_api_key: Option<String>,
    pub selected_model: String,
}

impl AppState {
    /// Transcript ids are unique in the index.
    pub open spec fn wf(&self) -> bool {
        forall|i: int, j: int|
            0 <= i < j < self.transcriptions@.len() ==> (#[trigger] self.transcriptions@[i]).0@ != (
            #[trigger] self.transcriptions@[j]).0@
    }

    /// Begins a recording session under the given transcript id,
    /// replacing any session already active.
    pub fn start_recording(&mut self, transcription_id: String)
        ensures
            old(self).wf() ==> final(self).wf(),
            final(self).current_recording matches Some(rec) && {
                &&& rec.is_recording
                &&& rec.current_text@.len() == 0
                &&& rec.duration_ms == 0
                &&& rec.audio_level_milli == 0
                &&& rec.transcription_id matches Some(tid) && tid@ == transcription_id@
            },
            final(self).transcriptions == old(self).transcriptions,
            final(self).gemini_api_key == old(self).gemini_api_key,
            final(self).selected_model == old(self).selected_model,
    {
        self.current_recording = Some(
            RecordingState {
                is_recording: true,
                current_text: String::new(),
                duration_ms: 0,
                audio_level_milli: 0,
                transcription_id: Some(transcription_id),
            },
        );
    }

    /// Folds one arriving fragment into the live session.
    ///
    /// With no active session the fragment is discarded. A fragment
    /// whose text is nothing but whitespace leaves the session exactly
    /// as it was (it may still be forwarded to observers by the
    /// caller). Otherwise its text is appended, space-separated, and
    /// the live duration advances to the fragment's end time if that
    /// is greater — it never regresses, whatever order fragments
    /// arrive in.
    pub fn apply_fragment(&mut self, chunk: &TranscriptionChunk) -> (merged: bool)
        ensures
            old(self).current_recording is None ==> (*final(self) == *old(self) && !merged),
            old(self).current_recording matches Some(rec0) ==> (spec_is_blank(chunk.text@) ==> (
            *final(self) == *old(self) && !merged)),
            old(self).current_recording matches Some(rec0) ==> (!spec_is_blank(chunk.text@) ==> {
                &&& merged
                &&& final(self).current_recording matches Some(rec1)
                &&& (final(self).current_recording matches Some(rec1) ==> {
                    &&& rec1.current_text@ == spec_merged_text(rec0.current_text@, chunk.text@)
                    &&& rec1.duration_ms == if chunk.end_time_ms > rec0.duration_ms {
                        chunk.end_time_ms
                    } else {
                        rec0.duration_ms
                    }
                    &&& rec1.is_recording == rec0.is_recording
                    &&& rec1.audio_level_milli == rec0.audio_level_milli
                    &&& rec1.transcription_id == rec0.transcription_id
                })
            }),
            // The merged duration never decreases, whatever arrives.
            old(self).current_recording matches Some(rec0) ==> (final(self).current_recording
                matches Some(rec1) ==> rec1.duration_ms >= rec0.duration_ms),
            final(self).transcriptions == old(self).transcriptions,
            final(self).gemini_api_key == old(self).gemini_api_key,
            final(self).selected_model == old(self).selected_model,
            old(self).wf() ==> final(self).wf(),
    {
        let mut cur: Option<RecordingState> = None;
        core::mem::swap(&mut self.current_recording, &mut cur);
        match cur {
            None => false,
            Some(rec) => {
                if is_blank(chunk.text.as_str()) {
                    self.current_recording = Some(rec);
                    false
                } else {
                    let text = if rec.current_text.as_str().is_empty() {
                        String::from_str(chunk.text.as_str())
                    } else {
                        rec.current_text.concat(" ").concat(chunk.text.as_str())
                    };
                    let duration_ms = if chunk.end_time_ms > rec.duration_ms {
                        chunk.end_time_ms
                    } else {
                        rec.duration_ms
                    };
                    self.current_recording = Some(
                        RecordingState {
                            is_recording: rec.is_recording,
                            current_text: text,
                            duration_ms,
                            audio_level_milli: rec.audio_level_milli,
                            transcription_id: rec.transcription_id,
                        },
                    );
                    true
                }
            },
        }
    }

    /// Ends the live session and freezes it into a completed
    /// transcript: the accumulated text, the merged duration in whole
    /// seconds, no chapters yet, and the session's transcript id (or a
    /// fresh one if the session carried none). Fails with
    /// `NoActiveSession` when nothing is recording. The caller hands
    /// the result to storage and may index it with
    /// `insert_transcription`.
    pub fn stop_recording(&mut self, created_at: u64) -> (r: Result<Transcription, PipelineError>)
        ensures
            old(self).current_recording is None ==> (r matches Err(e) && e
                == PipelineError::NoActiveSession && *final(self) == *old(self)),
            old(self).current_recording matches Some(rec) ==> (r matches Ok(t) && {
                &&& t.title@ == "New Transcription"@
                &&& t.created_at == created_at
                &&& t.duration == rec.duration_ms / 1000
                &&& t.chapters@.len() == 0
                &&& t.raw_text@ == rec.current_text@
                &&& t.status == TranscriptionStatus::Completed
                &&& match rec.transcription_id {
                    Some(id) => t.id@ == id@,
                    None => t.id@.len() == 36,
                }
                &&& final(self).current_recording is None
            }),
            final(self).transcriptions == old(self).transcriptions,
            final(self).gemini_api_key == old(self).gemini_api_key,
            final(self).selected_model == old(self).selected_model,
            old(self).wf() ==> final(self).wf(),
    {
        let mut cur: Option<RecordingState> = None;
        core::mem::swap(&mut self.current_recording, &mut cur);
        match cur {
            None => Err(PipelineError::NoActiveSession),
            Some(rec) => {
                let id = match rec.transcription_id {
                    Some(id) => id,
                    None => fresh_id(),
                };
                Ok(
                    Transcription {
                        id,
                        title: String::from_str("New Transcription"),
                        created_at,
                        duration: rec.duration_ms / 1000,
                        chapters: Vec::new(),
                        raw_text: rec.current_text,
                        status: TranscriptionStatus::Completed,
                    },
                )
            },
        }
    }

    /// Ends the live session after an unrecoverable capture failure:
    /// like `stop_recording`, but the transcript is frozen with status
    /// `Error(reason)`, so the failure stays visible on the record.
    pub fn fail_recording(&mut self, reason: String, created_at: u64) -> (r: Result<
        Transcription,
        PipelineError,
    >)
        ensures
            old(self).current_recording is None ==> (r matches Err(e) && e
                == PipelineError::NoActiveSession && *final(self) == *old(self)),
            old(self).current_recording matches Some(rec) ==> (r matches Ok(t) && {
                &&& t.title@ == "New Transcription"@
                &&& t.created_at == created_at
                &&& t.duration == rec.duration_ms / 1000
                &&& t.chapters@.len() == 0
                &&& t.raw_text@ == rec.current_text@
                &&& t.status matches TranscriptionStatus::Error(m) && m@ == reason@
                &&& match rec.transcription_id {
                    Some(id) => t.id@ == id@,
                    None => t.id@.len() == 36,
                }
                &&& final(self).current_recording is None
            }),
            final(self).transcriptions == old(self).transcriptions,
            final(self).gemini_api_key == old(self).gemini_api_key,
            final(self).selected_model == old(self).selected_model,
            old(self).wf() ==> final(self).wf(),
    {
        let mut cur: Option<RecordingState> = None;
        core::mem::swap(&mut self.current_recording, &mut cur);
        match cur {
            None => Err(PipelineError::NoActiveSession),
            Some(rec) => {
                let id = match rec.transcription_id {
                    Some(id) => id,
                    None => fresh_id(),
                };
                Ok(
                    Transcription {
                        id,
                        title: String::from_str("New Transcription"),
                        created_at,
                        duration: rec.duration_ms / 1000,
                        chapters: Vec::new(),
                        raw_text: rec.current_text,
                        status: TranscriptionStatus::Error(reason),
                    },
                )
            },
        }
    }

    /// Files a transcript under its id, replacing any entry already
    /// keyed by it.
    #[verifier::loop_isolation(false)]
    pub fn insert_transcription(&mut self, t: Transcription)
        requires
            old(self).wf(),
        ensures
            final(self).wf(),
            ({
                let entries = old(self).transcriptions@;
                let k = find_key(entries, t.id@);
                if k < entries.len() {
                    final(self).transcriptions@ == entries.update(k, (entries[k].0, t))
                } else {
                    &&& final(self).transcriptions@.len() == entries.len() + 1
                    &&& final(self).transcriptions@.take(entries.len() as int) == entries
                    &&& final(self).transcriptions@.last().0@ == t.id@
                    &&& final(self).transcriptions@.last().1 == t
                }
            }),
            final(self).current_recording == old(self).current_recording,
            final(self).gemini_api_key == old(self).gemini_api_key,
            final(self).selected_model == old(self).selected_model,
    {
        let n = self.transcriptions.len();
        let mut i: usize = 0;
        while i < n
            invariant
                i <= n,
                *self == *old(self),
                n == self.transcriptions@.len(),
                forall|k: int|
                    0 <= k < i ==> (#[trigger] self.transcriptions@[k]).0@ != t.id@,
            decreases n - i,
        {
            if self.transcriptions[i].0.eq(&t.id) {
                proof {
                    lemma_find_key(self.transcriptions@, t.id@, i as int);
                }
                let ghost entries0 = self.transcriptions@;
                let key = self.transcriptions[i].0.clone();
                self.transcriptions.set(i, (key, t));
                proof {
                    assert(self.transcriptions@ =~= entries0.update(
                        i as int,
                        (entries0[i as int].0, self.transcriptions@[i as int].1),
                    ));
                    assert forall|a: int|
                        0 <= a < self.transcriptions@.len() implies (
                    #[trigger] self.transcriptions@[a]).0@ == entries0[a].0@ by {
                        if a != i {
                            assert(self.transcriptions@[a] == entries0[a]);
                        }
                    }
                }
                return ;
            }
            i = i + 1;
        }
        proof {
            lemma_find_key(self.transcriptions@, t.id@, n as int);
        }
        let ghost tid = t.id@;
        let key = t.id.clone();
        let ghost entries0 = self.transcriptions@;
        self.transcriptions.push((key, t));
        proof {
            assert(self.transcriptions@.take(entries0.len() as int) =~= entries0);
            assert(self.transcriptions@.last().0@ == tid);
            assert(entries0 == old(self).transcriptions@);
            assert forall|a: int, b: int|
                0 <= a < b < self.transcriptions@.len() && old(self).wf() implies (
            #[trigger] self.transcriptions@[a]).0@ != (#[trigger] self.transcriptions@[b]).0@ by {
                if b == entries0.len() {
                    assert(self.transcriptions@[a] == entries0[a]);
                    assert(entries0[a].0@ != tid);
                } else {
                    assert(self.transcriptions@[a] == entries0[a]);
                    assert(self.transcriptions@[b] == entries0[b]);
                    assert((old(self).transcriptions@[a]).0@ != (old(self).transcriptions@[b]).0@);
                }
            }
        }
    }

    /// The transcript filed under `id`, if any.
    #[verifier::loop_isolation(false)]
    pub fn get_transcription(&self, id: &str) -> (r: Option<&Transcription>)
        ensures
            ({
                let entries = self.transcriptions@;
                let k = find_key(entries, id@);
                if k < entries.len() {
                    r matches Some(t) && *t == entries[k].1
                } else {
                    r is None
                }
            }),
    {
        let n = self.transcriptions.len();
        let mut i: usize = 0;
        while i < n
            invariant
                i <= n,
                n == self.transcriptions@.len(),
                forall|k: int| 0 <= k < i ==> (#[trigger] self.transcriptions@[k]).0@ != id@,
            decreases n - i,
        {
            if self.transcriptions[i].0.as_str().eq(id) {
                proof {
                    lemma_find_key(self.transcriptions@, id@, i as int);
                }
                return Some(&self.transcriptions[i].1);
            }
            i = i + 1;
        }
        proof {
            lemma_find_key(self.transcriptions@, id@, n as int);
        }
        None
    }

    /// Drops the transcript filed under `id`; says whether one was
    /// there.
    #[verifier::loop_isolation(false)]
    pub fn remove_transcription(&mut self, id: &str) -> (removed: bool)
        requires
            old(self).wf(),
        ensures
            final(self).wf(),
            ({
                let entries = old(self).transcriptions@;
                let k = find_key(entries, id@);
                if k < entries.len() {
                    removed && final(self).transcriptions@ == entries.remove(k)
                } else {
                    !removed && final(self).transcriptions@ == entries
                }
            }),
            final(self).current_recording == old(self).current_recording,
            final(self).gemini_api_key == old(self).gemini_api_key,
            final(self).selected_model == old(self).selected_model,
    {
        let n = self.transcriptions.len();
        let mut i: usize = 0;
        while i < n
            invariant
                i <= n,
                *self == *old(self),
                n == self.transcriptions@.len(),
                forall|k: int| 0 <= k < i ==> (#[trigger] self.transcriptions@[k]).0@ != id@,
            decreases n - i,
        {
            if self.transcriptions[i].0.as_str().eq(id) {
                proof {
                    lemma_find_key(self.transcriptions@, id@, i as int);
                }
                let ghost entries0 = self.transcriptions@;
                self.transcriptions.remove(i);
                proof {
                    entries0.remove_ensures(i as int);
                    assert(entries0 == old(self).transcriptions@);
                    assert forall|a: int, b: int|
                        0 <= a < b < self.transcriptions@.len() && old(self).wf() implies (
                    #[trigger] self.transcriptions@[a]).0@ != (
                    #[trigger] self.transcriptions@[b]).0@ by {
                        let a0: int = if a < i {
                            a
                        } else {
                            a + 1
                        };
                        let b0: int = if b < i {
                            b
                        } else {
                            b + 1
                        };
                        assert(self.transcriptions@[a] == entries0[a0]);
                        assert(self.transcriptions@[b] == entries0[b0]);
                        assert((old(self).transcriptions@[a0]).0@ != (old(
                            self,
                        ).transcriptions@[b0]).0@);
                    }
                }
                return true;
            }
            i = i + 1;
        }
        proof {
            lemma_find_key(self.transcriptions@, id@, n as int);
        }
        false
    }

    /// How many transcripts are filed.
    pub fn transcription_count(&self) -> (n: usize)
        ensures
            n == self.transcriptions@.len(),
    {
        self.transcriptions.len()
    }

    /// The transcript filed at position `i`, for listing.
    pub fn transcription_at(&self, i: usize) -> (r: &Transcription)
        requires
            i < self.transcriptions@.len(),
        ensures
            *r == self.transcriptions@[i as int].1,
    {
        &self.transcriptions[i].1
    }

    /// Stores the service key.
    pub fn set_api_key(&mut self, api_key: String)
        ensures
            final(self).gemini_api_key matches Some(k) && k@ == api_key@,
            final(self).transcriptions == old(self).transcriptions,
            final(self).current_recording == old(self).current_recording,
            final(self).selected_model == old(self).selected_model,
            old(self).wf() ==> final(self).wf(),
    {
        self.gemini_api_key = Some(api_key);
    }

    /// Selects the remote model preset.
    pub fn set_selected_model(&mut self, model: String)
        ensures
            final(self).selected_model@ == model@,
            final(self).transcriptions == old(self).transcriptions,
            final(self).current_recording == old(self).current_recording,
            final(self).gemini_api_key == old(self).gemini_api_key,
            old(self).wf() ==> final(self).wf(),
    {
        self.selected_model = model;
    }

    /// The selected remote model preset.
    pub fn get_selected_model(&self) -> (r: &String)
        ensures
            r@ == self.selected_model@,
    {
        &self.selected_model
    }

    /// The live session, for on-demand queries.
    pub fn get_recording_state(&self) -> (r: &Option<RecordingState>)
        ensures
            *r == self.current_recording,
    {
        &self.current_recording
    }
}

impl Default for AppState {
    /// An empty state with the default model preset selected.
    fn default() -> (r: Self)
        ensures
            r.wf(),
            r.transcriptions@.len() == 0,
            r.current_recording is None,
            r.gemini_api_key is None,
            r.selected_model@ == "gemini-2.5-flash"@,
    {
        AppState {
            transcriptions: Vec::new(),
            current_recording: None,
            gemini_api_key: None,
            selected_model: String::from_str("gemini-2.5-flash"),
        }
    }
}

} // verus!
