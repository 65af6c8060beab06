//! Capture-side session state. The hardware callback itself lives with
//! the caller; this type carries what the pipeline reads of it: the
//! device's sample rate and the stop flag the producing task checks
//! before emitting each chunk.

use vstd::prelude::*;

verus! {

/// Builds fixed-size chunks out of the capture callback's sample
/// bursts: samples accumulate in arrival order, and every time the
/// buffer reaches the chunk size it leaves as one chunk.
#[derive(Debug)]
pub struct Chunker {
    buf: Vec<i32>,
    chunk_size: usize,
}

impl Chunker {
    pub closed spec fn spec_buf(&self) -> Seq<i32> {
        self.buf@
    }

    pub closed spec fn spec_chunk_size(&self) -> int {
        self.chunk_size as int
    }

    pub open spec fn wf(&self) -> bool {
        &&& self.spec_chunk_size() >= 1
        &&& self.spec_buf().len() < self.spec_chunk_size()
    }

    /// An empty chunker emitting chunks of `chunk_size` samples.
    pub fn new(chunk_size: usize) -> (r: Self)
        requires
            chunk_size >= 1,
        ensures
            r.wf(),
            r.spec_buf() == Seq::<i32>::empty(),
            r.spec_chunk_size() == chunk_size,
    {
        let r = Chunker { buf: Vec::new(), chunk_size };
        proof {
            assert(r.buf@ =~= Seq::<i32>::empty());
        }
        r
    }

    /// Takes one sample; hands back a full chunk exactly when this
    /// sample completes one.
    pub fn push_sample(&mut self, sample: i32) -> (r: Option<Vec<i32>>)
        requires
            old(self).wf(),
        ensures
            final(self).wf(),
            final(self).spec_chunk_size() == old(self).spec_chunk_size(),
            if old(self).spec_buf().len() + 1 == old(self).spec_chunk_size() {
                &&& r matches Some(chunk)
                &&& (r matches Some(chunk) ==> chunk@ == old(self).spec_buf().push(sample))
                &&& final(self).spec_buf() == Seq::<i32>::empty()
            } else {
                &&& r is None
                &&& final(self).spec_buf() == old(self).spec_buf().push(sample)
            },
    {
        self.buf.push(sample);
        if self.buf.len() == self.chunk_size {
            let mut full: Vec<i32> = Vec::new();
            core::mem::swap(&mut self.buf, &mut full);
            proof {
                assert(self.buf@ =~= Seq::<i32>::empty());
            }
            Some(full)
        } else {
            None
        }
    }
}

/// The capture device as the pipeline sees it.
#[derive(Debug, Clone, PartialEq, Eq)]
pub struct AudioCapture {
    is_recording: bool,
    sample_rate: u32,
}

impl AudioCapture {
    pub closed spec fn spec_is_recording(&self) -> bool {
        self.is_recording
    }

    pub closed spec fn spec_sample_rate(&self) -> u32 {
        self.sample_rate
    }

    /// Wraps a probed capture device of the given native sample rate,
    /// not yet recording. (Probing the device, which can fail with
    /// `DeviceUnavailable`, is the caller's side of the boundary.)
    pub fn new(sample_rate: u32) -> (r: Self)
        requires
            sample_rate >= 1,
        ensures
            !r.spec_is_recording(),
            r.spec_sample_rate() == sample_rate,
    {
        AudioCapture { is_recording: false, sample_rate }
    }

    /// Raises the capture flag: the producing task emits one chunk per
    /// interval while it stays up.
    pub fn begin_recording(&mut self)
        ensures
            final(self).spec_is_recording(),
            final(self).spec_sample_rate() == old(self).spec_sample_rate(),
    {
        self.is_recording = true;
    }

    /// Lowers the capture flag; the producing task ends its stream
    /// after the chunk it is on. Never fails.
    pub fn stop_recording(&mut self) -> (r: Result<(), ()>)
        ensures
            r is Ok,
            !final(self).spec_is_recording(),
            final(self).spec_sample_rate() == old(self).spec_sample_rate(),
    {
        self.is_recording = false;
        Ok(())
    }

    /// Whether the capture flag is up.
    pub fn is_recording(&self) -> (r: bool)
        ensures
            r == self.spec_is_recording(),
    {
        self.is_recording
    }

    /// The capture level shown to the user, in thousandths of full
    /// scale — a fixed placeholder, as the device layer reports none.
    pub fn get_audio_level(&self) -> (r: u32)
        ensures
            r == 500,
    {
        500
    }
}

} // verus!
