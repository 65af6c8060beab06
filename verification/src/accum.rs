//! The chunk accumulator: collects fixed-duration PCM chunks into a
//! rolling buffer and hands the buffer on as one flush unit once its
//! covered duration reaches the flush interval.
//!
//! The boundary rule is `>=`: the buffer flushes as soon as its covered
//! duration reaches the interval, and the whole buffer (which may cover
//! more than one interval) leaves as a single unit.

use vstd::arithmetic::div_mod::{
    lemma_fundamental_div_mod, lemma_fundamental_div_mod_converse, lemma_mod_bound,
    lemma_mod_multiples_basic,
};
use vstd::prelude::*;

verus! {

/// One fixed-duration slice of captured audio: amplitudes in millionths
/// of full scale, the device's sample rate, and the time at which the
/// slice started, in milliseconds since the start of the recording.
#[derive(Debug, Clone, PartialEq, Eq)]
pub struct AudioChunk {
    pub data: Vec<i32>,
    pub sample_rate: u32,
    pub timestamp_ms: u64,
}

impl AudioChunk {
    /// A chunk the accumulator can take: a real sample rate, and few
    /// enough samples that its duration arithmetic stays in `u64`.
    pub open spec fn wf(&self) -> bool {
        &&& self.sample_rate >= 1
        &&& self.data@.len() * 1000 <= u64::MAX
    }

    /// The duration the chunk covers, in whole milliseconds.
    pub open spec fn spec_duration_ms(&self) -> int {
        (self.data@.len() as int) * 1000 / (self.sample_rate as int)
    }

    /// The duration the chunk covers, in whole milliseconds.
    pub fn duration_ms(&self) -> (d: u64)
        requires
            self.wf(),
        ensures
            d == self.spec_duration_ms(),
    {
        (self.data.len() as u64 * 1000) / (self.sample_rate as u64)
    }
}

/// The accumulated audio handed to the dispatcher as one request.
#[derive(Debug, Clone, PartialEq, Eq)]
pub struct FlushUnit {
    pub samples: Vec<i32>,
    pub sample_rate: u32,
    /// Timestamp of the first sample of the unit, in milliseconds.
    pub window_start_ms: u64,
}

/// The rolling buffer between the audio source and the dispatcher.
#[derive(Debug)]
pub struct ChunkAccumulator {
    samples: Vec<i32>,
    covered_ms: u64,
    window_start_ms: u64,
    flush_interval_ms: u64,
}

impl ChunkAccumulator {
    /// Buffer state the methods keep: a positive interval, and covered
    /// time only when samples are actually buffered.
    pub closed spec fn wf(&self) -> bool {
        &&& self.flush_interval_ms >= 1
        &&& self.covered_ms > 0 ==> self.samples@.len() > 0
    }

    pub closed spec fn spec_samples(&self) -> Seq<i32> {
        self.samples@
    }

    pub closed spec fn spec_covered_ms(&self) -> int {
        self.covered_ms as int
    }

    pub closed spec fn spec_window_start_ms(&self) -> int {
        self.window_start_ms as int
    }

    pub closed spec fn spec_flush_interval_ms(&self) -> int {
        self.flush_interval_ms as int
    }

    /// A fresh, empty accumulator.
    pub fn new(flush_interval_ms: u64) -> (r: Self)
        requires
            flush_interval_ms >= 1,
        ensures
            r.wf(),
            r.spec_samples() == Seq::<i32>::empty(),
            r.spec_covered_ms() == 0,
            r.spec_flush_interval_ms() == flush_interval_ms,
    {
        let r = ChunkAccumulator {
            samples: Vec::new(),
            covered_ms: 0,
            window_start_ms: 0,
            flush_interval_ms,
        };
        proof {
            assert(r.samples@ =~= Seq::<i32>::empty());
        }
        r
    }

    /// Appends one chunk; if the covered duration now reaches the flush
    /// interval (and the buffer is non-empty), the whole buffer leaves
    /// as one flush unit and the accumulator resets.
    ///
    /// Every sample of every chunk ends up in exactly one flush unit,
    /// in arrival order: the unit is the old buffer followed by the new
    /// chunk, and the buffer restarts empty.
    #[verifier::loop_isolation(false)]
    pub fn push_chunk(&mut self, chunk: &AudioChunk) -> (r: Option<FlushUnit>)
        requires
            old(self).wf(),
            chunk.wf(),
            old(self).spec_covered_ms() + chunk.spec_duration_ms() <= u64::MAX,
            old(self).spec_samples().len() + chunk.data@.len() <= usize::MAX,
        ensures
            final(self).wf(),
            final(self).spec_flush_interval_ms() == old(self).spec_flush_interval_ms(),
            ({
                let combined = old(self).spec_samples() + chunk.data@;
                let covered = old(self).spec_covered_ms() + chunk.spec_duration_ms();
                let ws = if old(self).spec_samples().len() == 0 {
                    chunk.timestamp_ms as int
                } else {
                    old(self).spec_window_start_ms()
                };
                if covered >= old(self).spec_flush_interval_ms() && combined.len() > 0 {
                    &&& r matches Some(unit)
                    &&& unit.samples@ == combined
                    &&& unit.samples@.len() > 0
                    &&& unit.sample_rate == chunk.sample_rate
                    &&& unit.window_start_ms == ws
                    &&& final(self).spec_samples() == Seq::<i32>::empty()
                    &&& final(self).spec_covered_ms() == 0
                } else {
                    &&& r is None
                    &&& final(self).spec_samples() == combined
                    &&& final(self).spec_covered_ms() == covered
                    &&& final(self).spec_window_start_ms() == ws
                }
            }),
    {
        let was_empty = self.samples.len() == 0;
        let ghost combined = self.samples@ + chunk.data@;
        let mut j: usize = 0;
        while j < chunk.data.len()
            invariant
                j <= chunk.data@.len(),
                self.samples@ == old(self).samples@ + chunk.data@.take(j as int),
                self.covered_ms == old(self).covered_ms,
                self.window_start_ms == old(self).window_start_ms,
                self.flush_interval_ms == old(self).flush_interval_ms,
            decreases chunk.data@.len() - j,
        {
            self.samples.push(chunk.data[j]);
            proof {
                assert(chunk.data@.take(j + 1).drop_last() =~= chunk.data@.take(j as int));
                assert(self.samples@ =~= old(self).samples@ + chunk.data@.take(j + 1));
            }
            j = j + 1;
        }
        proof {
            assert(chunk.data@.take(chunk.data@.len() as int) =~= chunk.data@);
        }
        if was_empty {
            self.window_start_ms = chunk.timestamp_ms;
        }

        let dur = chunk.duration_ms();
        let covered = self.covered_ms + dur;
        if covered >= self.flush_interval_ms && self.samples.len() > 0 {
            self.covered_ms = 0;
            let mut flushed: Vec<i32> = Vec::new();
            core::mem::swap(&mut self.samples, &mut flushed);
            proof {
                assert(self.samples@ =~= Seq::<i32>::empty());
            }
            Some(
                FlushUnit {
                    samples: flushed,
                    sample_rate: chunk.sample_rate,
                    window_start_ms: self.window_start_ms,
                },
            )
        } else {
            self.covered_ms = covered;
            None
        }
    }
}

/// Covered duration still pending after feeding chunk durations `durs`
/// into an accumulator with flush interval `itv` (the duration model of
/// `push_chunk`: the pending time resets whenever it reaches `itv`).
pub open spec fn acc_covered(durs: Seq<int>, itv: int) -> int
    decreases durs.len(),
{
    if durs.len() == 0 {
        0
    } else {
        let c = acc_covered(durs.drop_last(), itv) + durs.last();
        if c >= itv {
            0
        } else {
            c
        }
    }
}

/// Number of flush units emitted while feeding chunk durations `durs`.
pub open spec fn acc_flushes(durs: Seq<int>, itv: int) -> int
    decreases durs.len(),
{
    if durs.len() == 0 {
        0
    } else {
        acc_flushes(durs.drop_last(), itv) + if acc_covered(durs.drop_last(), itv) + durs.last()
            >= itv {
            1int
        } else {
            0int
        }
    }
}

/// The accumulator's whole state in the duration-and-samples model:
/// the pending buffer, its covered duration, and every flush unit
/// emitted so far, in order.
pub struct AccModel {
    pub buf: Seq<i32>,
    pub covered: int,
    pub out: Seq<Seq<i32>>,
}

/// One `push_chunk` in the model: append, then flush the whole buffer
/// once the covered duration reaches the interval.
pub open spec fn acc_step(m: AccModel, samples: Seq<i32>, dur: int, itv: int) -> AccModel {
    let buf = m.buf + samples;
    let covered = m.covered + dur;
    if covered >= itv && buf.len() > 0 {
        AccModel { buf: Seq::empty(), covered: 0, out: m.out.push(buf) }
    } else {
        AccModel { buf, covered, out: m.out }
    }
}

/// Feeding a whole sequence of chunks (samples paired with duration)
/// into a fresh accumulator.
pub open spec fn acc_run(chunks: Seq<(Seq<i32>, int)>, itv: int) -> AccModel
    decreases chunks.len(),
{
    if chunks.len() == 0 {
        AccModel { buf: Seq::empty(), covered: 0, out: Seq::empty() }
    } else {
        acc_step(acc_run(chunks.drop_last(), itv), chunks.last().0, chunks.last().1, itv)
    }
}

pub open spec fn concat_all(xs: Seq<Seq<i32>>) -> Seq<i32>
    decreases xs.len(),
{
    if xs.len() == 0 {
        Seq::empty()
    } else {
        concat_all(xs.drop_last()) + xs.last()
    }
}

/// No sample is lost and none is duplicated: after any sequence of
/// chunks, the flush units in emission order followed by the pending
/// buffer spell out exactly the chunks' samples in arrival order — so
/// each unit covers a contiguous span and the spans do not overlap.
pub proof fn lemma_acc_conservation(chunks: Seq<(Seq<i32>, int)>, itv: int)
    ensures
        concat_all(acc_run(chunks, itv).out) + acc_run(chunks, itv).buf == concat_all(
            chunks.map_values(|c: (Seq<i32>, int)| c.0),
        ),
    decreases chunks.len(),
{
    let samples = chunks.map_values(|c: (Seq<i32>, int)| c.0);
    if chunks.len() == 0 {
        assert(concat_all(acc_run(chunks, itv).out) + acc_run(chunks, itv).buf =~= concat_all(
            samples,
        ));
    } else {
        lemma_acc_conservation(chunks.drop_last(), itv);
        let prev = acc_run(chunks.drop_last(), itv);
        let last = chunks.last().0;
        assert(chunks.drop_last().map_values(|c: (Seq<i32>, int)| c.0) =~= samples.drop_last());
        assert(concat_all(samples) == concat_all(samples.drop_last()) + last);
        let m = acc_run(chunks, itv);
        if m.out == prev.out {
            assert(concat_all(m.out) + m.buf =~= (concat_all(prev.out) + prev.buf) + last);
        } else {
            assert(m.out == prev.out.push(prev.buf + last));
            assert(m.out.drop_last() =~= prev.out);
            assert(concat_all(m.out) == concat_all(prev.out) + (prev.buf + last));
            assert(concat_all(m.out) + m.buf =~= (concat_all(prev.out) + prev.buf) + last);
        }
    }
}

/// Feeding `n` chunks of equal duration `d`, where `d` divides the
/// flush interval, emits exactly `floor(total / interval)` flush units
/// and leaves `total % interval` of audio pending.
pub proof fn lemma_uniform_flush_count(d: int, n: nat, itv: int)
    requires
        d >= 1,
        itv >= 1,
        itv % d == 0,
    ensures
        acc_flushes(Seq::new(n, |k: int| d), itv) == (n * d) / itv,
        acc_covered(Seq::new(n, |k: int| d), itv) == (n * d) % itv,
    decreases n,
{
    let s = Seq::new(n, |k: int| d);
    if n == 0 {
        assert(s.len() == 0);
        assert(n * d == 0) by (nonlinear_arith)
            requires
                n == 0,
        ;
        assert(n * d == 0 * itv + 0);
        lemma_fundamental_div_mod_converse(n * d, itv, 0, 0);
    } else {
        let prev = Seq::new((n - 1) as nat, |k: int| d);
        assert(s.drop_last() =~= prev);
        lemma_uniform_flush_count(d, (n - 1) as nat, itv);
        let total_prev = (n - 1) * d;
        let m = total_prev % itv;
        let q = total_prev / itv;
        lemma_fundamental_div_mod(total_prev, itv);
        lemma_mod_bound(total_prev, itv);

        // `d` divides both the interval and the pending time, so the
        // pending time never lands strictly between `itv - d` and `itv`.
        assert(m % d == 0) by {
            lemma_fundamental_div_mod(itv, d);
            assert(itv == d * (itv / d));
            assert(total_prev == itv * q + m);
            assert(m == ((n - 1) - (itv / d) * q) * d) by (nonlinear_arith)
                requires
                    total_prev == (n - 1) * d,
                    itv == d * (itv / d),
                    total_prev == itv * q + m,
            ;
            lemma_mod_multiples_basic((n - 1) - (itv / d) * q, d);
        }
        assert(m + d <= itv) by {
            if m + d > itv {
                let j = m / d;
                lemma_fundamental_div_mod(m, d);
                lemma_fundamental_div_mod(itv, d);
                assert(m == d * j);
                assert(d * j < d * (itv / d) && d * j > d * (itv / d) - d);
                assert(false) by (nonlinear_arith)
                    requires
                        d >= 1,
                        d * j < d * (itv / d),
                        d * j > d * (itv / d) - d,
                ;
            }
        }

        let total = n * d;
        assert(n * d == (n - 1) * d + d) by (nonlinear_arith);
        assert(total == total_prev + d);
        if m + d == itv {
            assert(total == (q + 1) * itv + 0) by (nonlinear_arith)
                requires
                    total == total_prev + d,
                    total_prev == itv * q + m,
                    m + d == itv,
            ;
            lemma_fundamental_div_mod_converse(total, itv, q + 1, 0);
        } else {
            assert(total == q * itv + (m + d)) by (nonlinear_arith)
                requires
                    total == total_prev + d,
                    total_prev == itv * q + m,
            ;
            lemma_fundamental_div_mod_converse(total, itv, q, m + d);
        }
    }
}

} // verus!
