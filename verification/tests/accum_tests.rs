use trascrivi::accum::{AudioChunk, ChunkAccumulator};
use trascrivi::audio::Chunker;

fn chunk(n_samples: usize, rate: u32, ts_ms: u64) -> AudioChunk {
    AudioChunk { data: vec![0i32; n_samples], sample_rate: rate, timestamp_ms: ts_ms }
}

#[test]
fn three_chunks_of_100ms_against_200ms_interval_flush_once() {
    // 100 ms at 44100 Hz is 4410 samples. With a 200 ms interval the
    // second chunk reaches the boundary (>=), flushes the whole buffer,
    // and the third chunk stays pending.
    let mut acc = ChunkAccumulator::new(200);
    assert!(acc.push_chunk(&chunk(4410, 44100, 0)).is_none());
    let unit = acc.push_chunk(&chunk(4410, 44100, 100)).expect("second chunk must flush");
    assert_eq!(unit.samples.len(), 8820);
    assert_eq!(unit.window_start_ms, 0);
    assert_eq!(unit.sample_rate, 44100);
    assert!(acc.push_chunk(&chunk(4410, 44100, 200)).is_none());
}

#[test]
fn six_uniform_chunks_give_floor_total_over_interval_units() {
    // 6 chunks x 100 ms against 200 ms: floor(600 / 200) = 3 units.
    let mut acc = ChunkAccumulator::new(200);
    let mut units: usize = 0;
    for i in 0..6u64 {
        if acc.push_chunk(&chunk(4410, 44100, i * 100)).is_some() {
            units += 1;
        }
    }
    assert_eq!(units, 3);
}

#[test]
fn flush_units_are_contiguous_and_nothing_is_lost() {
    let mut acc = ChunkAccumulator::new(200);
    let mk = |v: i32, ts: u64| AudioChunk {
        data: vec![v; 4410],
        sample_rate: 44100,
        timestamp_ms: ts,
    };
    assert!(acc.push_chunk(&mk(1, 0)).is_none());
    let unit = acc.push_chunk(&mk(2, 100)).unwrap();
    assert_eq!(&unit.samples[..4410], &vec![1i32; 4410][..]);
    assert_eq!(&unit.samples[4410..], &vec![2i32; 4410][..]);
}

#[test]
fn empty_buffer_never_flushes() {
    // A chunk of zero duration leaves nothing to flush even when the
    // interval is minimal.
    let mut acc = ChunkAccumulator::new(1);
    assert!(acc.push_chunk(&chunk(0, 44100, 0)).is_none());
}

#[test]
fn chunker_emits_fixed_size_chunks_in_order() {
    let mut chunker = Chunker::new(4);
    let mut chunks: Vec<Vec<i32>> = Vec::new();
    for s in 0..10i32 {
        if let Some(c) = chunker.push_sample(s) {
            chunks.push(c);
        }
    }
    assert_eq!(chunks, vec![vec![0, 1, 2, 3], vec![4, 5, 6, 7]]);
}

#[test]
fn window_start_is_first_unflushed_chunk_timestamp() {
    let mut acc = ChunkAccumulator::new(200);
    assert!(acc.push_chunk(&chunk(4410, 44100, 700)).is_none());
    let unit = acc.push_chunk(&chunk(4410, 44100, 800)).unwrap();
    assert_eq!(unit.window_start_ms, 700);
    // After a flush the next chunk starts a new window.
    assert!(acc.push_chunk(&chunk(4410, 44100, 900)).is_none());
    let unit2 = acc.push_chunk(&chunk(4410, 44100, 1000)).unwrap();
    assert_eq!(unit2.window_start_ms, 900);
}
