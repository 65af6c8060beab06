use trascrivi::codec::{amp_of_pcm, convert_to_wav, encode, pcm_of_amp};

#[test]
fn pcm_of_half_scale_rounds() {
    // 0.5 * 32767 = 16383.5 rounds away from zero to 16384.
    assert_eq!(pcm_of_amp(500000), 16384);
    assert_eq!(pcm_of_amp(-500000), -16384);
}

#[test]
fn pcm_of_full_scale() {
    assert_eq!(pcm_of_amp(1000000), 32767);
    assert_eq!(pcm_of_amp(-1000000), -32767);
}

#[test]
fn pcm_clamps_out_of_range() {
    assert_eq!(pcm_of_amp(2000000), 32767);
    assert_eq!(pcm_of_amp(-2000000), -32768);
}

#[test]
fn amp_round_trip_within_one_lsb() {
    // Re-encoding the decoded sample reproduces the PCM code exactly,
    // well within the 1-LSB tolerance.
    let samples: [i32; 7] = [0, 1, -1, 500000, -500000, 1000000, -999999];
    for &a in samples.iter() {
        let p = pcm_of_amp(a);
        let a2 = amp_of_pcm(p);
        let p2 = pcm_of_amp(a2);
        assert!((p2 as i32 - p as i32).abs() <= 1);
        assert_eq!(p2, p);
    }
}

#[test]
fn wav_header_fields() {
    let samples: Vec<i32> = vec![0, 1000000, -1000000];
    let wav = convert_to_wav(&samples, 44100);
    assert_eq!(wav.len(), 44 + 2 * samples.len());
    assert_eq!(&wav[0..4], b"RIFF");
    assert_eq!(&wav[8..12], b"WAVE");
    assert_eq!(&wav[12..16], b"fmt ");
    // Sample rate, little endian, at offset 24.
    assert_eq!(&wav[24..28], &44100u32.to_le_bytes());
    // Byte rate = rate * 2 at offset 28.
    assert_eq!(&wav[28..32], &88200u32.to_le_bytes());
    // Block align 2, bits per sample 16.
    assert_eq!(&wav[32..34], &2u16.to_le_bytes());
    assert_eq!(&wav[34..36], &16u16.to_le_bytes());
    assert_eq!(&wav[36..40], b"data");
    assert_eq!(&wav[40..44], &6u32.to_le_bytes());
    // Data: 0, then 32767 (0xFF 0x7F), then -32767 (0x01 0x80).
    assert_eq!(&wav[44..46], &[0u8, 0u8]);
    assert_eq!(&wav[46..48], &[0xFFu8, 0x7Fu8]);
    assert_eq!(&wav[48..50], &[0x01u8, 0x80u8]);
}

#[test]
fn base64_known_vectors() {
    assert_eq!(encode(b"Man"), "TWFu");
    assert_eq!(encode(b"Ma"), "TWE=");
    assert_eq!(encode(b"M"), "TQ==");
    assert_eq!(encode(b""), "");
    assert_eq!(encode(b"Many hands make light work."), "TWFueSBoYW5kcyBtYWtlIGxpZ2h0IHdvcmsu");
}
