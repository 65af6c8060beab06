//! Audio payload encoding: fixed-point amplitude to 16-bit PCM, the
//! WAV container around a flushed buffer, and base64 of the container.
//!
//! An amplitude is an `i32` in millionths of full scale: `-1_000_000`
//! stands for -1.0 and `1_000_000` for 1.0.

use crate::text::push_char;
use vstd::arithmetic::div_mod::{lemma_fundamental_div_mod, lemma_mod_bound};
use vstd::prelude::*;

verus! {

/// Millionths of full scale standing for -1.0: the lowest amplitude
/// the pipeline considers in range.
pub const AMP_MIN: i32 = -1000000;

/// Millionths of full scale standing for 1.0.
pub const AMP_MAX: i32 = 1000000;

/// Division rounding half away from zero (`q` positive).
pub open spec fn rnd_div(x: int, q: int) -> int {
    if x >= 0 {
        (x + q / 2) / q
    } else {
        -(((-x) + q / 2) / q)
    }
}

pub open spec fn clamp_int(x: int, lo: int, hi: int) -> int {
    if x < lo {
        lo
    } else if x > hi {
        hi
    } else {
        x
    }
}

/// The 16-bit PCM sample of an amplitude in millionths of full scale:
/// `round(a * 32767 / 1_000_000)`, clamped to the signed 16-bit range.
pub open spec fn spec_pcm_of_amp(a: int) -> int {
    clamp_int(rnd_div(a * 32767, 1000000), -32768, 32767)
}

/// The amplitude in millionths of full scale read back from a 16-bit
/// PCM sample: `round(p * 1_000_000 / 32767)`.
pub open spec fn spec_amp_of_pcm(p: int) -> int {
    rnd_div(p * 1000000, 32767)
}

/// `rnd_div(x, q) * q` misses `x` by at most `q / 2` either way.
proof fn lemma_rnd_div_err(x: int, q: int)
    requires
        q >= 1,
    ensures
        -(q / 2) <= rnd_div(x, q) * q - x <= q / 2,
{
    let h = q / 2;
    assert(2 * h <= q && q <= 2 * h + 1) by {
        lemma_fundamental_div_mod(q, 2);
        lemma_mod_bound(q, 2);
    }
    if x >= 0 {
        let d = (x + h) / q;
        let m = (x + h) % q;
        lemma_fundamental_div_mod(x + h, q);
        lemma_mod_bound(x + h, q);
        assert(rnd_div(x, q) == d);
        assert(d * q == q * d);
        assert(d * q - x == h - m);
    } else {
        let y = -x;
        let d = (y + h) / q;
        let m = (y + h) % q;
        lemma_fundamental_div_mod(y + h, q);
        lemma_mod_bound(y + h, q);
        assert(rnd_div(x, q) == -d);
        assert(d * q == q * d);
        assert(d * q - y == h - m);
        assert((-d) * q == -(d * q)) by (nonlinear_arith);
        assert((-d) * q - x == -(d * q - y));
    }
}

/// Encodes one amplitude as a 16-bit PCM sample.
pub fn pcm_of_amp(a: i32) -> (p: i16)
    ensures
        p as int == spec_pcm_of_amp(a as int),
{
    if a >= 0 {
        let x: u64 = (a as u64) * 32767;
        let r: u64 = (x + 500000) / 1000000;
        if r > 32767 {
            32767
        } else {
            r as i16
        }
    } else {
        let x: u64 = ((-(a as i64)) as u64) * 32767;
        let r: u64 = (x + 500000) / 1000000;
        if r > 32768 {
            -32768
        } else {
            proof {
                assert((a as int) * 32767 == -((-(a as int)) * 32767));
            }
            (-(r as i64)) as i16
        }
    }
}

/// Decodes one 16-bit PCM sample back to an amplitude in millionths.
pub fn amp_of_pcm(p: i16) -> (a: i32)
    ensures
        a as int == spec_amp_of_pcm(p as int),
{
    if p >= 0 {
        let x: u64 = (p as u64) * 1000000;
        let r: u64 = (x + 16383) / 32767;
        r as i32
    } else {
        let x: u64 = ((-(p as i64)) as u64) * 1000000;
        let r: u64 = (x + 16383) / 32767;
        proof {
            assert((p as int) * 1000000 == -((-(p as int)) * 1000000));
            assert(x <= 32768 * 1000000);
            lemma_rnd_div_err(x as int, 32767);
        }
        (-(r as i64)) as i32
    }
}

/// Amplitude round-trip: re-encoding the decoded value of a PCM sample
/// of an in-range amplitude reproduces that sample exactly — so the
/// error stays within one least significant bit of the 16-bit code.
pub proof fn lemma_pcm_round_trip(a: int)
    requires
        AMP_MIN <= a <= AMP_MAX,
    ensures
        spec_pcm_of_amp(spec_amp_of_pcm(spec_pcm_of_amp(a))) == spec_pcm_of_amp(a),
        -1 <= spec_pcm_of_amp(spec_amp_of_pcm(spec_pcm_of_amp(a))) - spec_pcm_of_amp(a) <= 1,
{
    let r = rnd_div(a * 32767, 1000000);
    lemma_rnd_div_err(a * 32767, 1000000);
    assert(-32767000000 <= a * 32767 <= 32767000000);
    assert(-32767 <= r <= 32767) by {
        if r > 32767 {
            assert(r * 1000000 >= 32768 * 1000000);
        }
        if r < -32767 {
            assert(r * 1000000 <= -32768 * 1000000);
        }
    }
    let p = spec_pcm_of_amp(a);
    assert(p == r);
    let a2 = spec_amp_of_pcm(p);
    lemma_rnd_div_err(p * 1000000, 32767);
    assert(-1000000 <= a2 <= 1000000) by {
        if a2 > 1000000 {
            assert(a2 * 32767 >= 1000001 * 32767);
        }
        if a2 < -1000000 {
            assert(a2 * 32767 <= (-1000001) * 32767);
        }
    }
    let r2 = rnd_div(a2 * 32767, 1000000);
    lemma_rnd_div_err(a2 * 32767, 1000000);
    assert(-32767 <= r2 <= 32767) by {
        if r2 > 32767 {
            assert(r2 * 1000000 >= 32768 * 1000000);
        }
        if r2 < -32767 {
            assert(r2 * 1000000 <= -32768 * 1000000);
        }
    }
    let p2 = spec_pcm_of_amp(a2);
    assert(p2 == r2);
    assert(p2 == p) by {
        assert(-516383 <= p2 * 1000000 - p * 1000000 <= 516383);
        if p2 != p {
            if p2 > p {
                assert(p2 * 1000000 >= (p + 1) * 1000000);
            } else {
                assert(p2 * 1000000 <= (p - 1) * 1000000);
            }
        }
    }
}

/// The two little-endian bytes of a value in `0 .. 2^16`.
pub open spec fn u16_le(x: int) -> Seq<u8> {
    seq![(x % 256) as u8, ((x / 256) % 256) as u8]
}

/// The four little-endian bytes of a value in `0 .. 2^32`.
pub open spec fn u32_le(x: int) -> Seq<u8> {
    seq![
        (x % 256) as u8,
        ((x / 256) % 256) as u8,
        ((x / 65536) % 256) as u8,
        ((x / 16777216) % 256) as u8,
    ]
}

/// The two little-endian bytes of a signed 16-bit PCM sample, in
/// two's complement.
pub open spec fn i16_le(p: int) -> Seq<u8> {
    if p < 0 {
        u16_le(p + 0x10000)
    } else {
        u16_le(p)
    }
}

/// The 44-byte WAV header for `n` mono 16-bit samples at `rate` Hz:
/// PCM format, one channel, byte rate `rate * 2`, block align 2,
/// 16 bits per sample.
pub open spec fn wav_header(n: int, rate: int) -> Seq<u8> {
    seq![0x52u8, 0x49u8, 0x46u8, 0x46u8]  // "RIFF"
     + u32_le(36 + 2 * n) + seq![0x57u8, 0x41u8, 0x56u8, 0x45u8]  // "WAVE"
     + seq![0x66u8, 0x6du8, 0x74u8, 0x20u8]  // "fmt "
     + u32_le(16) + u16_le(1) + u16_le(1) + u32_le(rate) + u32_le(2 * rate) + u16_le(2) + u16_le(
        16,
    ) + seq![0x64u8, 0x61u8, 0x74u8, 0x61u8]  // "data"
     + u32_le(2 * n)
}

/// The PCM data section: each amplitude encoded and laid out as two
/// little-endian bytes, in order.
pub open spec fn wav_data(samples: Seq<i32>) -> Seq<u8>
    decreases samples.len(),
{
    if samples.len() == 0 {
        Seq::empty()
    } else {
        wav_data(samples.drop_last()) + i16_le(spec_pcm_of_amp(samples.last() as int))
    }
}

/// The whole WAV container for a flushed buffer.
pub open spec fn spec_wav(samples: Seq<i32>, rate: int) -> Seq<u8> {
    wav_header(samples.len() as int, rate) + wav_data(samples)
}

fn push_u16_le(out: &mut Vec<u8>, x: u16)
    ensures
        final(out)@ == old(out)@ + u16_le(x as int),
{
    out.push((x % 256) as u8);
    out.push(((x / 256) % 256) as u8);
    proof {
        assert(final(out)@ =~= old(out)@ + u16_le(x as int));
    }
}

fn push_u32_le(out: &mut Vec<u8>, x: u32)
    ensures
        final(out)@ == old(out)@ + u32_le(x as int),
{
    out.push((x % 256) as u8);
    out.push(((x / 256) % 256) as u8);
    out.push(((x / 65536) % 256) as u8);
    out.push(((x / 16777216) % 256) as u8);
    proof {
        assert(final(out)@ =~= old(out)@ + u32_le(x as int));
    }
}

fn push_i16_le(out: &mut Vec<u8>, p: i16)
    ensures
        final(out)@ == old(out)@ + i16_le(p as int),
{
    if p < 0 {
        let w: u32 = (p as i32 + 0x10000) as u32;
        out.push((w % 256) as u8);
        out.push(((w / 256) % 256) as u8);
        proof {
            assert(final(out)@ =~= old(out)@ + i16_le(p as int));
        }
    } else {
        push_u16_le(out, p as u16);
    }
}

#[verifier::rlimit(100)]
fn wav_header_bytes(n: u32, sample_rate: u32) -> (r: Vec<u8>)
    requires
        36 + 2 * (n as int) <= u32::MAX,
        sample_rate <= u32::MAX / 2,
    ensures
        r@ == wav_header(n as int, sample_rate as int),
{
    let mut out: Vec<u8> = Vec::new();
    out.push(0x52);
    out.push(0x49);
    out.push(0x46);
    out.push(0x46);
    push_u32_le(&mut out, 36 + 2 * n);
    out.push(0x57);
    out.push(0x41);
    out.push(0x56);
    out.push(0x45);
    out.push(0x66);
    out.push(0x6d);
    out.push(0x74);
    out.push(0x20);
    push_u32_le(&mut out, 16);
    push_u16_le(&mut out, 1);
    push_u16_le(&mut out, 1);
    push_u32_le(&mut out, sample_rate);
    push_u32_le(&mut out, 2 * sample_rate);
    push_u16_le(&mut out, 2);
    push_u16_le(&mut out, 16);
    out.push(0x64);
    out.push(0x61);
    out.push(0x74);
    out.push(0x61);
    push_u32_le(&mut out, 2 * n);
    proof {
        assert(out@ =~= wav_header(n as int, sample_rate as int));
    }
    out
}

/// Encodes a flushed buffer of amplitudes as a mono 16-bit PCM WAV
/// container at the given sample rate.
#[verifier::loop_isolation(false)]
pub fn convert_to_wav(samples: &Vec<i32>, sample_rate: u32) -> (r: Vec<u8>)
    requires
        36 + 2 * samples@.len() <= u32::MAX,
        sample_rate <= u32::MAX / 2,
    ensures
        r@ == spec_wav(samples@, sample_rate as int),
        r@.len() == 44 + 2 * samples@.len(),
{
    let n: u32 = samples.len() as u32;
    let mut out: Vec<u8> = wav_header_bytes(n, sample_rate);

    let mut i: usize = 0;
    while i < samples.len()
        invariant
            i <= samples@.len(),
            out@ == wav_header(samples@.len() as int, sample_rate as int) + wav_data(
                samples@.take(i as int),
            ),
        decreases samples@.len() - i,
    {
        let p = pcm_of_amp(samples[i]);
        push_i16_le(&mut out, p);
        proof {
            assert(samples@.take(i + 1).drop_last() =~= samples@.take(i as int));
            assert(samples@.take(i + 1).last() == samples@[i as int]);
        }
        i = i + 1;
    }
    proof {
        assert(samples@.take(samples@.len() as int) =~= samples@);
        lemma_wav_data_len(samples@);
    }
    out
}

proof fn lemma_wav_data_len(samples: Seq<i32>)
    ensures
        wav_data(samples).len() == 2 * samples.len(),
    decreases samples.len(),
{
    if samples.len() > 0 {
        lemma_wav_data_len(samples.drop_last());
    }
}

pub open spec fn b64_alpha() -> Seq<char> {
    "ABCDEFGHIJKLMNOPQRSTUVWXYZabcdefghijklmnopqrstuvwxyz0123456789+/"@
}

pub open spec fn b64_char(i: int) -> char {
    b64_alpha()[i]
}

/// The four output characters for one group of up to three input
/// bytes (`n` of them present; absent bytes are zero and their output
/// positions pad with `'='`).
pub open spec fn b64_group(b1: int, b2: int, b3: int, n: int) -> Seq<char> {
    let bm = b1 * 65536 + b2 * 256 + b3;
    seq![
        b64_char(bm / 262144 % 64),
        b64_char(bm / 4096 % 64),
        if n >= 2 {
            b64_char(bm / 64 % 64)
        } else {
            '='
        },
        if n >= 3 {
            b64_char(bm % 64)
        } else {
            '='
        },
    ]
}

/// Standard base64 (with padding) of a byte sequence.
pub open spec fn b64_of(d: Seq<u8>) -> Seq<char>
    decreases d.len(),
{
    if d.len() == 0 {
        Seq::empty()
    } else if d.len() == 1 {
        b64_group(d[0] as int, 0, 0, 1)
    } else if d.len() == 2 {
        b64_group(d[0] as int, d[1] as int, 0, 2)
    } else {
        b64_group(d[0] as int, d[1] as int, d[2] as int, 3) + b64_of(d.skip(3))
    }
}

/// The four output characters for the group starting at `i`.
pub open spec fn b64_group_at(d: Seq<u8>, i: int) -> Seq<char> {
    if d.len() - i >= 3 {
        b64_group(d[i] as int, d[i + 1] as int, d[i + 2] as int, 3)
    } else if d.len() - i == 2 {
        b64_group(d[i] as int, d[i + 1] as int, 0, 2)
    } else {
        b64_group(d[i] as int, 0, 0, 1)
    }
}

proof fn lemma_b64_step(d: Seq<u8>, i: int)
    requires
        0 <= i < d.len(),
    ensures
        d.len() - i >= 3 ==> b64_of(d.skip(i)) == b64_group_at(d, i) + b64_of(d.skip(i + 3)),
        d.len() - i < 3 ==> b64_of(d.skip(i)) == b64_group_at(d, i),
{
    let rest = d.skip(i);
    if d.len() - i >= 3 {
        assert(rest.skip(3) =~= d.skip(i + 3));
        assert(b64_of(rest) == b64_group(rest[0] as int, rest[1] as int, rest[2] as int, 3)
            + b64_of(rest.skip(3)));
    }
}

#[verifier::rlimit(100)]
fn encode_group(data: &[u8], i: usize, result: &mut String)
    requires
        i < data@.len(),
    ensures
        final(result)@ == old(result)@ + b64_group_at(data@, i as int),
{
    let ghost res0 = result@;
    let n = data.len();
    let rem = n - i;
    let b1 = data[i];
    let b2 = if rem > 1 {
        data[i + 1]
    } else {
        0
    };
    let b3 = if rem > 2 {
        data[i + 2]
    } else {
        0
    };
    let bitmap: u32 = (b1 as u32) * 65536 + (b2 as u32) * 256 + (b3 as u32);

    push_char(result, b64_char_at(bitmap / 262144 % 64));
    push_char(result, b64_char_at(bitmap / 4096 % 64));
    if rem > 1 {
        push_char(result, b64_char_at(bitmap / 64 % 64));
    } else {
        push_char(result, '=');
    }
    if rem > 2 {
        push_char(result, b64_char_at(bitmap % 64));
    } else {
        push_char(result, '=');
    }
    proof {
        assert(result@ =~= res0 + b64_group_at(data@, i as int));
    }
}

fn b64_char_at(idx: u32) -> (c: char)
    requires
        idx < 64,
    ensures
        c == b64_char(idx as int),
{
    proof {
        reveal_strlit("ABCDEFGHIJKLMNOPQRSTUVWXYZabcdefghijklmnopqrstuvwxyz0123456789+/");
    }
    "ABCDEFGHIJKLMNOPQRSTUVWXYZabcdefghijklmnopqrstuvwxyz0123456789+/".get_char(idx as usize)
}

/// Base64-encodes a byte string, standard alphabet, `'='` padding.
#[verifier::loop_isolation(false)]
#[verifier::rlimit(100)]
pub fn encode(data: &[u8]) -> (r: String)
    requires
        data@.len() <= usize::MAX - 2,
    ensures
        r@ == b64_of(data@),
{
    let n = data.len();
    let mut result = String::new();
    proof {
        assert(data@.skip(0) =~= data@);
        assert(result@ + b64_of(data@) =~= b64_of(data@));
    }
    let mut i: usize = 0;
    while i < n
        invariant
            i <= n + 2,
            n == data@.len(),
            i <= n ==> b64_of(data@) == result@ + b64_of(data@.skip(i as int)),
            i > n ==> result@ == b64_of(data@),
        decreases n + 3 - i,
    {
        let ghost res0 = result@;
        encode_group(data, i, &mut result);
        proof {
            let g = b64_group_at(data@, i as int);
            lemma_b64_step(data@, i as int);
            if i + 2 < n {
                assert((res0 + g) + b64_of(data@.skip(i + 3)) =~= res0 + (g + b64_of(
                    data@.skip(i + 3),
                )));
            }
        }
        i = i + 3;
    }
    proof {
        if i <= n {
            assert(data@.skip(n as int) =~= Seq::<u8>::empty());
            assert(result@ + b64_of(data@.skip(n as int)) =~= result@);
        }
    }
    result
}

} // verus!
