//! The WAVE file that holds the sound of a translation: a RIFF header for
//! 16-bit mono PCM followed by the samples.
use vstd::prelude::*;

verus! {

/// A 16-bit value as two little-endian bytes.
pub open spec fn le16(v: u16) -> Seq<u8> {
    seq![(v % 256) as u8, (v / 256) as u8]
}

/// A 32-bit value as four little-endian bytes.
pub open spec fn le32(v: u32) -> Seq<u8> {
    seq![(v % 256) as u8, ((v / 256) % 256) as u8, ((v / 65536) % 256) as u8, (v / 16777216) as u8]
}

/// The 44-byte header of a WAVE file of 16-bit mono PCM at `sample_rate`
/// samples per second with `data_len` bytes of samples.
pub open spec fn wav_header(sample_rate: u32, data_len: u32) -> Seq<u8> {
    seq![82u8, 73u8, 70u8, 70u8] + le32((36 + data_len) as u32) + seq![87u8, 65u8, 86u8, 69u8]
        + seq![102u8, 109u8, 116u8, 32u8] + le32(16) + le16(1) + le16(1) + le32(sample_rate)
        + le32((2 * sample_rate) as u32) + le16(2) + le16(16) + seq![100u8, 97u8, 116u8, 97u8]
        + le32(data_len)
}

/// The samples as little-endian 16-bit words.
pub open spec fn pcm_bytes(samples: Seq<i16>) -> Seq<u8>
    decreases samples.len(),
{
    if samples.len() == 0 {
        Seq::empty()
    } else {
        pcm_bytes(samples.drop_last()) + le16(samples.last() as u16)
    }
}

/// The sizes in a header fit in their 32-bit fields.
pub open spec fn wav_fits(sample_rate: u32, n_samples: nat) -> bool {
    36 + 2 * n_samples <= u32::MAX && 2 * sample_rate <= u32::MAX
}

fn push_le16(out: &mut Vec<u8>, v: u16)
    ensures
        final(out)@ == old(out)@ + le16(v),
{
    out.push((v % 256) as u8);
    out.push((v / 256) as u8);
}

fn push_le32(out: &mut Vec<u8>, v: u32)
    ensures
        final(out)@ == old(out)@ + le32(v),
{
    out.push((v % 256) as u8);
    out.push(((v / 256) % 256) as u8);
    out.push(((v / 65536) % 256) as u8);
    out.push((v / 16777216) as u8);
}

fn push_tag(out: &mut Vec<u8>, a: u8, b: u8, c: u8, d: u8)
    ensures
        final(out)@ == old(out)@ + seq![a, b, c, d],
{
    out.push(a);
    out.push(b);
    out.push(c);
    out.push(d);
}

/// The WAVE file of `samples` at `sample_rate` samples per second, or `None`
/// where a size does not fit in its header field.
pub fn wav_file(sample_rate: u32, samples: &[i16]) -> (r: Option<Vec<u8>>)
    ensures
        r is Some <==> wav_fits(sample_rate, samples@.len()),
        r matches Some(bytes) ==> bytes@ == wav_header(sample_rate, (2 * samples@.len()) as u32)
            + pcm_bytes(samples@),
{
    let n = samples.len();
    if n > 2147483629 || sample_rate > 2147483647 {
        return None;
    }
    let data_len: u32 = (2 * n) as u32;
    assert(data_len == 2 * n);
    let mut out: Vec<u8> = Vec::new();
    push_tag(&mut out, 82, 73, 70, 70);
    push_le32(&mut out, 36 + data_len);
    push_tag(&mut out, 87, 65, 86, 69);
    push_tag(&mut out, 102, 109, 116, 32);
    push_le32(&mut out, 16);
    push_le16(&mut out, 1);
    push_le16(&mut out, 1);
    push_le32(&mut out, sample_rate);
    push_le32(&mut out, 2 * sample_rate);
    push_le16(&mut out, 2);
    push_le16(&mut out, 16);
    push_tag(&mut out, 100, 97, 116, 97);
    push_le32(&mut out, data_len);
    let ghost header = out@;
    assert(header =~= wav_header(sample_rate, data_len));
    let mut i: usize = 0;
    while i < n
        invariant
            n == samples@.len(),
            i <= n,
            out@ == header + pcm_bytes(samples@.take(i as int)),
        decreases n - i,
    {
        push_le16(&mut out, #[verifier::truncate] (samples[i] as u16));
        assert(samples@.take(i + 1).drop_last() =~= samples@.take(i as int));
        i = i + 1;
    }
    assert(samples@.take(n as int) =~= samples@);
    Some(out)
}

} // verus!
