//! The recording container format: an uncompressed WAV file holding
//! 32-bit IEEE-float samples, each sample carried here as its raw bit
//! pattern (`u32`), so that the whole file image is a function of the
//! sample rate, the channel count and the sample sequence.
//!
//! `wav_bytes` is the specification of a finalized recording;
//! `encode_wav` produces exactly that image and `decode_wav` accepts
//! exactly the images that `parse_wav` accepts. `lemma_parse_wav_bytes`
//! ties the two directions together: every encoded recording decodes
//! back to the format and samples it was made from.

use vstd::bytes::*;
use vstd::prelude::*;
use vstd::slice::slice_subrange;

verus! {

/// Greatest number of samples a single recording may hold: the WAV
/// header stores the data-chunk length in bytes (4 per sample) in a
/// 32-bit field, and the whole file must stay addressable on 32-bit
/// targets.
pub const MAX_SAMPLES: usize = 0x0fff_ffff;

/// A recording format the container can express: at least one channel,
/// a non-zero rate, a block alignment that fits its 16-bit field and a
/// byte rate that fits its 32-bit field.
pub open spec fn valid_format(sample_rate: u32, channels: u16) -> bool {
    &&& sample_rate >= 1
    &&& channels >= 1
    &&& channels * 4 <= 0xffff
    &&& sample_rate * channels * 4 <= 0xffffffff
}

/// Whether `sample_rate` and `channels` describe a format the
/// container can express.
pub fn format_is_valid(sample_rate: u32, channels: u16) -> (r: bool)
    ensures
        r == valid_format(sample_rate, channels),
{
    let sr: u64 = sample_rate as u64;
    let block_align: u64 = (channels as u64) * 4;
    proof {
        assert(sr * block_align <= 0xffffffffu64 * 0x3fffcu64) by (nonlinear_arith)
            requires
                sr <= 0xffffffffu64,
                block_align <= 0x3fffcu64,
        ;
    }
    let byte_rate: u64 = sr * block_align;
    proof {
        assert((sample_rate as int) * ((channels as int) * 4) == (sample_rate as int) * (
        channels as int) * 4) by (nonlinear_arith);
    }
    sample_rate >= 1 && channels >= 1 && block_align <= 0xffff && byte_rate <= 0xffffffff
}

pub open spec fn riff_tag() -> Seq<u8> {
    seq![0x52u8, 0x49u8, 0x46u8, 0x46u8]
}

pub open spec fn wave_tag() -> Seq<u8> {
    seq![0x57u8, 0x41u8, 0x56u8, 0x45u8]
}

pub open spec fn fmt_tag() -> Seq<u8> {
    seq![0x66u8, 0x6du8, 0x74u8, 0x20u8]
}

pub open spec fn data_tag() -> Seq<u8> {
    seq![0x64u8, 0x61u8, 0x74u8, 0x61u8]
}

/// The 44-byte header of a recording with the given format and sample
/// count: RIFF chunk, fmt chunk for 32-bit IEEE-float samples, and the
/// data chunk's tag and length.
pub open spec fn header_bytes(sample_rate: u32, channels: u16, n_samples: nat) -> Seq<u8>
    recommends
        valid_format(sample_rate, channels),
        n_samples <= MAX_SAMPLES,
{
    riff_tag() + spec_u32_to_le_bytes((36 + 4 * n_samples) as u32) + wave_tag() + fmt_tag()
        + spec_u32_to_le_bytes(16u32) + spec_u16_to_le_bytes(3u16) + spec_u16_to_le_bytes(channels)
        + spec_u32_to_le_bytes(sample_rate) + spec_u32_to_le_bytes(
        (sample_rate * channels * 4) as u32,
    ) + spec_u16_to_le_bytes((channels * 4) as u16) + spec_u16_to_le_bytes(32u16) + data_tag()
        + spec_u32_to_le_bytes((4 * n_samples) as u32)
}

/// The data chunk's payload: each sample as four little-endian bytes,
/// in order.
pub open spec fn sample_data(samples: Seq<u32>) -> Seq<u8>
    decreases samples.len(),
{
    if samples.len() == 0 {
        Seq::empty()
    } else {
        spec_u32_to_le_bytes(samples.first()) + sample_data(samples.drop_first())
    }
}

/// The complete file image of a finalized recording.
pub open spec fn wav_bytes(sample_rate: u32, channels: u16, samples: Seq<u32>) -> Seq<u8>
    recommends
        valid_format(sample_rate, channels),
        samples.len() <= MAX_SAMPLES,
{
    header_bytes(sample_rate, channels, samples.len()) + sample_data(samples)
}

proof fn lemma_sample_data_len(samples: Seq<u32>)
    ensures
        sample_data(samples).len() == 4 * samples.len(),
    decreases samples.len(),
{
    lemma_auto_spec_u32_to_from_le_bytes();
    if samples.len() > 0 {
        lemma_sample_data_len(samples.drop_first());
    }
}

proof fn lemma_sample_data_push(samples: Seq<u32>, x: u32)
    ensures
        sample_data(samples.push(x)) == sample_data(samples) + spec_u32_to_le_bytes(x),
    decreases samples.len(),
{
    lemma_auto_spec_u32_to_from_le_bytes();
    assert(spec_u32_to_le_bytes(x).len() == 4);
    if samples.len() == 0 {
        assert(samples.push(x).first() == x);
        assert(samples.push(x).drop_first() =~= Seq::<u32>::empty());
        assert(sample_data(samples.push(x)) == spec_u32_to_le_bytes(x) + sample_data(
            Seq::<u32>::empty(),
        ));
        assert(sample_data(Seq::<u32>::empty()) == Seq::<u8>::empty());
        assert(sample_data(samples.push(x)) =~= sample_data(samples) + spec_u32_to_le_bytes(x));
    } else {
        assert(samples.push(x).drop_first() =~= samples.drop_first().push(x));
        lemma_sample_data_push(samples.drop_first(), x);
        assert(sample_data(samples.push(x)) =~= sample_data(samples) + spec_u32_to_le_bytes(x));
    }
}

fn push_u32_le(out: &mut Vec<u8>, x: u32)
    ensures
        final(out)@ == old(out)@ + spec_u32_to_le_bytes(x),
{
    let mut b = u32_to_le_bytes(x);
    out.append(&mut b);
}

fn push_u16_le(out: &mut Vec<u8>, x: u16)
    ensures
        final(out)@ == old(out)@ + spec_u16_to_le_bytes(x),
{
    let mut b = u16_to_le_bytes(x);
    out.append(&mut b);
}

fn push_four(out: &mut Vec<u8>, a: u8, b: u8, c: u8, d: u8)
    ensures
        final(out)@ == old(out)@ + seq![a, b, c, d],
{
    out.push(a);
    out.push(b);
    out.push(c);
    out.push(d);
    proof {
        assert(out@ =~= old(out)@ + seq![a, b, c, d]);
    }
}

/// Builds the complete file image of a recording: the 44-byte header
/// followed by every sample, in order, as little-endian bytes.
pub fn encode_wav(sample_rate: u32, channels: u16, samples: &Vec<u32>) -> (r: Vec<u8>)
    requires
        valid_format(sample_rate, channels),
        samples@.len() <= MAX_SAMPLES,
    ensures
        r@ == wav_bytes(sample_rate, channels, samples@),
{
    let n: usize = samples.len();
    let data_len: u32 = 4 * (n as u32);
    let riff_len: u32 = 36 + data_len;
    let block_align: u16 = channels * 4;
    proof {
        assert((sample_rate as u64) * ((channels as u64) * 4) <= 0xffffffffu64
            && (sample_rate as int) * ((channels as int) * 4) == (sample_rate as int) * (
        channels as int) * 4) by (nonlinear_arith)
            requires
                (sample_rate as int) * (channels as int) * 4 <= 0xffffffff,
                sample_rate >= 1,
                channels >= 1,
        ;
    }
    let byte_rate: u32 = ((sample_rate as u64) * ((channels as u64) * 4)) as u32;

    let mut out: Vec<u8> = Vec::new();
    push_four(&mut out, 0x52, 0x49, 0x46, 0x46);
    push_u32_le(&mut out, riff_len);
    push_four(&mut out, 0x57, 0x41, 0x56, 0x45);
    push_four(&mut out, 0x66, 0x6d, 0x74, 0x20);
    push_u32_le(&mut out, 16);
    push_u16_le(&mut out, 3);
    push_u16_le(&mut out, channels);
    push_u32_le(&mut out, sample_rate);
    push_u32_le(&mut out, byte_rate);
    push_u16_le(&mut out, block_align);
    push_u16_le(&mut out, 32);
    push_four(&mut out, 0x64, 0x61, 0x74, 0x61);
    push_u32_le(&mut out, data_len);
    proof {
        assert(out@ =~= header_bytes(sample_rate, channels, samples@.len()));
    }

    let ghost header = out@;
    let mut i: usize = 0;
    while i < n
        invariant
            i <= n,
            n == samples@.len(),
            out@ == header + sample_data(samples@.take(i as int)),
        decreases n - i,
    {
        proof {
            lemma_sample_data_push(samples@.take(i as int), samples@[i as int]);
            assert(samples@.take(i as int).push(samples@[i as int]) =~= samples@.take(i as int + 1));
        }
        push_u32_le(&mut out, samples[i]);
        proof {
            assert(out@ =~= header + sample_data(samples@.take(i as int + 1)));
        }
        i = i + 1;
    }
    proof {
        assert(samples@.take(n as int) =~= samples@);
    }
    out
}

/// The 32-bit little-endian field at byte offset `off`.
pub open spec fn read_u32(bytes: Seq<u8>, off: int) -> u32
    recommends
        0 <= off,
        off + 4 <= bytes.len(),
{
    spec_u32_from_le_bytes(bytes.subrange(off, off + 4))
}

/// The 16-bit little-endian field at byte offset `off`.
pub open spec fn read_u16(bytes: Seq<u8>, off: int) -> u16
    recommends
        0 <= off,
        off + 2 <= bytes.len(),
{
    spec_u16_from_le_bytes(bytes.subrange(off, off + 2))
}

/// The samples held by a data-chunk payload: consecutive four-byte
/// little-endian groups, in order.
pub open spec fn parse_samples(data: Seq<u8>) -> Seq<u32>
    decreases data.len(),
{
    if data.len() < 4 {
        Seq::empty()
    } else {
        seq![spec_u32_from_le_bytes(data.subrange(0, 4))] + parse_samples(data.skip(4))
    }
}

/// Whether `bytes` is a well-formed recording: a correctly sized RIFF
/// chunk, a fmt chunk describing 32-bit IEEE-float samples in a format
/// the container can express, consistent derived fields, and a data
/// chunk that spans the rest of the file in whole samples.
pub open spec fn wav_header_ok(bytes: Seq<u8>) -> bool {
    &&& bytes.len() >= 44
    &&& bytes.subrange(0, 4) == riff_tag()
    &&& read_u32(bytes, 4) == bytes.len() - 8
    &&& bytes.subrange(8, 12) == wave_tag()
    &&& bytes.subrange(12, 16) == fmt_tag()
    &&& read_u32(bytes, 16) == 16
    &&& read_u16(bytes, 20) == 3
    &&& valid_format(read_u32(bytes, 24), read_u16(bytes, 22))
    &&& read_u32(bytes, 28) == read_u32(bytes, 24) * read_u16(bytes, 22) * 4
    &&& read_u16(bytes, 32) == read_u16(bytes, 22) * 4
    &&& read_u16(bytes, 34) == 32
    &&& bytes.subrange(36, 40) == data_tag()
    &&& read_u32(bytes, 40) == bytes.len() - 44
    &&& (bytes.len() - 44) % 4 == 0
    &&& bytes.len() - 44 <= 4 * MAX_SAMPLES
}

/// The meaning of a byte sequence as a recording: its sample rate,
/// channel count and samples if it is well formed, nothing otherwise.
pub open spec fn parse_wav(bytes: Seq<u8>) -> Option<(u32, u16, Seq<u32>)> {
    if wav_header_ok(bytes) {
        Some((read_u32(bytes, 24), read_u16(bytes, 22), parse_samples(bytes.skip(44))))
    } else {
        None
    }
}

/// A recording read back out of its file image.
pub struct DecodedWav {
    pub sample_rate: u32,
    pub channels: u16,
    pub samples: Vec<u32>,
}

fn get_u32(bytes: &Vec<u8>, off: usize) -> (x: u32)
    requires
        off + 4 <= bytes@.len(),
    ensures
        x == read_u32(bytes@, off as int),
{
    let len: usize = bytes.len();
    proof {
        assert(off + 4 <= len);
    }
    let s: &[u8] = slice_subrange(bytes.as_slice(), off, off + 4);
    u32_from_le_bytes(s)
}

fn get_u16(bytes: &Vec<u8>, off: usize) -> (x: u16)
    requires
        off + 2 <= bytes@.len(),
    ensures
        x == read_u16(bytes@, off as int),
{
    let len: usize = bytes.len();
    proof {
        assert(off + 2 <= len);
    }
    let s: &[u8] = slice_subrange(bytes.as_slice(), off, off + 2);
    u16_from_le_bytes(s)
}

fn four_at(bytes: &Vec<u8>, off: usize, a: u8, b: u8, c: u8, d: u8) -> (r: bool)
    requires
        off + 4 <= bytes@.len(),
    ensures
        r == (bytes@.subrange(off as int, off as int + 4) == seq![a, b, c, d]),
{
    let len: usize = bytes.len();
    proof {
        assert(off + 4 <= len);
    }
    let r = bytes[off] == a && bytes[off + 1] == b && bytes[off + 2] == c && bytes[off + 3] == d;
    proof {
        let sub = bytes@.subrange(off as int, off as int + 4);
        if r {
            assert(sub =~= seq![a, b, c, d]);
        } else {
            assert(sub[0] == bytes@[off as int]);
            assert(sub[1] == bytes@[off as int + 1]);
            assert(sub[2] == bytes@[off as int + 2]);
            assert(sub[3] == bytes@[off as int + 3]);
        }
    }
    r
}

/// Reads a recording back out of its file image. Returns the decoded
/// recording exactly when the image is well formed, and nothing — never
/// a panic — otherwise.
pub fn decode_wav(bytes: &Vec<u8>) -> (r: Option<DecodedWav>)
    ensures
        r is Some <==> parse_wav(bytes@) is Some,
        r matches Some(d) ==> parse_wav(bytes@) == Some(
            (d.sample_rate, d.channels, d.samples@),
        ) && valid_format(d.sample_rate, d.channels) && d.samples@.len() <= MAX_SAMPLES,
{
    let len: usize = bytes.len();
    if len < 44 {
        return None;
    }
    if !four_at(bytes, 0, 0x52, 0x49, 0x46, 0x46) {
        return None;
    }
    if !((get_u32(bytes, 4) as u64) == (len as u64) - 8) {
        return None;
    }
    if !four_at(bytes, 8, 0x57, 0x41, 0x56, 0x45) {
        return None;
    }
    if !four_at(bytes, 12, 0x66, 0x6d, 0x74, 0x20) {
        return None;
    }
    if !(get_u32(bytes, 16) == 16) {
        return None;
    }
    if !(get_u16(bytes, 20) == 3) {
        return None;
    }
    let sample_rate: u32 = get_u32(bytes, 24);
    let channels: u16 = get_u16(bytes, 22);
    if !format_is_valid(sample_rate, channels) {
        return None;
    }
    if !((get_u32(bytes, 28) as u64) == ((sample_rate as u64) * (channels as u64)) * 4) {
        return None;
    }
    if !(get_u16(bytes, 32) == channels * 4) {
        return None;
    }
    if !(get_u16(bytes, 34) == 32) {
        return None;
    }
    if !four_at(bytes, 36, 0x64, 0x61, 0x74, 0x61) {
        return None;
    }
    let data_len: usize = len - 44;
    if !((get_u32(bytes, 40) as u64) == data_len as u64) {
        return None;
    }
    if !(data_len % 4 == 0) {
        return None;
    }
    if !(data_len <= 4 * MAX_SAMPLES) {
        return None;
    }
    assert(wav_header_ok(bytes@));

    let ghost data = bytes@.skip(44);
    let n: usize = data_len / 4;
    proof {
        assert(data.skip(0) =~= data);
        assert(Seq::<u32>::empty() + parse_samples(data) =~= parse_samples(data));
    }
    let mut samples: Vec<u32> = Vec::new();
    let mut i: usize = 0;
    while i < n
        invariant
            i <= n,
            n <= MAX_SAMPLES,
            data.len() == 4 * n,
            data == bytes@.skip(44),
            bytes@.len() == 44 + data.len(),
            samples@ + parse_samples(data.skip(4 * i as int)) == parse_samples(data),
            samples@.len() == i,
        decreases n - i,
    {
        let x: u32 = get_u32(bytes, 44 + 4 * i);
        proof {
            let rest = data.skip(4 * i as int);
            assert(rest.len() == data.len() - 4 * i as int);
            assert(rest.len() >= 4);
            assert(rest.subrange(0, 4) =~= bytes@.subrange(
                44 + 4 * i as int,
                44 + 4 * i as int + 4,
            ));
            assert(rest.skip(4) =~= data.skip(4 * (i as int + 1)));
            assert(parse_samples(rest) == seq![x] + parse_samples(data.skip(4 * (i as int + 1))));
            assert(samples@.push(x) + parse_samples(data.skip(4 * (i as int + 1)))
                =~= samples@ + parse_samples(rest));
        }
        samples.push(x);
        i = i + 1;
    }
    proof {
        assert(data.skip(4 * n as int) =~= Seq::<u8>::empty());
        assert(parse_samples(Seq::<u8>::empty()) == Seq::<u32>::empty());
        assert(samples@ =~= parse_samples(data));
        lemma_parse_samples_len(data);
    }
    Some(DecodedWav { sample_rate, channels, samples })
}

proof fn lemma_parse_samples_len(data: Seq<u8>)
    ensures
        parse_samples(data).len() <= data.len() / 4,
    decreases data.len(),
{
    if data.len() >= 4 {
        lemma_parse_samples_len(data.skip(4));
    }
}

proof fn lemma_parse_sample_data(samples: Seq<u32>)
    ensures
        parse_samples(sample_data(samples)) == samples,
    decreases samples.len(),
{
    lemma_auto_spec_u32_to_from_le_bytes();
    if samples.len() == 0 {
        assert(parse_samples(sample_data(samples)) =~= samples);
    } else {
        let d = sample_data(samples);
        assert(spec_u32_to_le_bytes(samples.first()).len() == 4);
        lemma_sample_data_len(samples.drop_first());
        assert(d.len() == 4 + 4 * (samples.len() - 1));
        assert(d.subrange(0, 4) =~= spec_u32_to_le_bytes(samples.first()));
        assert(d.skip(4) =~= sample_data(samples.drop_first()));
        lemma_parse_sample_data(samples.drop_first());
        assert(spec_u32_from_le_bytes(d.subrange(0, 4)) == samples.first());
        assert(parse_samples(d) == seq![samples.first()] + samples.drop_first());
        assert(seq![samples.first()] + samples.drop_first() =~= samples);
    }
}

/// Format round trip: every file image the library produces is well
/// formed, and decodes back to exactly the sample rate, channel count
/// and sample sequence it was finalized with.
pub proof fn lemma_parse_wav_bytes(sample_rate: u32, channels: u16, samples: Seq<u32>)
    requires
        valid_format(sample_rate, channels),
        samples.len() <= MAX_SAMPLES,
    ensures
        parse_wav(wav_bytes(sample_rate, channels, samples)) == Some(
            (sample_rate, channels, samples),
        ),
{
    lemma_auto_spec_u32_to_from_le_bytes();
    lemma_auto_spec_u16_to_from_le_bytes();
    lemma_sample_data_len(samples);
    let n = samples.len();
    let w = wav_bytes(sample_rate, channels, samples);
    let h = header_bytes(sample_rate, channels, n);
    assert(spec_u32_to_le_bytes((36 + 4 * n) as u32).len() == 4);
    assert(spec_u32_to_le_bytes(16u32).len() == 4);
    assert(spec_u16_to_le_bytes(3u16).len() == 2);
    assert(spec_u16_to_le_bytes(channels).len() == 2);
    assert(spec_u32_to_le_bytes(sample_rate).len() == 4);
    assert(spec_u32_to_le_bytes((sample_rate * channels * 4) as u32).len() == 4);
    assert(spec_u16_to_le_bytes((channels * 4) as u16).len() == 2);
    assert(spec_u16_to_le_bytes(32u16).len() == 2);
    assert(spec_u32_to_le_bytes((4 * n) as u32).len() == 4);
    assert(h.len() == 44);
    assert(w.len() == 44 + 4 * n);

    assert(w.subrange(0, 4) =~= riff_tag());
    assert(w.subrange(4, 8) =~= spec_u32_to_le_bytes((36 + 4 * n) as u32));
    assert(w.subrange(8, 12) =~= wave_tag());
    assert(w.subrange(12, 16) =~= fmt_tag());
    assert(w.subrange(16, 20) =~= spec_u32_to_le_bytes(16u32));
    assert(w.subrange(20, 22) =~= spec_u16_to_le_bytes(3u16));
    assert(w.subrange(22, 24) =~= spec_u16_to_le_bytes(channels));
    assert(w.subrange(24, 28) =~= spec_u32_to_le_bytes(sample_rate));
    assert(w.subrange(28, 32) =~= spec_u32_to_le_bytes((sample_rate * channels * 4) as u32));
    assert(w.subrange(32, 34) =~= spec_u16_to_le_bytes((channels * 4) as u16));
    assert(w.subrange(34, 36) =~= spec_u16_to_le_bytes(32u16));
    assert(w.subrange(36, 40) =~= data_tag());
    assert(w.subrange(40, 44) =~= spec_u32_to_le_bytes((4 * n) as u32));
    assert(w.skip(44) =~= sample_data(samples));

    assert((36 + 4 * n) as u32 == 36 + 4 * n);
    assert((4 * n) as u32 == 4 * n);
    assert((sample_rate * channels * 4) as u32 == sample_rate * channels * 4);
    assert((channels * 4) as u16 == channels * 4);

    assert(read_u32(w, 4) == 36 + 4 * n);
    assert(read_u16(w, 20) == 3);
    assert(read_u16(w, 22) == channels);
    assert(read_u32(w, 24) == sample_rate);
    assert(read_u32(w, 28) == sample_rate * channels * 4);
    assert(read_u16(w, 32) == channels * 4);
    assert(read_u16(w, 34) == 32);
    assert(read_u32(w, 40) == 4 * n);
    assert(wav_header_ok(w));

    lemma_parse_sample_data(samples);
    assert(parse_wav(w) == Some((sample_rate, channels, samples)));
}

proof fn lemma_sample_data_parse(data: Seq<u8>)
    requires
        data.len() % 4 == 0,
    ensures
        sample_data(parse_samples(data)) == data,
    decreases data.len(),
{
    lemma_auto_spec_u32_to_from_le_bytes();
    if data.len() == 0 {
        assert(sample_data(parse_samples(data)) =~= data);
    } else {
        assert(data.len() >= 4);
        let x = spec_u32_from_le_bytes(data.subrange(0, 4));
        let s = parse_samples(data);
        assert(s == seq![x] + parse_samples(data.skip(4)));
        assert(s.len() > 0);
        assert(s.first() == x);
        assert(s.drop_first() =~= parse_samples(data.skip(4)));
        assert(data.skip(4).len() % 4 == 0);
        lemma_sample_data_parse(data.skip(4));
        assert(spec_u32_to_le_bytes(x) =~= data.subrange(0, 4));
        assert(sample_data(s) == spec_u32_to_le_bytes(x) + sample_data(parse_samples(data.skip(4))));
        assert(sample_data(s) =~= data);
    }
}

/// The format is exact: a well-formed image is precisely the encoding
/// of the recording it decodes to. Together with
/// `lemma_parse_wav_bytes` this makes encoding and decoding mutually
/// inverse, so no two different recordings share a file image.
pub proof fn lemma_parse_wav_complete(bytes: Seq<u8>)
    requires
        parse_wav(bytes) is Some,
    ensures
        valid_format(read_u32(bytes, 24), read_u16(bytes, 22)),
        parse_samples(bytes.skip(44)).len() <= MAX_SAMPLES,
        bytes == wav_bytes(read_u32(bytes, 24), read_u16(bytes, 22), parse_samples(bytes.skip(44))),
{
    lemma_auto_spec_u32_to_from_le_bytes();
    lemma_auto_spec_u16_to_from_le_bytes();
    let sample_rate = read_u32(bytes, 24);
    let channels = read_u16(bytes, 22);
    let data = bytes.skip(44);
    let s = parse_samples(data);
    assert(data.len() % 4 == 0);
    lemma_sample_data_parse(data);
    lemma_sample_data_len(s);
    assert(s.len() == data.len() / 4);
    let n = s.len();

    let h = header_bytes(sample_rate, channels, n);
    assert(spec_u32_to_le_bytes((36 + 4 * n) as u32).len() == 4);
    assert(spec_u32_to_le_bytes(16u32).len() == 4);
    assert(spec_u16_to_le_bytes(3u16).len() == 2);
    assert(spec_u16_to_le_bytes(channels).len() == 2);
    assert(spec_u32_to_le_bytes(sample_rate).len() == 4);
    assert(spec_u32_to_le_bytes((sample_rate * channels * 4) as u32).len() == 4);
    assert(spec_u16_to_le_bytes((channels * 4) as u16).len() == 2);
    assert(spec_u16_to_le_bytes(32u16).len() == 2);
    assert(spec_u32_to_le_bytes((4 * n) as u32).len() == 4);
    assert(h.len() == 44);

    // Each header field of the image reads back as the field value, so
    // writing the value back yields the field's own bytes.
    assert(spec_u32_to_le_bytes(read_u32(bytes, 4)) =~= bytes.subrange(4, 8));
    assert(spec_u32_to_le_bytes(read_u32(bytes, 16)) =~= bytes.subrange(16, 20));
    assert(spec_u16_to_le_bytes(read_u16(bytes, 20)) =~= bytes.subrange(20, 22));
    assert(spec_u16_to_le_bytes(read_u16(bytes, 22)) =~= bytes.subrange(22, 24));
    assert(spec_u32_to_le_bytes(read_u32(bytes, 24)) =~= bytes.subrange(24, 28));
    assert(spec_u32_to_le_bytes(read_u32(bytes, 28)) =~= bytes.subrange(28, 32));
    assert(spec_u16_to_le_bytes(read_u16(bytes, 32)) =~= bytes.subrange(32, 34));
    assert(spec_u16_to_le_bytes(read_u16(bytes, 34)) =~= bytes.subrange(34, 36));
    assert(spec_u32_to_le_bytes(read_u32(bytes, 40)) =~= bytes.subrange(40, 44));

    assert(read_u32(bytes, 4) == (36 + 4 * n) as u32);
    assert(read_u32(bytes, 16) == 16u32);
    assert(read_u16(bytes, 20) == 3u16);
    assert(read_u32(bytes, 28) == (sample_rate * channels * 4) as u32);
    assert(read_u16(bytes, 32) == (channels * 4) as u16);
    assert(read_u16(bytes, 34) == 32u16);
    assert(read_u32(bytes, 40) == (4 * n) as u32);

    assert(h =~= bytes.take(44));
    assert(bytes =~= bytes.take(44) + bytes.skip(44));
    assert(wav_bytes(sample_rate, channels, s) == h + sample_data(s));
    assert(bytes =~= wav_bytes(sample_rate, channels, s));
}

} // verus!

