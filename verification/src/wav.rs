//! PCM16 WAV framing for voice replies and recordings: the RIFF chunk
//! walk that finds the `fmt ` and `data` chunks, the canonical 44-byte
//! header, and the little-endian sample bytes.

use vstd::prelude::*;
use crate::text::{decimal, push_decimal, push_str};

verus! {

broadcast use vstd::string::group_string_axioms;

// ---------------------------------------------------------------------------
// Byte-level model
// ---------------------------------------------------------------------------

/// Little-endian 16-bit value at `b[i..i+2]`.
pub open spec fn le16(b: Seq<u8>, i: int) -> int {
    b[i] as int + 256 * (b[i + 1] as int)
}

/// Little-endian 32-bit value at `b[i..i+4]`.
pub open spec fn le32(b: Seq<u8>, i: int) -> int {
    b[i] as int + 256 * (b[i + 1] as int) + 65536 * (b[i + 2] as int) + 16777216 * (b[i + 3] as int)
}

/// Little-endian signed 16-bit sample at `b[i..i+2]`.
pub open spec fn le_i16(b: Seq<u8>, i: int) -> int {
    let u = le16(b, i);
    if u >= 32768 { u - 65536 } else { u }
}

pub open spec fn riff_tag() -> Seq<u8> {
    seq![0x52u8, 0x49u8, 0x46u8, 0x46u8]
}

pub open spec fn wave_tag() -> Seq<u8> {
    seq![0x57u8, 0x41u8, 0x56u8, 0x45u8]
}

pub open spec fn fmt_tag() -> Seq<u8> {
    seq![0x66u8, 0x6du8, 0x74u8, 0x20u8]
}

pub open spec fn data_tag() -> Seq<u8> {
    seq![0x64u8, 0x61u8, 0x74u8, 0x61u8]
}

/// Why a byte buffer is not a playable PCM16 WAV.
#[derive(Clone, Copy, Debug, PartialEq, Eq, Structural)]
pub enum WavError {
    /// No `RIFF....WAVE` preamble.
    NotWav,
    /// A chunk length runs past the address space.
    ChunkLengthOverflow,
    /// A chunk runs past the end of the buffer.
    ChunkTruncated,
    /// No `fmt ` chunk of at least 16 bytes.
    MissingFmt,
    /// Not integer PCM, not 16 bits, or no channels.
    Unsupported { format: u16, channels: u16, bits: u16 },
    /// No `data` chunk.
    MissingData,
}

/// The fields of a `fmt ` chunk that playback reads.
#[derive(Clone, Copy, Debug, PartialEq, Eq, Structural)]
pub struct WavFormat {
    pub audio_format: u16,
    pub channels: u16,
    pub sample_rate: u32,
    pub bits: u16,
}

/// Where the samples are, and how to read them.
#[derive(Clone, Copy, Debug, PartialEq, Eq, Structural)]
pub struct WavLayout {
    pub sample_rate: u32,
    pub channels: u16,
    /// Byte range of the `data` chunk's payload.
    pub data_start: usize,
    pub data_end: usize,
}

/// The `fmt ` chunk whose payload starts at `start`.
pub open spec fn fmt_at(b: Seq<u8>, start: int) -> WavFormat {
    WavFormat {
        audio_format: le16(b, start) as u16,
        channels: le16(b, start + 2) as u16,
        sample_rate: le32(b, start + 4) as u32,
        bits: le16(b, start + 14) as u16,
    }
}

/// Walk the chunks from `offset`, keeping the last `fmt ` (of at least 16
/// bytes) and the last `data` payload range seen; a chunk of odd length
/// is followed by one pad byte.
pub open spec fn scan_chunks(
    b: Seq<u8>,
    offset: int,
    fmt: Option<WavFormat>,
    data: Option<(int, int)>,
) -> Result<(Option<WavFormat>, Option<(int, int)>), WavError>
    decreases b.len() + 1 - offset,
{
    if offset < 0 || offset + 8 > b.len() {
        Ok((fmt, data))
    } else {
        let len = le32(b, offset + 4);
        let start = offset + 8;
        let end = start + len;
        if end > usize::MAX {
            Err(WavError::ChunkLengthOverflow)
        } else if end > b.len() {
            Err(WavError::ChunkTruncated)
        } else {
            let id = b.subrange(offset, offset + 4);
            let is_fmt = id == fmt_tag() && len >= 16;
            let fmt2 = if is_fmt { Some(fmt_at(b, start)) } else { fmt };
            let data2 = if !is_fmt && id == data_tag() { Some((start, end)) } else { data };
            scan_chunks(b, end + len % 2, fmt2, data2)
        }
    }
}

/// What decoding `b` finds: the sample layout, or why it is refused.
pub open spec fn spec_parse_wav(b: Seq<u8>) -> Result<(WavFormat, int, int), WavError> {
    if b.len() < 12 || b.subrange(0, 4) != riff_tag() || b.subrange(8, 12) != wave_tag() {
        Err(WavError::NotWav)
    } else {
        match scan_chunks(b, 12, None, None) {
            Err(e) => Err(e),
            Ok((fmt, data)) => match fmt {
                None => Err(WavError::MissingFmt),
                Some(f) => if f.audio_format != 1 || f.bits != 16 || f.channels == 0 {
                    Err(
                        WavError::Unsupported {
                            format: f.audio_format,
                            channels: f.channels,
                            bits: f.bits,
                        },
                    )
                } else {
                    match data {
                        None => Err(WavError::MissingData),
                        Some((s, e)) => Ok((f, s, e)),
                    }
                },
            },
        }
    }
}

// ---------------------------------------------------------------------------
// Reading
// ---------------------------------------------------------------------------

fn read_le16(b: &[u8], i: usize) -> (v: u16)
    requires
        i + 2 <= b@.len(),
    ensures
        v == le16(b@, i as int),
{
    b[i] as u16 + (b[i + 1] as u16) * 256
}

fn read_le32(b: &[u8], i: usize) -> (v: u32)
    requires
        i + 4 <= b@.len(),
    ensures
        v == le32(b@, i as int),
{
    b[i] as u32 + (b[i + 1] as u32) * 256 + (b[i + 2] as u32) * 65536 + (b[i + 3] as u32) * 16777216
}

fn tag_at(b: &[u8], i: usize, t0: u8, t1: u8, t2: u8, t3: u8) -> (r: bool)
    requires
        i + 4 <= b@.len(),
    ensures
        r == (b@.subrange(i as int, i + 4) == seq![t0, t1, t2, t3]),
{
    let r = b[i] == t0 && b[i + 1] == t1 && b[i + 2] == t2 && b[i + 3] == t3;
    proof {
        let s = b@.subrange(i as int, i + 4);
        let t = seq![t0, t1, t2, t3];
        if r {
            assert(s =~= t);
        } else {
            assert(s[0] != t[0] || s[1] != t[1] || s[2] != t[2] || s[3] != t[3]);
        }
    }
    r
}

/// Find the sample layout of a PCM16 WAV, or say why it cannot be played.
pub fn parse_wav_layout(bytes: &[u8]) -> (r: Result<WavLayout, WavError>)
    requires
        bytes@.len() + 9 <= usize::MAX,
    ensures
        match spec_parse_wav(bytes@) {
            Ok((f, s, e)) => r == Ok::<WavLayout, WavError>(
                WavLayout {
                    sample_rate: f.sample_rate,
                    channels: f.channels,
                    data_start: s as usize,
                    data_end: e as usize,
                },
            ) && 0 <= s <= e <= bytes@.len(),
            Err(err) => r == Err::<WavLayout, WavError>(err),
        },
{
    if bytes.len() < 12 || !tag_at(bytes, 0, 0x52, 0x49, 0x46, 0x46) || !tag_at(
        bytes,
        8,
        0x57,
        0x41,
        0x56,
        0x45,
    ) {
        return Err(WavError::NotWav);
    }
    let ghost b = bytes@;
    let mut offset: usize = 12;
    let mut fmt: Option<WavFormat> = None;
    let mut data: Option<(usize, usize)> = None;
    while offset + 8 <= bytes.len()
        invariant
            b == bytes@,
            b.len() + 9 <= usize::MAX,
            b.len() >= 12 && b.subrange(0, 4) == riff_tag() && b.subrange(8, 12) == wave_tag(),
            12 <= offset <= b.len() + 1,
            match data {
                Some((s, e)) => s <= e <= b.len(),
                None => true,
            },
            scan_chunks(b, 12, None, None) == scan_chunks(
                b,
                offset as int,
                fmt,
                match data {
                    Some((s, e)) => Some((s as int, e as int)),
                    None => None,
                },
            ),
        decreases b.len() + 1 - offset,
    {
        let len = read_le32(bytes, offset + 4) as usize;
        let start = offset + 8;
        let end = match start.checked_add(len) {
            Some(e) => e,
            None => return Err(WavError::ChunkLengthOverflow),
        };
        if end > bytes.len() {
            return Err(WavError::ChunkTruncated);
        }
        let is_fmt = tag_at(bytes, offset, 0x66, 0x6d, 0x74, 0x20) && len >= 16;
        if is_fmt {
            let audio_format = read_le16(bytes, start);
            let channels = read_le16(bytes, start + 2);
            let sample_rate = read_le32(bytes, start + 4);
            let bits = read_le16(bytes, start + 14);
            fmt = Some(WavFormat { audio_format, channels, sample_rate, bits });
        } else if tag_at(bytes, offset, 0x64, 0x61, 0x74, 0x61) {
            data = Some((start, end));
        }
        offset = end + len % 2;
    }
    let f = match fmt {
        None => return Err(WavError::MissingFmt),
        Some(f) => f,
    };
    if f.audio_format != 1 || f.bits != 16 || f.channels == 0 {
        return Err(WavError::Unsupported { format: f.audio_format, channels: f.channels, bits: f.bits });
    }
    match data {
        None => Err(WavError::MissingData),
        Some((s, e)) => Ok(WavLayout { sample_rate: f.sample_rate, channels: f.channels, data_start: s, data_end: e }),
    }
}

/// Number of whole frames in a layout's payload.
pub open spec fn frame_count(l: WavLayout) -> int {
    (l.data_end - l.data_start) / (2 * l.channels as int)
}

/// The interleaved signed samples of every whole frame of the payload
/// (a trailing partial frame is dropped).
pub fn pcm16_samples(bytes: &[u8], layout: &WavLayout) -> (out: Vec<i16>)
    requires
        layout.channels > 0,
        layout.data_start <= layout.data_end <= bytes@.len(),
    ensures
        out@.len() == frame_count(*layout) * layout.channels,
        forall|j: int|
            0 <= j < out@.len() ==> #[trigger] out@[j] as int == le_i16(
                bytes@,
                layout.data_start + 2 * j,
            ),
{
    let frame_bytes: usize = 2 * layout.channels as usize;
    let payload = layout.data_end - layout.data_start;
    let frames = payload / frame_bytes;
    proof {
        assert(frames * frame_bytes <= payload) by (nonlinear_arith)
            requires
                frames == payload / frame_bytes,
                frame_bytes > 0,
        ;
        assert(frames * (layout.channels as int) * 2 == frames * frame_bytes) by (nonlinear_arith)
            requires
                frame_bytes == 2 * layout.channels as usize,
        ;
    }
    let count = frames * (layout.channels as usize);
    let mut out: Vec<i16> = Vec::new();
    let mut j: usize = 0;
    while j < count
        invariant
            j <= count,
            count * 2 <= payload,
            payload == layout.data_end - layout.data_start,
            layout.data_start <= layout.data_end <= bytes@.len(),
            out@.len() == j,
            forall|k: int|
                0 <= k < j ==> #[trigger] out@[k] as int == le_i16(
                    bytes@,
                    layout.data_start + 2 * k,
                ),
        decreases count - j,
    {
        let at = layout.data_start + 2 * j;
        let v: i32 = bytes[at] as i32 + (bytes[at + 1] as i32) * 256;
        let s: i32 = if v >= 32768 { v - 65536 } else { v };
        out.push(s as i16);
        j = j + 1;
    }
    out
}

// ---------------------------------------------------------------------------
// Writing
// ---------------------------------------------------------------------------

/// The four little-endian bytes of `x`.
pub open spec fn le_bytes32(x: int) -> Seq<u8> {
    seq![
        (x % 256) as u8,
        ((x / 256) % 256) as u8,
        ((x / 65536) % 256) as u8,
        ((x / 16777216) % 256) as u8,
    ]
}

/// The two little-endian bytes of `x`.
pub open spec fn le_bytes16(x: int) -> Seq<u8> {
    seq![(x % 256) as u8, ((x / 256) % 256) as u8]
}

/// The 44-byte header of a mono PCM16 WAV holding `n` samples at `rate`.
pub open spec fn wav_header_bytes(rate: int, n: int) -> Seq<u8> {
    riff_tag() + le_bytes32(36 + 2 * n) + wave_tag() + fmt_tag() + le_bytes32(16) + le_bytes16(1)
        + le_bytes16(1) + le_bytes32(rate) + le_bytes32(2 * rate) + le_bytes16(2) + le_bytes16(16)
        + data_tag() + le_bytes32(2 * n)
}

fn push_le32(out: &mut Vec<u8>, x: u32)
    ensures
        final(out)@ == old(out)@ + le_bytes32(x as int),
{
    out.push((x % 256) as u8);
    out.push(((x / 256) % 256) as u8);
    out.push(((x / 65536) % 256) as u8);
    out.push(((x / 16777216) % 256) as u8);
}

fn push_le16(out: &mut Vec<u8>, x: u16)
    ensures
        final(out)@ == old(out)@ + le_bytes16(x as int),
{
    out.push((x % 256) as u8);
    out.push(((x / 256) % 256) as u8);
}

fn push_tag(out: &mut Vec<u8>, t0: u8, t1: u8, t2: u8, t3: u8)
    ensures
        final(out)@ == old(out)@ + seq![t0, t1, t2, t3],
{
    out.push(t0);
    out.push(t1);
    out.push(t2);
    out.push(t3);
}

/// The canonical header of a mono PCM16 WAV of `n_samples` samples at
/// `sample_rate`.
pub fn wav_header(sample_rate: u32, n_samples: usize) -> (out: Vec<u8>)
    requires
        36 + 2 * n_samples <= u32::MAX,
        2 * sample_rate <= u32::MAX,
    ensures
        out@ == wav_header_bytes(sample_rate as int, n_samples as int),
        out@.len() == 44,
{
    let data_len = (n_samples * 2) as u32;
    let mut out: Vec<u8> = Vec::new();
    push_tag(&mut out, 0x52, 0x49, 0x46, 0x46);
    push_le32(&mut out, 36 + data_len);
    push_tag(&mut out, 0x57, 0x41, 0x56, 0x45);
    push_tag(&mut out, 0x66, 0x6d, 0x74, 0x20);
    push_le32(&mut out, 16);
    push_le16(&mut out, 1);
    push_le16(&mut out, 1);
    push_le32(&mut out, sample_rate);
    push_le32(&mut out, sample_rate * 2);
    push_le16(&mut out, 2);
    push_le16(&mut out, 16);
    push_tag(&mut out, 0x64, 0x61, 0x74, 0x61);
    push_le32(&mut out, data_len);
    out
}

/// The little-endian bytes of each sample, in order.
pub open spec fn pcm16_bytes(s: Seq<i16>) -> Seq<u8>
    decreases s.len(),
{
    if s.len() == 0 {
        Seq::empty()
    } else {
        pcm16_bytes(s.drop_last()) + le_bytes16(if s.last() < 0 { s.last() + 65536 } else { s.last() as int })
    }
}

/// Append the little-endian bytes of each sample.
pub fn push_pcm16(out: &mut Vec<u8>, samples: &[i16])
    ensures
        final(out)@ == old(out)@ + pcm16_bytes(samples@),
{
    let mut i: usize = 0;
    while i < samples.len()
        invariant
            i <= samples@.len(),
            out@ == old(out)@ + pcm16_bytes(samples@.take(i as int)),
        decreases samples@.len() - i,
    {
        let s = samples[i];
        let u: u16 = if s < 0 { (s as i32 + 65536) as u16 } else { s as u16 };
        push_le16(out, u);
        assert(samples@.take(i + 1).drop_last() == samples@.take(i as int));
        i = i + 1;
    }
    assert(samples@.take(samples@.len() as int) == samples@);
}

impl WavError {
    /// The message shown to the user.
    pub fn message(&self) -> (s: String)
        ensures
            s@ == match *self {
                WavError::NotWav => "TTS 回复不是有效 WAV"@,
                WavError::ChunkLengthOverflow => "WAV chunk 长度溢出"@,
                WavError::ChunkTruncated => "WAV chunk 被截断"@,
                WavError::MissingFmt => "WAV 缺少 fmt chunk"@,
                WavError::Unsupported { format, channels, bits } => "暂不支持的 WAV 格式: format="@
                    + decimal(format as nat) + " channels="@ + decimal(channels as nat) + " bits="@
                    + decimal(bits as nat),
                WavError::MissingData => "WAV 缺少 data chunk"@,
            },
    {
        match *self {
            WavError::NotWav => String::from_str("TTS 回复不是有效 WAV"),
            WavError::ChunkLengthOverflow => String::from_str("WAV chunk 长度溢出"),
            WavError::ChunkTruncated => String::from_str("WAV chunk 被截断"),
            WavError::MissingFmt => String::from_str("WAV 缺少 fmt chunk"),
            WavError::Unsupported { format, channels, bits } => {
                let mut s = String::from_str("暂不支持的 WAV 格式: format=");
                push_decimal(&mut s, format as u64);
                push_str(&mut s, " channels=");
                push_decimal(&mut s, channels as u64);
                push_str(&mut s, " bits=");
                push_decimal(&mut s, bits as u64);
                s
            },
            WavError::MissingData => String::from_str("WAV 缺少 data chunk"),
        }
    }
}

} // verus!

verus! {

proof fn lemma_le32_of_bytes(x: u32)
    ensures
        le32(le_bytes32(x as int), 0) == x,
        le_bytes32(x as int).len() == 4,
{
    let b = le_bytes32(x as int);
    assert(b[0] == (x % 256) as u8);
    assert(b[1] == ((x / 256) % 256) as u8);
    assert(b[2] == ((x / 65536) % 256) as u8);
    assert(b[3] == ((x / 16777216) % 256) as u8);
    assert((x % 256) + 256 * ((x / 256) % 256) + 65536 * ((x / 65536) % 256) + 16777216 * ((x
        / 16777216) % 256) == x) by (bit_vector);
}

proof fn lemma_le16_of_bytes(x: u16)
    ensures
        le16(le_bytes16(x as int), 0) == x,
        le_bytes16(x as int).len() == 2,
{
    let b = le_bytes16(x as int);
    assert(b[0] == (x % 256) as u8);
    assert(b[1] == ((x / 256) % 256) as u8);
    assert((x % 256) + 256 * ((x / 256) % 256) == x) by (bit_vector);
}

/// The unsigned 16-bit pattern of a signed sample.
pub open spec fn u16_of(s: i16) -> int {
    if s < 0 { s + 65536 } else { s as int }
}

proof fn lemma_pcm16_bytes(s: Seq<i16>)
    ensures
        pcm16_bytes(s).len() == 2 * s.len(),
        forall|j: int|
            0 <= j < s.len() ==> #[trigger] le_i16(pcm16_bytes(s), 2 * j) == s[j],
    decreases s.len(),
{
    if s.len() > 0 {
        let p = s.drop_last();
        lemma_pcm16_bytes(p);
        let u = u16_of(s.last());
        lemma_le16_of_bytes(u as u16);
        let tail = le_bytes16(u);
        assert(pcm16_bytes(s) == pcm16_bytes(p) + tail);
        assert forall|j: int| 0 <= j < s.len() implies #[trigger] le_i16(pcm16_bytes(s), 2 * j)
            == s[j] by {
            if j < p.len() {
                assert(pcm16_bytes(s)[2 * j] == pcm16_bytes(p)[2 * j]);
                assert(pcm16_bytes(s)[2 * j + 1] == pcm16_bytes(p)[2 * j + 1]);
                assert(le_i16(pcm16_bytes(s), 2 * j) == le_i16(pcm16_bytes(p), 2 * j));
            } else {
                assert(pcm16_bytes(s)[2 * j] == tail[0]);
                assert(pcm16_bytes(s)[2 * j + 1] == tail[1]);
                assert(le16(pcm16_bytes(s), 2 * j) == le16(tail, 0));
            }
        }
    }
}

proof fn lemma_header_layout(rate: u32, n: int)
    requires
        0 <= n,
        36 + 2 * n <= u32::MAX,
        2 * rate <= u32::MAX,
    ensures
        ({
            let h = wav_header_bytes(rate as int, n);
            &&& h.len() == 44
            &&& h.subrange(0, 4) == riff_tag()
            &&& h.subrange(8, 12) == wave_tag()
            &&& h.subrange(12, 16) == fmt_tag()
            &&& h.subrange(36, 40) == data_tag()
            &&& le32(h, 16) == 16
            &&& le16(h, 20) == 1
            &&& le16(h, 22) == 1
            &&& le32(h, 24) == rate
            &&& le16(h, 34) == 16
            &&& le32(h, 40) == 2 * n
        }),
{
    let h = wav_header_bytes(rate as int, n);
    lemma_le32_of_bytes((36 + 2 * n) as u32);
    lemma_le32_of_bytes(16);
    lemma_le32_of_bytes(rate);
    lemma_le32_of_bytes((2 * rate) as u32);
    lemma_le32_of_bytes((2 * n) as u32);
    lemma_le16_of_bytes(1);
    lemma_le16_of_bytes(2);
    lemma_le16_of_bytes(16);
    let l0 = le_bytes32(36 + 2 * n);
    let l16 = le_bytes32(16);
    let one = le_bytes16(1);
    let lr = le_bytes32(rate as int);
    let lr2 = le_bytes32(2 * rate);
    let two = le_bytes16(2);
    let sixteen = le_bytes16(16);
    let ln = le_bytes32(2 * n);
    let flat = seq![
        0x52u8, 0x49u8, 0x46u8, 0x46u8, l0[0], l0[1], l0[2], l0[3],
        0x57u8, 0x41u8, 0x56u8, 0x45u8, 0x66u8, 0x6du8, 0x74u8, 0x20u8,
        l16[0], l16[1], l16[2], l16[3], one[0], one[1], one[0], one[1],
        lr[0], lr[1], lr[2], lr[3], lr2[0], lr2[1], lr2[2], lr2[3],
        two[0], two[1], sixteen[0], sixteen[1], 0x64u8, 0x61u8, 0x74u8, 0x61u8,
        ln[0], ln[1], ln[2], ln[3],
    ];
    assert(h =~= flat);
    assert(h.subrange(0, 4) =~= riff_tag());
    assert(h.subrange(8, 12) =~= wave_tag());
    assert(h.subrange(12, 16) =~= fmt_tag());
    assert(h.subrange(36, 40) =~= data_tag());
    assert(le32(h, 16) == le32(l16, 0));
    assert(le16(h, 20) == le16(one, 0));
    assert(le16(h, 22) == le16(one, 0));
    assert(le32(h, 24) == le32(lr, 0));
    assert(le16(h, 34) == le16(sixteen, 0));
    assert(le32(h, 40) == le32(ln, 0));
}

proof fn lemma_scan_header(b: Seq<u8>, rate: u32, n: int)
    requires
        0 <= n,
        44 + 2 * n <= u32::MAX,
        b.len() == 44 + 2 * n,
        b.subrange(0, 4) == riff_tag(),
        b.subrange(8, 12) == wave_tag(),
        b.subrange(12, 16) == fmt_tag(),
        b.subrange(36, 40) == data_tag(),
        le32(b, 16) == 16,
        le16(b, 20) == 1,
        le16(b, 22) == 1,
        le32(b, 24) == rate,
        le16(b, 34) == 16,
        le32(b, 40) == 2 * n,
    ensures
        spec_parse_wav(b) == Ok::<(WavFormat, int, int), WavError>(
            (WavFormat { audio_format: 1, channels: 1, sample_rate: rate, bits: 16 }, 44, 44 + 2 * n),
        ),
{
    assert(b.subrange(36, 40) != fmt_tag()) by {
        assert(b.subrange(36, 40)[0] != fmt_tag()[0]);
    }
    let f = WavFormat { audio_format: 1, channels: 1, sample_rate: rate, bits: 16 };
    assert(fmt_at(b, 20) == f);
    assert((2 * n) % 2 == 0) by (nonlinear_arith);
    assert(scan_chunks(b, 44 + 2 * n, Some(f), Some((44, 44 + 2 * n))) == Ok::<
        (Option<WavFormat>, Option<(int, int)>),
        WavError,
    >((Some(f), Some((44, 44 + 2 * n)))));
    assert(scan_chunks(b, 36, Some(f), None) == scan_chunks(
        b,
        44 + 2 * n,
        Some(f),
        Some((44, 44 + 2 * n)),
    ));
    assert(scan_chunks(b, 12, None, None) == scan_chunks(b, 36, Some(f), None));
}

proof fn lemma_prefix_facts(h: Seq<u8>, p: Seq<u8>, rate: u32, n: int)
    requires
        0 <= n,
        36 + 2 * n <= u32::MAX,
        2 * rate <= u32::MAX,
        h == wav_header_bytes(rate as int, n),
        p.len() == 2 * n,
    ensures
        ({
            let b = h + p;
            &&& b.len() == 44 + 2 * n
            &&& b.subrange(0, 4) == riff_tag()
            &&& b.subrange(8, 12) == wave_tag()
            &&& b.subrange(12, 16) == fmt_tag()
            &&& b.subrange(36, 40) == data_tag()
            &&& le32(b, 16) == 16
            &&& le16(b, 20) == 1
            &&& le16(b, 22) == 1
            &&& le32(b, 24) == rate
            &&& le16(b, 34) == 16
            &&& le32(b, 40) == 2 * n
        }),
{
    lemma_header_layout(rate, n);
    let b = h + p;
    assert(b.subrange(0, 4) =~= h.subrange(0, 4));
    assert(b.subrange(8, 12) =~= h.subrange(8, 12));
    assert(b.subrange(12, 16) =~= h.subrange(12, 16));
    assert(b.subrange(36, 40) =~= h.subrange(36, 40));
    assert(le32(b, 16) == le32(h, 16));
    assert(le16(b, 20) == le16(h, 20));
    assert(le16(b, 22) == le16(h, 22));
    assert(le32(b, 24) == le32(h, 24));
    assert(le16(b, 34) == le16(h, 34));
    assert(le32(b, 40) == le32(h, 40));
}

/// A header written by `wav_header` followed by the samples' bytes
/// decodes back to the same rate, one channel, and the same samples.
pub proof fn law_wav_roundtrip(rate: u32, samples: Seq<i16>)
    requires
        44 + 2 * samples.len() <= u32::MAX,
        2 * rate <= u32::MAX,
    ensures
        ({
            let b = wav_header_bytes(rate as int, samples.len() as int) + pcm16_bytes(samples);
            &&& spec_parse_wav(b) == Ok::<(WavFormat, int, int), WavError>(
                (
                    WavFormat { audio_format: 1, channels: 1, sample_rate: rate, bits: 16 },
                    44,
                    44 + 2 * (samples.len() as int),
                ),
            )
            &&& forall|j: int| 0 <= j < samples.len() ==> #[trigger] le_i16(b, 44 + 2 * j) == samples[j]
        }),
{
    let n = samples.len() as int;
    let h = wav_header_bytes(rate as int, n);
    let p = pcm16_bytes(samples);
    let b = h + p;
    lemma_pcm16_bytes(samples);
    lemma_prefix_facts(h, p, rate, n);
    lemma_scan_header(b, rate, n);
    lemma_samples_after_header(h, samples);
}

proof fn lemma_samples_after_header(h: Seq<u8>, samples: Seq<i16>)
    requires
        h.len() == 44,
    ensures
        forall|j: int|
            0 <= j < samples.len() ==> #[trigger] le_i16(h + pcm16_bytes(samples), 44 + 2 * j)
                == samples[j],
{
    let p = pcm16_bytes(samples);
    let b = h + p;
    lemma_pcm16_bytes(samples);
    assert forall|j: int| 0 <= j < samples.len() implies #[trigger] le_i16(b, 44 + 2 * j)
        == samples[j] by {
        assert(b[44 + 2 * j] == p[2 * j]);
        assert(b[44 + 2 * j + 1] == p[2 * j + 1]);
        assert(le_i16(p, 2 * j) == samples[j]);
    }
}

} // verus!
