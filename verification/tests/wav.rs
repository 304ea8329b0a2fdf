use octos_app::voice::resampled_len;
use octos_app::wav::{parse_wav_layout, pcm16_samples, push_pcm16, wav_header, WavError};

/// The float <-> PCM16 conversions the audio layer applies around the
/// byte framing.
fn to_pcm(x: f32) -> i16 {
    (x.clamp(-1.0, 1.0) * i16::MAX as f32).round() as i16
}

fn encode(samples: &[f32], rate: u32) -> Vec<u8> {
    let mut out = wav_header(rate, samples.len());
    let pcm: Vec<i16> = samples.iter().map(|s| to_pcm(*s)).collect();
    push_pcm16(&mut out, &pcm);
    out
}

fn decode(bytes: &[u8]) -> Result<(u32, Vec<f32>), String> {
    let layout = parse_wav_layout(bytes).map_err(|e| e.message())?;
    let raw = pcm16_samples(bytes, &layout);
    let ch = layout.channels as usize;
    Ok((
        layout.sample_rate,
        raw.chunks_exact(ch)
            .map(|f| f.iter().map(|p| *p as f32 / 32768.0).sum::<f32>() / ch as f32)
            .collect(),
    ))
}

#[test]
fn wav_roundtrip_preserves_shape() {
    let source = vec![-1.0, -0.25, 0.0, 0.25, 1.0];
    let wav = encode(&source, 16_000);
    let (rate, decoded) = decode(&wav).unwrap();
    assert_eq!(rate, 16_000);
    assert_eq!(decoded.len(), source.len());
    for (left, right) in source.iter().zip(decoded) {
        assert!((left - right).abs() < 0.0001);
    }
}

#[test]
fn resample_has_expected_duration() {
    assert_eq!(resampled_len(48_000, 48_000, 16_000), 16_000);
}

#[test]
fn header_is_canonical() {
    let h = wav_header(16_000, 3);
    assert_eq!(h.len(), 44);
    assert_eq!(&h[0..4], b"RIFF");
    assert_eq!(u32::from_le_bytes([h[4], h[5], h[6], h[7]]), 36 + 6);
    assert_eq!(&h[8..16], b"WAVEfmt ");
    assert_eq!(u32::from_le_bytes([h[24], h[25], h[26], h[27]]), 16_000);
    assert_eq!(u32::from_le_bytes([h[28], h[29], h[30], h[31]]), 32_000);
    assert_eq!(&h[36..40], b"data");
    assert_eq!(u32::from_le_bytes([h[40], h[41], h[42], h[43]]), 6);
}

#[test]
fn samples_round_trip_exactly() {
    let pcm = vec![i16::MIN, -1, 0, 1, i16::MAX];
    let mut bytes = wav_header(8_000, pcm.len());
    push_pcm16(&mut bytes, &pcm);
    let layout = parse_wav_layout(&bytes).unwrap();
    assert_eq!(layout.sample_rate, 8_000);
    assert_eq!(layout.channels, 1);
    assert_eq!((layout.data_start, layout.data_end), (44, 54));
    assert_eq!(pcm16_samples(&bytes, &layout), pcm);
}

#[test]
fn each_error_has_its_input() {
    assert_eq!(parse_wav_layout(b"RIFX0000WAVE"), Err(WavError::NotWav));
    assert_eq!(parse_wav_layout(b"RIFF"), Err(WavError::NotWav));
    // A chunk whose length runs past the buffer.
    let mut truncated = b"RIFF\0\0\0\0WAVEfmt ".to_vec();
    truncated.extend_from_slice(&100u32.to_le_bytes());
    assert_eq!(parse_wav_layout(&truncated), Err(WavError::ChunkTruncated));
    // No fmt chunk at all.
    let mut no_fmt = b"RIFF\0\0\0\0WAVEdata".to_vec();
    no_fmt.extend_from_slice(&0u32.to_le_bytes());
    assert_eq!(parse_wav_layout(&no_fmt), Err(WavError::MissingFmt));
    // Float samples are refused.
    let mut float = wav_header(16_000, 0);
    float[20] = 3;
    assert_eq!(
        parse_wav_layout(&float),
        Err(WavError::Unsupported { format: 3, channels: 1, bits: 16 })
    );
    // fmt but no data.
    let header = wav_header(16_000, 0);
    assert_eq!(parse_wav_layout(&header[..36]), Err(WavError::MissingData));
}

#[test]
fn error_messages() {
    assert_eq!(WavError::NotWav.message(), "TTS 回复不是有效 WAV");
    assert_eq!(WavError::ChunkTruncated.message(), "WAV chunk 被截断");
    assert_eq!(WavError::ChunkLengthOverflow.message(), "WAV chunk 长度溢出");
    assert_eq!(WavError::MissingFmt.message(), "WAV 缺少 fmt chunk");
    assert_eq!(WavError::MissingData.message(), "WAV 缺少 data chunk");
    assert_eq!(
        WavError::Unsupported { format: 3, channels: 2, bits: 32 }.message(),
        "暂不支持的 WAV 格式: format=3 channels=2 bits=32"
    );
}

#[test]
fn stereo_frames_and_odd_chunks() {
    // An odd-length extra chunk is padded to even before the next one.
    let mut b = b"RIFF\0\0\0\0WAVE".to_vec();
    b.extend_from_slice(b"LIST");
    b.extend_from_slice(&3u32.to_le_bytes());
    b.extend_from_slice(&[1, 2, 3, 0]);
    b.extend_from_slice(b"fmt ");
    b.extend_from_slice(&16u32.to_le_bytes());
    b.extend_from_slice(&1u16.to_le_bytes());
    b.extend_from_slice(&2u16.to_le_bytes());
    b.extend_from_slice(&44_100u32.to_le_bytes());
    b.extend_from_slice(&(44_100u32 * 4).to_le_bytes());
    b.extend_from_slice(&4u16.to_le_bytes());
    b.extend_from_slice(&16u16.to_le_bytes());
    b.extend_from_slice(b"data");
    b.extend_from_slice(&10u32.to_le_bytes());
    for s in [1i16, -1, 2, -2, 7] {
        b.extend_from_slice(&s.to_le_bytes());
    }
    let l = parse_wav_layout(&b).unwrap();
    assert_eq!((l.sample_rate, l.channels), (44_100, 2));
    // Two whole stereo frames; the fifth sample is a partial frame.
    assert_eq!(pcm16_samples(&b, &l), vec![1, -1, 2, -2]);
}
