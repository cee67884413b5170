//! Capture registry and recording format behaviour, exercised through
//! the public interface, with the produced file images cross-checked
//! against an independent WAV reader.

use capture_core::audio::{AudioCapture, AudioSource, CaptureError};
use capture_core::wav::{decode_wav, encode_wav, MAX_SAMPLES};

fn bits(samples: &[f32]) -> Vec<u32> {
    samples.iter().map(|s| s.to_bits()).collect()
}

#[test]
fn test_audio_capture() {
    let mut capture = AudioCapture::new(44100, 2);
    let output_path = String::from("test_output.wav");

    capture
        .start_capture(output_path, AudioSource::LocalMicrophone)
        .expect("start should succeed");
    let recording = capture
        .stop_capture(AudioSource::LocalMicrophone)
        .expect("an active session must yield a recording");

    assert_eq!(recording.output_path, "test_output.wav");
    assert!(!recording.bytes.is_empty());
}

#[test]
fn start_stop_produces_correct_header() {
    let mut capture = AudioCapture::new(44100, 2);
    capture
        .start_capture("local_recording.wav".to_string(), AudioSource::LocalMicrophone)
        .unwrap();
    let fed = bits(&[0.0f32, 0.25, -0.5, 1.0]);
    assert_eq!(capture.append_samples(AudioSource::LocalMicrophone, &fed), 0);
    let rec = capture.stop_capture(AudioSource::LocalMicrophone).unwrap();

    let decoded = decode_wav(&rec.bytes).expect("the image must decode");
    assert_eq!(decoded.sample_rate, 44100);
    assert_eq!(decoded.channels, 2);
    assert_eq!(decoded.samples, fed);

    // Cross-check with an independent reader: the file is playable and
    // carries the configured format.
    let reader = hound::WavReader::new(std::io::Cursor::new(rec.bytes.clone())).unwrap();
    let spec = reader.spec();
    assert_eq!(spec.sample_rate, 44100);
    assert_eq!(spec.channels, 2);
    assert_eq!(spec.bits_per_sample, 32);
    assert_eq!(spec.sample_format, hound::SampleFormat::Float);
    let read: Vec<f32> = reader.into_samples::<f32>().map(|s| s.unwrap()).collect();
    assert_eq!(bits(&read), fed);
}

#[test]
fn stop_without_session_is_noop_success() {
    let mut capture = AudioCapture::new(48000, 1);
    assert!(capture.stop_capture(AudioSource::LocalMicrophone).is_none());
    assert!(capture.stop_capture(AudioSource::RemoteAudio).is_none());
    // The registry is still usable afterwards.
    capture
        .start_capture("local_recording.wav".to_string(), AudioSource::LocalMicrophone)
        .unwrap();
    assert!(capture.stop_capture(AudioSource::LocalMicrophone).is_some());
    assert!(capture.stop_capture(AudioSource::LocalMicrophone).is_none());
}

#[test]
fn concurrent_sources_are_isolated() {
    let mut capture = AudioCapture::new(44100, 2);
    capture
        .start_capture("local_recording.wav".to_string(), AudioSource::LocalMicrophone)
        .unwrap();
    capture
        .start_capture("remote_recording.wav".to_string(), AudioSource::RemoteAudio)
        .unwrap();

    let local_fed = bits(&[0.1f32, 0.2, 0.3]);
    let remote_fed = bits(&[-0.9f32, -0.8]);
    assert_eq!(capture.append_samples(AudioSource::LocalMicrophone, &local_fed), 0);
    assert_eq!(capture.append_samples(AudioSource::RemoteAudio, &remote_fed), 0);
    assert_eq!(capture.append_samples(AudioSource::LocalMicrophone, &bits(&[0.4f32])), 0);

    let local_rec = capture.stop_capture(AudioSource::LocalMicrophone).unwrap();
    let remote_rec = capture.stop_capture(AudioSource::RemoteAudio).unwrap();

    let local = decode_wav(&local_rec.bytes).unwrap();
    let remote = decode_wav(&remote_rec.bytes).unwrap();
    assert_eq!(local.samples, bits(&[0.1f32, 0.2, 0.3, 0.4]));
    assert_eq!(remote.samples, bits(&[-0.9f32, -0.8]));
    assert_eq!(local_rec.output_path, "local_recording.wav");
    assert_eq!(remote_rec.output_path, "remote_recording.wav");
}

#[test]
fn no_samples_reach_a_stopped_source() {
    let mut capture = AudioCapture::new(44100, 2);
    capture
        .start_capture("local_recording.wav".to_string(), AudioSource::LocalMicrophone)
        .unwrap();
    assert_eq!(capture.append_samples(AudioSource::LocalMicrophone, &bits(&[0.5f32])), 0);
    let rec = capture.stop_capture(AudioSource::LocalMicrophone).unwrap();

    // A late hardware callback after stop: every sample is rejected.
    let late = bits(&[0.7f32, 0.8, 0.9]);
    assert_eq!(capture.append_samples(AudioSource::LocalMicrophone, &late), late.len());

    // The finalized recording holds exactly the pre-stop samples.
    let decoded = decode_wav(&rec.bytes).unwrap();
    assert_eq!(decoded.samples, bits(&[0.5f32]));
}

#[test]
fn one_second_of_tone_is_kept_whole() {
    let rate: u32 = 44100;
    let channels: u16 = 1;
    let mut capture = AudioCapture::new(rate, channels);
    capture
        .start_capture("local_recording.wav".to_string(), AudioSource::LocalMicrophone)
        .unwrap();

    // One second of a 440 Hz tone, fed in hardware-sized buffers.
    let tone: Vec<f32> = (0..44100)
        .map(|i| (2.0 * std::f32::consts::PI * 440.0 * (i as f32) / 44100.0).sin())
        .collect();
    let fed = bits(&tone);
    for chunk in fed.chunks(441) {
        assert_eq!(capture.append_samples(AudioSource::LocalMicrophone, &chunk.to_vec()), 0);
    }
    let rec = capture.stop_capture(AudioSource::LocalMicrophone).unwrap();

    let decoded = decode_wav(&rec.bytes).unwrap();
    assert_eq!(decoded.sample_rate, 44100);
    assert_eq!(decoded.channels, 1);
    assert_eq!(decoded.samples.len(), 44100);
    assert_eq!(decoded.samples, fed);

    let reader = hound::WavReader::new(std::io::Cursor::new(rec.bytes.clone())).unwrap();
    assert_eq!(reader.duration(), 44100);
}

#[test]
fn restart_keeps_exactly_one_session() {
    let mut capture = AudioCapture::new(44100, 2);
    capture
        .start_capture("remote_recording.wav".to_string(), AudioSource::RemoteAudio)
        .unwrap();
    assert_eq!(capture.append_samples(AudioSource::RemoteAudio, &bits(&[0.1f32, 0.2])), 0);

    // Starting again without a stop finalizes the first session rather
    // than leaking it.
    let prev = capture
        .start_capture("remote_recording.wav".to_string(), AudioSource::RemoteAudio)
        .unwrap()
        .expect("the first session must be handed back");
    let first = decode_wav(&prev.bytes).unwrap();
    assert_eq!(first.samples, bits(&[0.1f32, 0.2]));

    // Subsequent writes reach only the new session.
    assert_eq!(capture.append_samples(AudioSource::RemoteAudio, &bits(&[0.9f32])), 0);
    let rec = capture.stop_capture(AudioSource::RemoteAudio).unwrap();
    let second = decode_wav(&rec.bytes).unwrap();
    assert_eq!(second.samples, bits(&[0.9f32]));

    // Exactly one session remained active in between: nothing further
    // to stop now.
    assert!(capture.stop_capture(AudioSource::RemoteAudio).is_none());
}

#[test]
fn unsupported_format_is_rejected() {
    let mut capture = AudioCapture::new(44100, 0);
    let r = capture.start_capture("local_recording.wav".to_string(), AudioSource::LocalMicrophone);
    assert!(matches!(r, Err(CaptureError::UnsupportedFormat)));
    assert!(capture.stop_capture(AudioSource::LocalMicrophone).is_none());

    let mut zero_rate = AudioCapture::new(0, 2);
    let r = zero_rate.start_capture("local_recording.wav".to_string(), AudioSource::LocalMicrophone);
    assert!(matches!(r, Err(CaptureError::UnsupportedFormat)));
    assert_eq!(
        CaptureError::UnsupportedFormat.message(),
        "The configured audio format is not supported."
    );
}

#[test]
fn encoded_image_is_byte_exact() {
    let samples = vec![1.0f32.to_bits()];
    let image = encode_wav(8000, 1, &samples);
    let mut expected: Vec<u8> = Vec::new();
    expected.extend_from_slice(b"RIFF");
    expected.extend_from_slice(&40u32.to_le_bytes()); // 36 + 4 bytes of data
    expected.extend_from_slice(b"WAVE");
    expected.extend_from_slice(b"fmt ");
    expected.extend_from_slice(&16u32.to_le_bytes()); // fmt chunk size
    expected.extend_from_slice(&3u16.to_le_bytes()); // IEEE float
    expected.extend_from_slice(&1u16.to_le_bytes()); // channels
    expected.extend_from_slice(&8000u32.to_le_bytes()); // sample rate
    expected.extend_from_slice(&32000u32.to_le_bytes()); // byte rate
    expected.extend_from_slice(&4u16.to_le_bytes()); // block align
    expected.extend_from_slice(&32u16.to_le_bytes()); // bits per sample
    expected.extend_from_slice(b"data");
    expected.extend_from_slice(&4u32.to_le_bytes()); // data length
    expected.extend_from_slice(&1.0f32.to_bits().to_le_bytes());
    assert_eq!(image, expected);
}

#[test]
fn corrupt_images_are_rejected_without_panic() {
    assert!(decode_wav(&Vec::new()).is_none());
    assert!(decode_wav(&vec![0u8; 10]).is_none());
    assert!(decode_wav(&vec![0u8; 44]).is_none());

    // A well-formed image, then damaged in single places.
    let good = encode_wav(44100, 2, &bits(&[0.5f32, -0.5]));
    assert!(decode_wav(&good).is_some());
    let mut bad_tag = good.clone();
    bad_tag[0] = b'X';
    assert!(decode_wav(&bad_tag).is_none());
    let mut bad_len = good.clone();
    bad_len[4] = bad_len[4].wrapping_add(1);
    assert!(decode_wav(&bad_len).is_none());
    let mut truncated = good.clone();
    truncated.pop();
    assert!(decode_wav(&truncated).is_none());
}

#[test]
fn source_identity_and_paths() {
    assert_eq!(AudioSource::from_name("local"), AudioSource::LocalMicrophone);
    assert_eq!(AudioSource::from_name("remote"), AudioSource::RemoteAudio);
    assert_eq!(AudioSource::from_name("anything else"), AudioSource::RemoteAudio);
    assert_eq!(AudioSource::LocalMicrophone.recording_path(), "local_recording.wav");
    assert_eq!(AudioSource::RemoteAudio.recording_path(), "remote_recording.wav");
    assert_ne!(AudioSource::LocalMicrophone, AudioSource::RemoteAudio);
}

#[test]
fn max_samples_matches_header_capacity() {
    // The cap keeps every 32-bit header field in range.
    assert!(4u64 * (MAX_SAMPLES as u64) + 36 <= u32::MAX as u64);
}
