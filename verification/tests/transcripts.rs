//! Transcription service behaviour: model availability guarding,
//! recording validation, and transcript assembly.

use capture_core::audio::{AudioCapture, AudioSource};
use capture_core::transcription::{
    assemble_transcript, collect_transcript, transcribe_request, TranscribeError, Transcriber,
};
use capture_core::wav::encode_wav;

#[test]
fn silent_recording_transcribes_to_empty_text() {
    // A zero-length recording is a well-formed file, not an error.
    let transcriber = Transcriber::new(true);
    let empty_recording = encode_wav(44100, 2, &Vec::new());
    let decoded = transcriber
        .transcribe_audio(&empty_recording)
        .expect("an empty recording must decode");
    assert_eq!(decoded.samples.len(), 0);
    assert_eq!(decoded.sample_rate, 44100);

    // An engine given silence emits no segments; the transcript is the
    // empty string, not a failure.
    assert_eq!(assemble_transcript(&Vec::new()), "");
}

#[test]
fn corrupt_recording_reports_format_error() {
    let transcriber = Transcriber::new(true);
    assert!(matches!(
        transcriber.transcribe_audio(&Vec::new()),
        Err(TranscribeError::FormatError)
    ));
    assert!(matches!(
        transcriber.transcribe_audio(&vec![0u8; 100]),
        Err(TranscribeError::FormatError)
    ));
    let mut damaged = encode_wav(16000, 1, &vec![0u32; 4]);
    damaged[20] = 1; // PCM format tag instead of IEEE float
    assert!(matches!(
        transcriber.transcribe_audio(&damaged),
        Err(TranscribeError::FormatError)
    ));
}

#[test]
fn missing_model_rejects_without_attempting() {
    let transcriber = Transcriber::new(false);
    assert!(!transcriber.is_ready());

    // Even a perfectly valid recording is rejected up front.
    let good = encode_wav(44100, 2, &vec![0x3f800000u32]);
    let r = transcriber.transcribe_audio(&good);
    assert!(matches!(r, Err(TranscribeError::ModelUnavailable)));
    assert_eq!(
        TranscribeError::ModelUnavailable.message(),
        "Speech recognition is not available. Please download the Whisper model."
    );
}

#[test]
fn transcribe_request_stops_capture_first() {
    let mut capture = AudioCapture::new(44100, 2);
    capture
        .start_capture("local_recording.wav".to_string(), AudioSource::LocalMicrophone)
        .unwrap();
    capture.append_samples(AudioSource::LocalMicrophone, &vec![7u32, 8u32]);

    let ready = Transcriber::new(true);
    let (finalized, decision) = transcribe_request(&mut capture, &ready, AudioSource::LocalMicrophone);
    assert!(decision.is_ok());
    let rec = finalized.expect("the active session is finalized");
    assert_eq!(rec.output_path, "local_recording.wav");
    assert!(capture.stop_capture(AudioSource::LocalMicrophone).is_none());
}

#[test]
fn transcribe_request_without_model_still_stops() {
    let mut capture = AudioCapture::new(44100, 2);
    capture
        .start_capture("remote_recording.wav".to_string(), AudioSource::RemoteAudio)
        .unwrap();
    capture.append_samples(AudioSource::RemoteAudio, &vec![5u32, 6u32]);

    let unavailable = Transcriber::new(false);
    let (finalized, decision) = transcribe_request(&mut capture, &unavailable, AudioSource::RemoteAudio);
    assert!(matches!(decision, Err(TranscribeError::ModelUnavailable)));
    // The capture was stopped all the same, and the finalized
    // recording is still handed back so its samples can be persisted:
    // an unavailable model never costs the user their audio.
    let rec = finalized.expect("the finalized recording survives the error");
    assert_eq!(rec.output_path, "remote_recording.wav");
    let decoded = capture_core::wav::decode_wav(&rec.bytes).unwrap();
    assert_eq!(decoded.samples, vec![5u32, 6u32]);
    assert!(capture.stop_capture(AudioSource::RemoteAudio).is_none());
}

#[test]
fn segments_join_with_single_spaces_and_trim() {
    let segments = vec![" Hello".to_string(), " world.".to_string()];
    assert_eq!(assemble_transcript(&segments), "Hello  world.");

    let one = vec!["  padded  ".to_string()];
    assert_eq!(assemble_transcript(&one), "padded");

    let blanks = vec!["\t".to_string(), "\n".to_string(), " ".to_string()];
    assert_eq!(assemble_transcript(&blanks), "");

    let kept = vec!["a".to_string(), "b".to_string(), "c".to_string()];
    assert_eq!(assemble_transcript(&kept), "a b c");
}

#[test]
fn inference_failure_message_is_fixed() {
    assert_eq!(TranscribeError::InferenceFailed.message(), "Failed to process audio.");
    assert_eq!(
        TranscribeError::FormatError.message(),
        "The recording is not a readable audio file."
    );
}

#[test]
fn failed_segment_retrieval_fails_the_whole_transcription() {
    let all_good = vec![Some(" One".to_string()), Some(" two.".to_string())];
    assert_eq!(collect_transcript(&all_good).unwrap(), "One  two.");

    let one_missing = vec![Some(" One".to_string()), None, Some(" three.".to_string())];
    assert!(matches!(
        collect_transcript(&one_missing),
        Err(TranscribeError::InferenceFailed)
    ));

    let empty: Vec<Option<String>> = Vec::new();
    assert_eq!(collect_transcript(&empty).unwrap(), "");
}

#[test]
fn trim_covers_unicode_whitespace() {
    let segments = vec!["\u{00a0}\u{2003}wide blanks\u{3000}".to_string()];
    assert_eq!(assemble_transcript(&segments), "wide blanks");
}
