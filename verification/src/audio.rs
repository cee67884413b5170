//! Capture sessions: per-source sample sinks and the registry that
//! owns them.
//!
//! The registry keeps at most one active session per [`AudioSource`].
//! While a session is active, arriving sample buffers are appended to
//! its sink in order; stopping the session consumes the sink and
//! yields the finalized file image, after which no further samples can
//! reach that recording. Starting a source that is already active
//! finalizes the old session first, so no sink is ever dropped
//! unfinalized and no stream is silently leaked.

use crate::wav;
use vstd::prelude::*;
use vstd::string::*;

verus! {

/// Identity of an independent audio channel. Values are compared by
/// equality and serve as the sole key distinguishing concurrent
/// capture sessions; there is no ordering between them.
#[derive(Debug, Clone, Copy, PartialEq, Eq, Structural)]
pub enum AudioSource {
    LocalMicrophone,
    RemoteAudio,
}

impl AudioSource {
    /// The fixed, predictable output path for this source's recording.
    /// Each new session for the source overwrites the same file.
    pub fn recording_path(&self) -> (r: &'static str)
        ensures
            *self == AudioSource::LocalMicrophone ==> r@ == "local_recording.wav"@,
            *self == AudioSource::RemoteAudio ==> r@ == "remote_recording.wav"@,
    {
        match self {
            AudioSource::LocalMicrophone => "local_recording.wav",
            AudioSource::RemoteAudio => "remote_recording.wav",
        }
    }

    /// The source a command string names: "local" names the
    /// microphone; any other name the remote channel.
    pub fn from_name(name: &str) -> (r: AudioSource)
        ensures
            name@ == "local"@ ==> r == AudioSource::LocalMicrophone,
            name@ != "local"@ ==> r == AudioSource::RemoteAudio,
    {
        let n = name.to_owned();
        let local = String::from_str("local");
        if n == local {
            AudioSource::LocalMicrophone
        } else {
            AudioSource::RemoteAudio
        }
    }
}

/// Why a capture session could not be started.
#[derive(Debug, Clone, Copy, PartialEq, Eq, Structural)]
pub enum CaptureError {
    /// The configured sample rate and channel count cannot be
    /// expressed by the recording container.
    UnsupportedFormat,
}

impl CaptureError {
    /// A fixed human-readable description, for the command surface.
    pub fn message(&self) -> (r: &'static str)
        ensures
            r@ == "The configured audio format is not supported."@,
    {
        "The configured audio format is not supported."
    }
}

/// The mathematical value of a [`SampleSink`]: its fixed format and
/// the samples appended so far, in arrival order.
#[verifier::ext_equal]
pub struct SinkModel {
    pub sample_rate: u32,
    pub channels: u16,
    pub samples: Seq<u32>,
}

/// The durable endpoint of one capture session. The format is fixed at
/// creation; samples accumulate in order; `finalize` consumes the sink
/// and yields the complete file image, so writing after finalization
/// is ruled out by ownership rather than by a runtime flag.
pub struct SampleSink {
    sample_rate: u32,
    channels: u16,
    samples: Vec<u32>,
}

impl View for SampleSink {
    type V = SinkModel;

    closed spec fn view(&self) -> SinkModel {
        SinkModel {
            sample_rate: self.sample_rate,
            channels: self.channels,
            samples: self.samples@,
        }
    }
}

impl SampleSink {
    /// The sink's invariant: an expressible format and a sample count
    /// the container can still finalize.
    pub open spec fn inv(&self) -> bool {
        &&& wav::valid_format(self@.sample_rate, self@.channels)
        &&& self@.samples.len() <= wav::MAX_SAMPLES
    }

    /// Opens a fresh, empty sink for the given format. Fails exactly
    /// when the container cannot express the format.
    pub fn create(sample_rate: u32, channels: u16) -> (r: Result<SampleSink, CaptureError>)
        ensures
            wav::valid_format(sample_rate, channels) <==> r is Ok,
            r matches Ok(s) ==> s.inv() && s@ == (SinkModel {
                sample_rate,
                channels,
                samples: Seq::empty(),
            }),
            r matches Err(e) ==> e == CaptureError::UnsupportedFormat,
    {
        if wav::format_is_valid(sample_rate, channels) {
            Ok(SampleSink { sample_rate, channels, samples: Vec::new() })
        } else {
            Err(CaptureError::UnsupportedFormat)
        }
    }

    /// Appends the buffer's samples in order, best effort: the samples
    /// that no longer fit under [`wav::MAX_SAMPLES`] are rejected
    /// without aborting the rest, and their count is returned for
    /// diagnostics. A buffer that fits entirely is appended entirely.
    pub fn write(&mut self, buffer: &Vec<u32>) -> (failed: usize)
        requires
            old(self).inv(),
        ensures
            final(self).inv(),
            final(self)@.sample_rate == old(self)@.sample_rate,
            final(self)@.channels == old(self)@.channels,
            failed <= buffer@.len(),
            final(self)@.samples == old(self)@.samples + buffer@.take(
                buffer@.len() - failed,
            ),
            failed as int == if old(self)@.samples.len() + buffer@.len()
                <= wav::MAX_SAMPLES {
                0
            } else {
                old(self)@.samples.len() + buffer@.len() - wav::MAX_SAMPLES
            },
    {
        let len: usize = buffer.len();
        let capacity: usize = wav::MAX_SAMPLES - self.samples.len();
        let accepted: usize = if len <= capacity {
            len
        } else {
            capacity
        };
        let mut i: usize = 0;
        while i < accepted
            invariant
                i <= accepted,
                accepted <= len,
                len == buffer@.len(),
                self.samples@ == old(self)@.samples + buffer@.take(i as int),
                self.samples@.len() <= wav::MAX_SAMPLES,
                accepted <= wav::MAX_SAMPLES - old(self)@.samples.len(),
                self.sample_rate == old(self)@.sample_rate,
                self.channels == old(self)@.channels,
            decreases accepted - i,
        {
            let x: u32 = buffer[i];
            self.samples.push(x);
            proof {
                assert(buffer@.take(i as int).push(x) =~= buffer@.take(i as int + 1));
            }
            i = i + 1;
        }
        len - accepted
    }

    /// Consumes the sink and returns the finalized recording: the
    /// complete, correctly-headered file image of everything appended.
    pub fn finalize(self) -> (r: Vec<u8>)
        requires
            self.inv(),
        ensures
            r@ == wav::wav_bytes(self@.sample_rate, self@.channels, self@.samples),
    {
        wav::encode_wav(self.sample_rate, self.channels, &self.samples)
    }
}

/// A recording handed back when its session stops: the file image and
/// the path it is destined for. Persisting the bytes is the caller's
/// part; the image itself is already complete.
pub struct FinalizedRecording {
    pub output_path: String,
    pub bytes: Vec<u8>,
}

/// One active capture session: the sink accumulating the session's
/// samples and the output path chosen when the session started.
struct CaptureSession {
    output_path: String,
    sink: SampleSink,
}

/// The mathematical value of one active session.
#[verifier::ext_equal]
pub struct SessionModel {
    pub output_path: Seq<char>,
    pub samples: Seq<u32>,
}

/// The mathematical value of the registry: the configured format and
/// at most one session per source.
#[verifier::ext_equal]
pub struct RegistryModel {
    pub sample_rate: u32,
    pub channels: u16,
    pub local: Option<SessionModel>,
    pub remote: Option<SessionModel>,
}

impl RegistryModel {
    /// The session held for `source`, if any.
    pub open spec fn session(&self, source: AudioSource) -> Option<SessionModel> {
        match source {
            AudioSource::LocalMicrophone => self.local,
            AudioSource::RemoteAudio => self.remote,
        }
    }
}

/// The capture registry: owns at most one active session per source,
/// all sharing the format fixed at construction. Arriving buffers are
/// routed to the named source's sink; stopping a source consumes its
/// session and yields the finalized recording.
pub struct AudioCapture {
    sample_rate: u32,
    channels: u16,
    local: Option<CaptureSession>,
    remote: Option<CaptureSession>,
}

impl View for AudioCapture {
    type V = RegistryModel;

    closed spec fn view(&self) -> RegistryModel {
        RegistryModel {
            sample_rate: self.sample_rate,
            channels: self.channels,
            local: match self.local {
                Some(s) => Some(SessionModel { output_path: s.output_path@, samples: s.sink@.samples }),
                None => None,
            },
            remote: match self.remote {
                Some(s) => Some(SessionModel { output_path: s.output_path@, samples: s.sink@.samples }),
                None => None,
            },
        }
    }
}

impl AudioCapture {
    /// The registry's invariant: every held sink is well formed and
    /// carries the configured format.
    pub closed spec fn inv(&self) -> bool {
        &&& match self.local {
            Some(s) => s.sink.inv() && s.sink@.sample_rate == self.sample_rate
                && s.sink@.channels == self.channels,
            None => true,
        }
        &&& match self.remote {
            Some(s) => s.sink.inv() && s.sink@.sample_rate == self.sample_rate
                && s.sink@.channels == self.channels,
            None => true,
        }
    }

    /// A fresh registry for the given format, with no active session.
    /// The format is not validated here; an inexpressible format is
    /// rejected by `start_capture`.
    pub fn new(sample_rate: u32, channels: u16) -> (r: AudioCapture)
        ensures
            r.inv(),
            r@ == (RegistryModel { sample_rate, channels, local: None, remote: None }),
    {
        AudioCapture { sample_rate, channels, local: None, remote: None }
    }

    /// Starts a capture session for `source`, recording to
    /// `output_path`. If the source is already active, its old session
    /// is stopped and finalized first — never silently dropped — and
    /// the old recording is handed back; subsequent samples for the
    /// source reach only the new session. Fails exactly when the
    /// configured format cannot be expressed, leaving the registry
    /// unchanged. Other sources' sessions are never affected.
    pub fn start_capture(&mut self, output_path: String, source: AudioSource) -> (r: Result<
        Option<FinalizedRecording>,
        CaptureError,
    >)
        requires
            old(self).inv(),
        ensures
            final(self).inv(),
            final(self)@.sample_rate == old(self)@.sample_rate,
            final(self)@.channels == old(self)@.channels,
            r is Ok <==> wav::valid_format(old(self)@.sample_rate, old(self)@.channels),
            r matches Err(e) ==> e == CaptureError::UnsupportedFormat && final(self)@ == old(
                self,
            )@,
            r is Ok ==> final(self)@.session(source) == Some(
                (SessionModel { output_path: output_path@, samples: Seq::empty() }),
            ),
            r is Ok ==> forall|other: AudioSource|
                other != source ==> final(self)@.session(other) == old(self)@.session(other),
            r matches Ok(prev) ==> match old(self)@.session(source) {
                None => prev is None,
                Some(m) => prev matches Some(rec) && rec.output_path@ == m.output_path
                    && rec.bytes@ == wav::wav_bytes(
                    old(self)@.sample_rate,
                    old(self)@.channels,
                    m.samples,
                ),
            },
    {
        if !wav::format_is_valid(self.sample_rate, self.channels) {
            return Err(CaptureError::UnsupportedFormat);
        }
        let prev = self.stop_capture(source);
        let sink = match SampleSink::create(self.sample_rate, self.channels) {
            Ok(s) => s,
            Err(e) => {
                return Err(e);
            },
        };
        let session = CaptureSession { output_path, sink };
        match source {
            AudioSource::LocalMicrophone => {
                self.local = Some(session);
            },
            AudioSource::RemoteAudio => {
                self.remote = Some(session);
            },
        }
        Ok(prev)
    }

    /// Routes an arriving sample buffer to `source`'s active session,
    /// best effort: returns the count of samples that were not
    /// appended. A buffer for a source with no active session — for
    /// instance a late hardware callback after `stop_capture` — is
    /// rejected whole and changes nothing, so no sample ever reaches a
    /// finalized recording. Other sources' sessions are never affected.
    pub fn append_samples(&mut self, source: AudioSource, buffer: &Vec<u32>) -> (failed: usize)
        requires
            old(self).inv(),
        ensures
            final(self).inv(),
            final(self)@.sample_rate == old(self)@.sample_rate,
            final(self)@.channels == old(self)@.channels,
            failed <= buffer@.len(),
            forall|other: AudioSource|
                other != source ==> final(self)@.session(other) == old(self)@.session(other),
            match old(self)@.session(source) {
                None => final(self)@ == old(self)@ && failed == buffer@.len(),
                Some(m) => {
                    &&& final(self)@.session(source) == Some(
                        (SessionModel {
                            output_path: m.output_path,
                            samples: m.samples + buffer@.take(buffer@.len() - failed),
                        }),
                    )
                    &&& failed as int == if m.samples.len() + buffer@.len()
                        <= wav::MAX_SAMPLES {
                        0
                    } else {
                        m.samples.len() + buffer@.len() - wav::MAX_SAMPLES
                    }
                },
            },
    {
        match source {
            AudioSource::LocalMicrophone => match &mut self.local {
                Some(session) => session.sink.write(buffer),
                None => buffer.len(),
            },
            AudioSource::RemoteAudio => match &mut self.remote {
                Some(session) => session.sink.write(buffer),
                None => buffer.len(),
            },
        }
    }

    /// Stops `source`'s capture session, if one is active: the session
    /// is removed and its sink finalized, and the complete recording is
    /// returned together with its output path. Stopping a source with
    /// no active session is a no-op that succeeds with nothing to hand
    /// back. Other sources' sessions are never affected.
    pub fn stop_capture(&mut self, source: AudioSource) -> (r: Option<FinalizedRecording>)
        requires
            old(self).inv(),
        ensures
            final(self).inv(),
            final(self)@.sample_rate == old(self)@.sample_rate,
            final(self)@.channels == old(self)@.channels,
            final(self)@.session(source) is None,
            forall|other: AudioSource|
                other != source ==> final(self)@.session(other) == old(self)@.session(other),
            match old(self)@.session(source) {
                None => r is None && final(self)@ == old(self)@,
                Some(m) => r matches Some(rec) && rec.output_path@ == m.output_path
                    && rec.bytes@ == wav::wav_bytes(
                    old(self)@.sample_rate,
                    old(self)@.channels,
                    m.samples,
                ),
            },
    {
        let mut taken: Option<CaptureSession> = None;
        match source {
            AudioSource::LocalMicrophone => {
                core::mem::swap(&mut taken, &mut self.local);
            },
            AudioSource::RemoteAudio => {
                core::mem::swap(&mut taken, &mut self.remote);
            },
        }
        match taken {
            None => None,
            Some(session) => Some(
                FinalizedRecording {
                    output_path: session.output_path,
                    bytes: session.sink.finalize(),
                },
            ),
        }
    }
}

} // verus!
