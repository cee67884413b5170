//! Transcription orchestration: validates finalized recordings, guards
//! the optional recognition model, and assembles segment text.
//!
//! The recognition engine itself is an outside black box driven by the
//! surrounding application; this module owns every decision around it:
//! whether a request may proceed at all, whether the recording is well
//! formed, which samples the engine is given, and how its segments are
//! joined into the final transcript.

use crate::audio::AudioCapture;
use crate::audio::AudioSource;
use crate::audio::FinalizedRecording;
use crate::wav;
use vstd::prelude::*;
use vstd::string::*;

verus! {

/// Why a transcription request failed.
#[derive(Debug, Clone, Copy, PartialEq, Eq, Structural)]
pub enum TranscribeError {
    /// No recognition model was loaded at startup; the request was
    /// rejected without attempting inference.
    ModelUnavailable,
    /// The recording is not a well-formed WAV file of the supported
    /// format.
    FormatError,
    /// The recognition engine reported a failure; no partial text is
    /// returned.
    InferenceFailed,
}

impl TranscribeError {
    /// A fixed human-readable description, for the command surface.
    pub fn message(&self) -> (r: &'static str)
        ensures
            *self == TranscribeError::ModelUnavailable ==> r@
                == "Speech recognition is not available. Please download the Whisper model."@,
            *self == TranscribeError::FormatError ==> r@
                == "The recording is not a readable audio file."@,
            *self == TranscribeError::InferenceFailed ==> r@ == "Failed to process audio."@,
    {
        match self {
            TranscribeError::ModelUnavailable => {
                "Speech recognition is not available. Please download the Whisper model."
            },
            TranscribeError::FormatError => "The recording is not a readable audio file.",
            TranscribeError::InferenceFailed => "Failed to process audio.",
        }
    }
}

/// The blank characters stripped from a transcript's edges: the
/// characters with the Unicode White_Space property, as `str::trim`
/// removes them.
pub open spec fn is_space(c: char) -> bool {
    let u = c as u32;
    ||| (0x09 <= u && u <= 0x0d)
    ||| u == 0x20
    ||| u == 0x85
    ||| u == 0xa0
    ||| u == 0x1680
    ||| (0x2000 <= u && u <= 0x200a)
    ||| u == 0x2028
    ||| u == 0x2029
    ||| u == 0x202f
    ||| u == 0x205f
    ||| u == 0x3000
}

/// The transcript before trimming: every segment in emission order,
/// each followed by a single space.
pub open spec fn joined_segments(segments: Seq<Seq<char>>) -> Seq<char>
    decreases segments.len(),
{
    if segments.len() == 0 {
        Seq::empty()
    } else {
        joined_segments(segments.drop_last()) + segments.last() + seq![' ']
    }
}

pub open spec fn trim_front(s: Seq<char>) -> Seq<char>
    decreases s.len(),
{
    if s.len() > 0 && is_space(s.first()) {
        trim_front(s.drop_first())
    } else {
        s
    }
}

pub open spec fn trim_back(s: Seq<char>) -> Seq<char>
    decreases s.len(),
{
    if s.len() > 0 && is_space(s.last()) {
        trim_back(s.drop_last())
    } else {
        s
    }
}

/// `s` without its leading and trailing blanks.
pub open spec fn trimmed(s: Seq<char>) -> Seq<char> {
    trim_back(trim_front(s))
}

proof fn lemma_trim_front_skip(s: Seq<char>, i: int)
    requires
        0 <= i <= s.len(),
        forall|k: int| 0 <= k < i ==> is_space(s[k]),
    ensures
        trim_front(s) == trim_front(s.skip(i)),
    decreases i,
{
    if i == 0 {
        assert(s.skip(0) =~= s);
    } else {
        assert(is_space(s.first()));
        lemma_trim_front_skip(s.drop_first(), i - 1);
        assert(s.drop_first().skip(i - 1) =~= s.skip(i));
    }
}

proof fn lemma_trim_back_take(s: Seq<char>, j: int)
    requires
        0 <= j <= s.len(),
        forall|k: int| j <= k < s.len() ==> is_space(s[k]),
    ensures
        trim_back(s) == trim_back(s.take(j)),
    decreases s.len() - j,
{
    if j == s.len() {
        assert(s.take(j) =~= s);
    } else {
        assert(is_space(s.last()));
        lemma_trim_back_take(s.drop_last(), j);
        assert(s.drop_last().take(j) =~= s.take(j));
    }
}

/// Joins recognition segments into the final transcript: the segments
/// in emission order, separated by single spaces, with surrounding
/// blanks trimmed. An empty segment list yields the empty string.
pub fn assemble_transcript(segments: &Vec<String>) -> (r: String)
    ensures
        r@ == trimmed(joined_segments(segments.deep_view())),
{
    let ghost segs = segments.deep_view();
    let mut text = String::new();
    let count: usize = segments.len();
    let mut i: usize = 0;
    proof {
        reveal_strlit(" ");
    }
    while i < count
        invariant
            i <= count,
            count == segs.len(),
            segs == segments.deep_view(),
            text@ == joined_segments(segs.take(i as int)),
        decreases count - i,
    {
        text.append(segments[i].as_str());
        text.append(" ");
        proof {
            reveal_strlit(" ");
            assert(" "@ =~= seq![' ']);
            assert(segs.take(i as int + 1).drop_last() =~= segs.take(i as int));
            assert(segs.take(i as int + 1).last() == segs[i as int]);
            assert(segs[i as int] == segments@[i as int]@);
            assert(text@ =~= joined_segments(segs.take(i as int + 1)));
        }
        i = i + 1;
    }
    proof {
        assert(segs.take(count as int) =~= segs);
    }

    let joined: &str = text.as_str();
    let total: usize = joined.unicode_len();
    let mut start: usize = 0;
    while start < total && is_space_char(joined.get_char(start))
        invariant
            0 <= start <= total,
            total == joined@.len(),
            forall|k: int| 0 <= k < start ==> is_space(joined@[k]),
        decreases total - start,
    {
        start = start + 1;
    }
    let mut end: usize = total;
    while end > start && is_space_char(joined.get_char(end - 1))
        invariant
            start <= end <= total,
            total == joined@.len(),
            forall|k: int| end <= k < total ==> is_space(joined@[k]),
        decreases end,
    {
        end = end - 1;
    }
    proof {
        lemma_trim_front_skip(joined@, start as int);
        assert(trim_front(joined@.skip(start as int)) == joined@.skip(start as int));
        let t = joined@.skip(start as int);
        lemma_trim_back_take(t, end - start);
        assert(trim_back(t.take(end - start)) == t.take(end - start));
        assert(t.take(end - start) =~= joined@.subrange(start as int, end as int));
    }
    let out: &str = joined.substring_char(start, end);
    String::from_str(out)
}

fn is_space_char(c: char) -> (r: bool)
    ensures
        r == is_space(c),
{
    let u: u32 = c as u32;
    (0x09 <= u && u <= 0x0d) || u == 0x20 || u == 0x85 || u == 0xa0 || u == 0x1680 || (0x2000 <= u
        && u <= 0x200a) || u == 0x2028 || u == 0x2029 || u == 0x202f || u == 0x205f || u == 0x3000
}

/// The transcription service: Ready when a recognition model was
/// loaded at process start, Unavailable otherwise. The model itself
/// lives with the recognition engine outside this crate; the service
/// holds the decision state, so that an unavailable model rejects
/// every request up front instead of being attempted and failing
/// lazily.
pub struct Transcriber {
    model_loaded: bool,
}

impl Transcriber {
    /// Whether a recognition model is loaded and requests may proceed.
    pub closed spec fn ready(&self) -> bool {
        self.model_loaded
    }

    /// Whether the service is Ready, as an executable check.
    pub fn is_ready(&self) -> (r: bool)
        ensures
            r == self.ready(),
    {
        self.model_loaded
    }

    /// A service handle recording whether the recognition model was
    /// loaded at process start. Construction never fails: a missing
    /// model leaves the service Unavailable rather than failing the
    /// surrounding system.
    pub fn new(model_loaded: bool) -> (r: Transcriber)
        ensures
            r.ready() == model_loaded,
    {
        Transcriber { model_loaded }
    }

    /// Validates and decodes a finalized recording for recognition.
    /// Rejected with `ModelUnavailable` — before the bytes are even
    /// examined — when no model is loaded; with `FormatError` exactly
    /// when the bytes are not a well-formed recording. On success the
    /// engine receives exactly the recording's own samples and format.
    pub fn transcribe_audio(&self, recording: &Vec<u8>) -> (r: Result<
        wav::DecodedWav,
        TranscribeError,
    >)
        ensures
            !self.ready() ==> (r matches Err(e) && e == TranscribeError::ModelUnavailable),
            self.ready() ==> (r is Ok <==> wav::parse_wav(recording@) is Some),
            self.ready() && wav::parse_wav(recording@) is None ==> (r matches Err(e) && e
                == TranscribeError::FormatError),
            r matches Ok(d) ==> wav::parse_wav(recording@) == Some(
                (d.sample_rate, d.channels, d.samples@),
            ),
    {
        if !self.model_loaded {
            return Err(TranscribeError::ModelUnavailable);
        }
        match wav::decode_wav(recording) {
            Some(d) => Ok(d),
            None => Err(TranscribeError::FormatError),
        }
    }
}

/// The session-management half of a transcribe command: stops the
/// named source's capture — finalizing its recording, so the file the
/// engine reads is complete — and then decides whether recognition may
/// proceed. The capture is stopped whether or not a model is loaded,
/// and the finalized recording is handed back on every path, so the
/// caller can always persist it durably; an unloaded model is reported
/// as `ModelUnavailable` without inference being attempted.
pub fn transcribe_request(capture: &mut AudioCapture, transcriber: &Transcriber, source: AudioSource) -> (r: (
    Option<FinalizedRecording>,
    Result<(), TranscribeError>,
))
    requires
        old(capture).inv(),
    ensures
        final(capture).inv(),
        final(capture)@.sample_rate == old(capture)@.sample_rate,
        final(capture)@.channels == old(capture)@.channels,
        final(capture)@.session(source) is None,
        forall|other: AudioSource|
            other != source ==> final(capture)@.session(other) == old(capture)@.session(other),
        r.1 is Ok <==> transcriber.ready(),
        !transcriber.ready() ==> (r.1 matches Err(e) && e == TranscribeError::ModelUnavailable),
        match old(capture)@.session(source) {
            None => r.0 is None,
            Some(m) => (r.0 matches Some(rec) && rec.output_path@ == m.output_path
                && rec.bytes@ == wav::wav_bytes(
                old(capture)@.sample_rate,
                old(capture)@.channels,
                m.samples,
            )),
        },
{
    let stopped = capture.stop_capture(source);
    if !transcriber.is_ready() {
        return (stopped, Err(TranscribeError::ModelUnavailable));
    }
    (stopped, Ok(()))
}

/// The text of each segment outcome, an empty sequence standing in
/// where retrieval failed. In a fully successful run this is exactly
/// the segments' own text.
pub open spec fn segment_views(segments: Seq<Option<String>>) -> Seq<Seq<char>> {
    segments.map_values(
        (|o: Option<String>|
            match o {
                Some(text) => text@,
                None => Seq::empty(),
            }),
    )
}

/// Collects the engine's per-segment retrieval results into the final
/// transcript. Every segment must have been retrieved: a single failed
/// segment makes the whole transcription an inference failure, so no
/// partial or garbled text is ever surfaced as success.
pub fn collect_transcript(segments: &Vec<Option<String>>) -> (r: Result<String, TranscribeError>)
    ensures
        r is Ok <==> (forall|k: int| 0 <= k < segments@.len() ==> segments@[k] is Some),
        r matches Ok(text) ==> text@ == trimmed(joined_segments(segment_views(segments@))),
        r matches Err(e) ==> e == TranscribeError::InferenceFailed,
{
    let count: usize = segments.len();
    let mut collected: Vec<String> = Vec::new();
    let mut i: usize = 0;
    while i < count
        invariant
            i <= count,
            count == segments@.len(),
            collected@.len() == i,
            forall|k: int| 0 <= k < i ==> segments@[k] is Some,
            forall|k: int| 0 <= k < i ==> collected@[k]@ == segment_views(segments@)[k],
        decreases count - i,
    {
        let entry: &Option<String> = &segments[i];
        match entry {
            Some(text) => {
                collected.push(text.clone());
            },
            None => {
                proof {
                    assert(!(segments@[i as int] is Some));
                }
                return Err(TranscribeError::InferenceFailed);
            },
        }
        i = i + 1;
    }
    let text = assemble_transcript(&collected);
    proof {
        assert(collected.deep_view() =~= segment_views(segments@));
    }
    Ok(text)
}

/// A silent, zero-length recording transcribes to the empty string
/// rather than an error: its file image is well formed and decodes to
/// no samples, and an engine that emits no segments for it assembles
/// to the empty transcript.
pub proof fn lemma_silence_transcribes_empty(sample_rate: u32, channels: u16)
    requires
        wav::valid_format(sample_rate, channels),
    ensures
        wav::parse_wav(wav::wav_bytes(sample_rate, channels, Seq::empty())) == Some(
            (sample_rate, channels, Seq::<u32>::empty()),
        ),
        trimmed(joined_segments(Seq::empty())) == Seq::<char>::empty(),
{
    wav::lemma_parse_wav_bytes(sample_rate, channels, Seq::empty());
}

} // verus!
