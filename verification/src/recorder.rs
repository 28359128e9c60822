//! The recording head: the buffered history of samples together with the
//! trigger that decides when that history, and what follows it, is
//! persisted.

use crate::circular_buffer::CircularBuffer;
use crate::ring::{retain_last, values};
use crate::trigger::{RecorderState, SinkCommand, Timing};
use vstd::prelude::*;

verus! {

/// How many samples of history are kept: twenty seconds at sixteen
/// thousand samples a second.
pub const BUFFER_SIZE: usize = 16000 * 20;

/// The pattern, in the notation of `strftime`, after which recordings are
/// named.
pub const FILE_NAME_PATTERN: &'static str = "rec_%Y-%m-%d_%H-%M-%S.wav";

/// Whether audio is being persisted.
#[derive(Debug, PartialEq, Eq, Clone, Copy, Structural)]
pub enum RecordingStates {
    Recording,
    Waiting,
}

/// How the latest loudness reading compares with the detection threshold.
#[derive(Debug, PartialEq, Eq, Clone, Copy, Structural)]
pub enum NoiseStates {
    Noise,
    Quiet,
}

impl RecordingStates {
    /// The name of the state as text.
    pub open spec fn label_text(self) -> Seq<char> {
        match self {
            RecordingStates::Recording => "Recording"@,
            RecordingStates::Waiting => "Waiting"@,
        }
    }

    /// The name of the state, for display and telemetry.
    pub fn label(&self) -> (text: &'static str)
        ensures
            text@ == self.label_text(),
    {
        match self {
            RecordingStates::Recording => "Recording",
            RecordingStates::Waiting => "Waiting",
        }
    }
}

/// How the samples of a recording are encoded.
#[derive(Debug, PartialEq, Eq, Clone, Copy, Structural)]
pub enum SampleFormat {
    Float,
    Int,
}

/// The layout of a recording.
#[derive(Debug, PartialEq, Eq, Clone, Copy, Structural)]
pub struct WavSpec {
    pub channels: u16,
    pub sample_rate: u32,
    pub bits_per_sample: u16,
    pub sample_format: SampleFormat,
}

/// Why a recording head could not be set up.
#[derive(Debug, PartialEq, Eq, Clone, Copy, Structural)]
pub enum ConfigError {
    /// A stream of no samples a second cannot be recorded.
    ZeroSampleRate,
    /// A noise floor cannot be taken from a window of no readings.
    EmptyWindow,
}

impl WavSpec {
    /// One channel of 32-bit floating-point samples at `sample_rate`.
    pub open spec fn mono_float(sample_rate: u32) -> WavSpec {
        WavSpec {
            channels: 1,
            sample_rate,
            bits_per_sample: 32,
            sample_format: SampleFormat::Float,
        }
    }
}

/// What a recording head holds.
pub struct HeadView<S> {
    /// The trigger.
    pub state: RecorderState,
    /// The layout of the recordings.
    pub wav_spec: WavSpec,
    /// The buffered samples, oldest first.
    pub samples: Seq<S>,
}

/// The history of the last `BUFFER_SIZE` samples and the trigger that
/// governs the recording.
pub struct RecordingHead<S> {
    state: RecorderState,
    wav_spec: WavSpec,
    audio_buffer: CircularBuffer<BUFFER_SIZE, S>,
}

impl<S> RecordingHead<S> {
    #[verifier::type_invariant]
    spec fn inv(self) -> bool {
        self.audio_buffer@.len() <= BUFFER_SIZE
    }
}

impl<S> View for RecordingHead<S> {
    type V = HeadView<S>;

    closed spec fn view(&self) -> HeadView<S> {
        HeadView { state: self.state, wav_spec: self.wav_spec, samples: self.audio_buffer@ }
    }
}

impl<S: Copy> RecordingHead<S> {
    /// A head for a mono stream of `sample_rate` samples a second, with an
    /// empty history and a waiting trigger whose clocks start at `now`. A
    /// rate of zero is refused.
    pub fn new(sample_rate: u32, timing: Timing, now: u64) -> (made: Result<Self, ConfigError>)
        ensures
            sample_rate == 0 ==> made == Err::<Self, ConfigError>(ConfigError::ZeroSampleRate),
            sample_rate > 0 ==> made is Ok && made->Ok_0@ == (HeadView {
                state: RecorderState::initial(timing, now),
                wav_spec: WavSpec::mono_float(sample_rate),
                samples: Seq::<S>::empty(),
            }),
    {
        if sample_rate == 0 {
            return Err(ConfigError::ZeroSampleRate);
        }
        Ok(
            RecordingHead {
                state: RecorderState::new(timing, now),
                wav_spec: WavSpec {
                    channels: 1,
                    sample_rate,
                    bits_per_sample: 32,
                    sample_format: SampleFormat::Float,
                },
                audio_buffer: CircularBuffer::new(),
            },
        )
    }

    /// Takes newly captured samples into the history, and says whether they
    /// are to be appended to the sink as well: exactly while a recording is
    /// open.
    pub fn put(&mut self, data: &[S]) -> (append: bool)
        ensures
            final(self)@.samples == retain_last(old(self)@.samples + data@, BUFFER_SIZE as nat),
            final(self)@.state == old(self)@.state,
            final(self)@.wav_spec == old(self)@.wav_spec,
            append == old(self)@.state.is_recording(),
    {
        proof {
            use_type_invariant(&*self);
            assert(old(self)@.samples + data@.subrange(0, 0) =~= old(self)@.samples);
        }
        let mut written: usize = 0;
        while written < data.len()
            invariant
                written <= data@.len(),
                self.state == old(self).state,
                self.wav_spec == old(self).wav_spec,
                self.audio_buffer@ == retain_last(
                    old(self)@.samples + data@.subrange(0, written as int),
                    BUFFER_SIZE as nat,
                ),
            decreases data@.len() - written,
        {
            let ghost before = old(self)@.samples + data@.subrange(0, written as int);
            self.audio_buffer.put(data[written]);
            written += 1;
            proof {
                assert(old(self)@.samples + data@.subrange(0, written as int) =~= before.push(
                    data@[written - 1],
                ));
                assert(retain_last(
                    retain_last(before, BUFFER_SIZE as nat).push(data@[written - 1]),
                    BUFFER_SIZE as nat,
                ) =~= retain_last(before.push(data@[written - 1]), BUFFER_SIZE as nat));
            }
        }
        assert(data@.subrange(0, written as int) =~= data@);
        self.state.recording_state == RecordingStates::Recording
    }

    /// The `sample_count` most recent samples, oldest first: the window over
    /// which loudness is measured.
    pub fn last_samples(&self, sample_count: usize) -> (window: Vec<&S>)
        requires
            sample_count <= BUFFER_SIZE,
        ensures
            values(window@) == retain_last(self@.samples, sample_count as nat),
            self@.samples.len() <= BUFFER_SIZE,
    {
        self.audio_buffer.read_fifo_last_n(sample_count)
    }

    /// The whole history, oldest first: what a new recording starts with.
    pub fn pre_roll(&self) -> (history: Vec<&S>)
        ensures
            values(history@) == self@.samples,
            self@.samples.len() <= BUFFER_SIZE,
    {
        self.audio_buffer.read_fifo_all()
    }

    /// Takes the classification of the latest reading at the time `now`,
    /// and says what is to be done with the sink.
    pub fn update_noise_state(&mut self, noise: NoiseStates, now: u64) -> (command: SinkCommand)
        ensures
            (final(self)@.state, command) == old(self)@.state.ticked(noise, now),
            final(self)@.samples == old(self)@.samples,
            final(self)@.wav_spec == old(self)@.wav_spec,
    {
        proof {
            use_type_invariant(&*self);
        }
        let (next, command) = self.state.tick(noise, now);
        self.state = next;
        command
    }

    /// Takes the report that the sink could not be opened: the trigger
    /// waits again, the failure is counted, and the recording that was asked
    /// for is taken out of the count of recordings.
    pub fn open_failed(&mut self, now: u64)
        ensures
            final(self)@.state == old(self)@.state.open_failed(now),
            final(self)@.samples == old(self)@.samples,
            final(self)@.wav_spec == old(self)@.wav_spec,
    {
        proof {
            use_type_invariant(&*self);
        }
        self.state = self.state.sink_open_failed(now);
    }

    /// Takes the report that the sink failed while the recording was
    /// written: the recording is given up and the failure is counted.
    pub fn sink_failed(&mut self, now: u64)
        ensures
            final(self)@.state == old(self)@.state.failed(now),
            final(self)@.samples == old(self)@.samples,
            final(self)@.wav_spec == old(self)@.wav_spec,
    {
        proof {
            use_type_invariant(&*self);
        }
        self.state = self.state.sink_failed(now);
    }

    /// Ends the session: a recording that is still open is to be finalized.
    pub fn shutdown(&mut self, now: u64) -> (command: SinkCommand)
        ensures
            (final(self)@.state, command) == old(self)@.state.stopped(now),
            final(self)@.samples == old(self)@.samples,
            final(self)@.wav_spec == old(self)@.wav_spec,
    {
        proof {
            use_type_invariant(&*self);
        }
        let (next, command) = self.state.shutdown(now);
        self.state = next;
        command
    }

    /// The trigger as it stands.
    pub fn state(&self) -> (state: RecorderState)
        ensures
            state == self@.state,
    {
        self.state
    }

    /// Whether a recording is open.
    pub fn recording_state(&self) -> (state: RecordingStates)
        ensures
            state == self@.state.recording_state,
    {
        self.state.recording_state
    }

    /// The layout of the recordings.
    pub fn wav_spec(&self) -> (spec: WavSpec)
        ensures
            spec == self@.wav_spec,
    {
        self.wav_spec
    }
}

/// The text that chrono's `DateTime::<Utc>::format` gives for the moment
/// `unix_seconds` after the start of 1970 and the pattern `pattern`; nothing
/// where chrono has no such moment or cannot follow the pattern.
pub uninterp spec fn utc_text(unix_seconds: i64, pattern: Seq<char>) -> Option<Seq<char>>;

/// The text of a moment in universal time. Stands for chrono's
/// `DateTime::from_timestamp`, `DateTime::format` and
/// `DelayedFormat::write_to`: the moment is built from whole seconds, and
/// the text that comes back is the one named `utc_text`. A moment outside
/// chrono's range and a pattern that it rejects both give `None`.
#[verifier::external_body]
fn format_utc(unix_seconds: i64, pattern: &str) -> (text: Option<String>)
    ensures
        match text {
            Some(written) => utc_text(unix_seconds, pattern@) == Some(written@),
            None => utc_text(unix_seconds, pattern@) is None,
        },
{
    let moment = chrono::DateTime::from_timestamp(unix_seconds, 0)?;
    let mut written = String::new();
    match moment.format(pattern).write_to(&mut written) {
        Ok(()) => Some(written),
        Err(_) => None,
    }
}

/// The name of the recording that is opened at `unix_seconds` after the
/// start of 1970, universal time.
pub fn recording_file_name(unix_seconds: i64) -> (name: Option<String>)
    ensures
        match name {
            Some(written) => utc_text(unix_seconds, FILE_NAME_PATTERN@) == Some(written@),
            None => utc_text(unix_seconds, FILE_NAME_PATTERN@) is None,
        },
{
    format_utc(unix_seconds, FILE_NAME_PATTERN)
}

} // verus!
