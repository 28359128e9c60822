//! The tick driver: one loudness reading at a time goes into the noise
//! floor estimator, is classified against the detection threshold, and is
//! handed to the trigger of the recording head.

use crate::noise_floor::{EstimatorView, NoiseFloorEstimator};
use crate::recorder::{ConfigError, HeadView, NoiseStates, RecordingHead, RecordingStates, BUFFER_SIZE};
use crate::ring::{retain_last, values};
use crate::trigger::{elapsed_ms, SinkCommand, Timing};
use vstd::prelude::*;

verus! {

/// What a monitor is set up with. The noise floor and the threshold given
/// here stand in until the window of readings has filled once.
#[derive(Debug, PartialEq, Eq, Clone, Copy, Structural)]
pub struct MonitorConfig {
    pub timing: Timing,
    /// In millibels.
    pub default_noise_floor: i64,
    /// In millibels.
    pub default_threshold: i64,
    /// What is added to the ninth decile of the window, in millibels.
    pub margin: i32,
    /// How long to wait between two telemetry reports, in milliseconds.
    pub publish_period_ms: u64,
}

/// The figures that are shown and published: loudness, noise floor and
/// threshold in millibels, the recording state and the number of
/// recordings.
#[derive(Debug, PartialEq, Eq, Clone, Copy, Structural)]
pub struct TickReport {
    pub current_level: i32,
    pub noise_floor: i64,
    pub threshold: i64,
    pub phase: RecordingStates,
    pub event_count: u64,
}

/// What a monitor holds.
pub struct MonitorView<S> {
    pub head: HeadView<S>,
    pub estimator: EstimatorView,
    /// The latest reading; zero before the first.
    pub current_level: i32,
    /// When telemetry was last reported.
    pub last_publish: u64,
    pub publish_period_ms: u64,
}

/// A reading above the threshold is noise, any other is quiet.
pub open spec fn classification(level: i32, threshold: int) -> NoiseStates {
    if level > threshold {
        NoiseStates::Noise
    } else {
        NoiseStates::Quiet
    }
}

/// How many samples a stream of `sample_rate` samples a second delivers in
/// `millis` milliseconds, rounded down.
pub open spec fn samples_within(sample_rate: u32, millis: u32) -> int {
    sample_rate * millis / 1000
}

impl<S> MonitorView<S> {
    /// The figures that are shown and published.
    pub open spec fn report(self) -> TickReport
        recommends
            i64::MIN <= self.estimator.noise_floor <= i64::MAX,
            i64::MIN <= self.estimator.target_threshold <= i64::MAX,
    {
        TickReport {
            current_level: self.current_level,
            noise_floor: self.estimator.noise_floor as i64,
            threshold: self.estimator.target_threshold as i64,
            phase: self.head.state.recording_state,
            event_count: self.head.state.event_count,
        }
    }

    /// The monitor after the reading `level` at the time `now`, with a
    /// window of `capacity` readings: the reading enters the window and is
    /// classified against the threshold as it stood before; the trigger
    /// takes the classification; then noise floor and threshold are brought
    /// up to date.
    pub open spec fn ticked(self, level: i32, now: u64, capacity: nat) -> (MonitorView<S>, SinkCommand) {
        let noise = classification(level, self.estimator.target_threshold);
        let (state, command) = self.head.state.ticked(noise, now);
        (
            MonitorView {
                head: HeadView { state, ..self.head },
                estimator: self.estimator.observed(level, capacity).recomputed(capacity),
                current_level: level,
                ..self
            },
            command,
        )
    }

    /// Whether telemetry is to be reported at the time `now`.
    pub open spec fn publish_due(self, now: u64) -> bool {
        elapsed_ms(now, self.last_publish) >= self.publish_period_ms
    }
}

/// Computes `classification`.
pub fn classify(level: i32, threshold: i64) -> (noise: NoiseStates)
    ensures
        noise == classification(level, threshold as int),
{
    if level as i64 > threshold {
        NoiseStates::Noise
    } else {
        NoiseStates::Quiet
    }
}

/// Computes `samples_within`.
pub fn samples_in(sample_rate: u32, millis: u32) -> (count: u64)
    ensures
        count == samples_within(sample_rate, millis),
{
    assert(sample_rate * millis <= u32::MAX * u32::MAX) by (nonlinear_arith)
        requires
            sample_rate <= u32::MAX,
            millis <= u32::MAX,
    ;
    (sample_rate as u64) * (millis as u64) / 1000
}

/// A capture session: the recording head, and the noise floor estimator
/// over a window of `H` readings.
pub struct Monitor<const H: usize, S> {
    head: RecordingHead<S>,
    estimator: NoiseFloorEstimator<H>,
    current_level: i32,
    last_publish: u64,
    publish_period_ms: u64,
}

impl<const H: usize, S> View for Monitor<H, S> {
    type V = MonitorView<S>;

    closed spec fn view(&self) -> MonitorView<S> {
        MonitorView {
            head: self.head@,
            estimator: self.estimator@,
            current_level: self.current_level,
            last_publish: self.last_publish,
            publish_period_ms: self.publish_period_ms,
        }
    }
}

impl<const H: usize, S: Copy> Monitor<H, S> {
    /// A session for a mono stream of `sample_rate` samples a second that
    /// starts at the time `now`: no samples, no readings, a waiting trigger,
    /// and the figures of `config`. A window of no readings is refused, and
    /// so is a rate of zero.
    pub fn new(sample_rate: u32, config: MonitorConfig, now: u64) -> (made: Result<
        Self,
        ConfigError,
    >)
        ensures
            H == 0 ==> made == Err::<Self, ConfigError>(ConfigError::EmptyWindow),
            H > 0 && sample_rate == 0 ==> made == Err::<Self, ConfigError>(
                ConfigError::ZeroSampleRate,
            ),
            H > 0 && sample_rate > 0 ==> made is Ok && made->Ok_0@ == (MonitorView {
                head: HeadView {
                    state: crate::trigger::RecorderState::initial(config.timing, now),
                    wav_spec: crate::recorder::WavSpec::mono_float(sample_rate),
                    samples: Seq::<S>::empty(),
                },
                estimator: EstimatorView {
                    history: Seq::empty(),
                    noise_floor: config.default_noise_floor as int,
                    target_threshold: config.default_threshold as int,
                    margin: config.margin as int,
                },
                current_level: 0,
                last_publish: now,
                publish_period_ms: config.publish_period_ms,
            }),
    {
        if H == 0 {
            return Err(ConfigError::EmptyWindow);
        }
        match RecordingHead::new(sample_rate, config.timing, now) {
            Ok(head) => Ok(
                Monitor {
                    head,
                    estimator: NoiseFloorEstimator::new(
                        config.default_noise_floor,
                        config.default_threshold,
                        config.margin,
                    ),
                    current_level: 0,
                    last_publish: now,
                    publish_period_ms: config.publish_period_ms,
                },
            ),
            Err(error) => Err(error),
        }
    }

    /// Takes newly captured samples into the history, and says whether they
    /// are to be appended to the sink as well: exactly while a recording is
    /// open.
    pub fn on_samples(&mut self, data: &[S]) -> (append: bool)
        ensures
            final(self)@ == (MonitorView {
                head: HeadView {
                    samples: retain_last(old(self)@.head.samples + data@, BUFFER_SIZE as nat),
                    ..old(self)@.head
                },
                ..old(self)@
            }),
            append == old(self)@.head.state.is_recording(),
    {
        self.head.put(data)
    }

    /// The `sample_count` most recent samples, oldest first: the window over
    /// which loudness is measured.
    pub fn loudness_window(&self, sample_count: usize) -> (window: Vec<&S>)
        requires
            sample_count <= BUFFER_SIZE,
        ensures
            values(window@) == retain_last(self@.head.samples, sample_count as nat),
            self@.head.samples.len() <= BUFFER_SIZE,
    {
        self.head.last_samples(sample_count)
    }

    /// The whole history, oldest first: what a new recording starts with.
    pub fn pre_roll(&self) -> (history: Vec<&S>)
        ensures
            values(history@) == self@.head.samples,
            self@.head.samples.len() <= BUFFER_SIZE,
    {
        self.head.pre_roll()
    }

    /// Takes the loudness reading `level`, in millibels, at the time `now`;
    /// gives the figures after it and says what is to be done with the sink.
    pub fn tick(&mut self, level: i32, now: u64) -> (outcome: (TickReport, SinkCommand))
        ensures
            (final(self)@, outcome.1) == old(self)@.ticked(level, now, H as nat),
            outcome.0 == final(self)@.report(),
    {
        let noise = classify(level, self.estimator.target_threshold());
        self.estimator.observe(level);
        let command = self.head.update_noise_state(noise, now);
        self.estimator.recompute_if_full();
        self.current_level = level;
        (self.snapshot(), command)
    }

    /// Takes the report that the sink could not be opened: the trigger
    /// waits again, the failure is counted, and the recording that was asked
    /// for is taken out of the count of recordings.
    pub fn open_failed(&mut self, now: u64)
        ensures
            final(self)@ == (MonitorView {
                head: HeadView {
                    state: old(self)@.head.state.open_failed(now),
                    ..old(self)@.head
                },
                ..old(self)@
            }),
    {
        self.head.open_failed(now);
    }

    /// Takes the report that the sink failed while the recording was
    /// written: the recording is given up and the failure is counted.
    pub fn sink_failed(&mut self, now: u64)
        ensures
            final(self)@ == (MonitorView {
                head: HeadView {
                    state: old(self)@.head.state.failed(now),
                    ..old(self)@.head
                },
                ..old(self)@
            }),
    {
        self.head.sink_failed(now);
    }

    /// Ends the session: a recording that is still open is to be finalized.
    pub fn shutdown(&mut self, now: u64) -> (command: SinkCommand)
        ensures
            final(self)@ == (MonitorView {
                head: HeadView {
                    state: old(self)@.head.state.stopped(now).0,
                    ..old(self)@.head
                },
                ..old(self)@
            }),
            command == old(self)@.head.state.stopped(now).1,
    {
        self.head.shutdown(now)
    }

    /// Whether telemetry is to be reported now: when the period has passed
    /// since the last report. A report that is due is taken as made.
    pub fn telemetry_due(&mut self, now: u64) -> (due: bool)
        ensures
            due == old(self)@.publish_due(now),
            final(self)@ == (MonitorView {
                last_publish: if due { now } else { old(self)@.last_publish },
                ..old(self)@
            }),
    {
        let waited = if now >= self.last_publish {
            now - self.last_publish
        } else {
            0
        };
        if waited >= self.publish_period_ms {
            self.last_publish = now;
            true
        } else {
            false
        }
    }

    /// The figures as they stand.
    pub fn snapshot(&self) -> (report: TickReport)
        ensures
            report == self@.report(),
    {
        TickReport {
            current_level: self.current_level,
            noise_floor: self.estimator.noise_floor(),
            threshold: self.estimator.target_threshold(),
            phase: self.head.recording_state(),
            event_count: self.head.state().event_count,
        }
    }

    /// The layout of the recordings.
    pub fn wav_spec(&self) -> (spec: crate::recorder::WavSpec)
        ensures
            spec == self@.head.wav_spec,
    {
        self.head.wav_spec()
    }
}

} // verus!
