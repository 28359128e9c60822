//! The debounced trigger: the noise classification, the recording life
//! cycle, and the commands that the life cycle gives to the audio sink.
//!
//! The state machine is a pure function from a state and an event to the
//! next state and a command; whoever owns the sink carries the command out.

use crate::recorder::{NoiseStates, RecordingStates};
use vstd::prelude::*;

verus! {

/// How long noise must last before a recording opens, unless the caller
/// chooses otherwise.
pub const DEFAULT_DEBOUNCE_MS: u64 = 750;

/// How long quiet must last before a recording closes, unless the caller
/// chooses otherwise.
pub const DEFAULT_HOLD_MS: u64 = 10_000;

/// What the owner of the sink has to do after an event.
#[derive(Debug, PartialEq, Eq, Clone, Copy, Structural)]
pub enum SinkCommand {
    /// Leave the sink as it is.
    Nothing,
    /// Create a new recording and write the buffered history into it.
    Open,
    /// Flush and close the recording.
    Finalize,
}

/// What can happen to the trigger.
#[derive(Debug, PartialEq, Eq, Clone, Copy, Structural)]
pub enum RecorderEvent {
    /// A periodic reading, already classified.
    Tick { noise: NoiseStates, now: u64 },
    /// The sink could not be opened when it was asked to.
    OpenFailed { now: u64 },
    /// The sink failed while the recording was written.
    SinkFailed { now: u64 },
    /// The capture session ends.
    Shutdown { now: u64 },
}

/// The two waiting times of the trigger, in milliseconds.
#[derive(Debug, PartialEq, Eq, Clone, Copy, Structural)]
pub struct Timing {
    /// Noise has to last this long before a recording opens.
    pub debounce_ms: u64,
    /// Quiet has to last this long before a recording closes.
    pub hold_ms: u64,
}

/// The whole state of the trigger.
#[derive(Debug, PartialEq, Eq, Clone, Copy, Structural)]
pub struct RecorderState {
    pub recording_state: RecordingStates,
    pub noise_state: NoiseStates,
    /// When the noise classification last changed.
    pub last_noise_change: u64,
    /// When the recording state last changed.
    pub last_phase_change: u64,
    /// How many recordings were opened. One that the sink could not open
    /// is not among them.
    pub event_count: u64,
    /// What `event_count` was before the recording that is open was asked
    /// for: what it goes back to if the sink could not open.
    pub events_before_open: u64,
    /// How often the sink failed, on opening or while it was written.
    pub sink_failures: u64,
    pub timing: Timing,
}

/// The time from `since` to `now`; nothing if the clock went backwards.
pub open spec fn elapsed_ms(now: u64, since: u64) -> u64 {
    if now >= since {
        (now - since) as u64
    } else {
        0
    }
}

/// One more, as far as the counter goes.
pub open spec fn bumped(count: u64) -> u64 {
    if count < u64::MAX {
        (count + 1) as u64
    } else {
        count
    }
}

impl Timing {
    /// The waiting times that are used unless the caller chooses otherwise.
    pub fn standard() -> (timing: Timing)
        ensures
            timing == (Timing { debounce_ms: DEFAULT_DEBOUNCE_MS, hold_ms: DEFAULT_HOLD_MS }),
    {
        Timing { debounce_ms: DEFAULT_DEBOUNCE_MS, hold_ms: DEFAULT_HOLD_MS }
    }
}

impl RecorderState {
    /// The state at the start of a session: waiting, quiet, nothing counted.
    pub open spec fn initial(timing: Timing, now: u64) -> RecorderState {
        RecorderState {
            recording_state: RecordingStates::Waiting,
            noise_state: NoiseStates::Quiet,
            last_noise_change: now,
            last_phase_change: now,
            event_count: 0,
            events_before_open: 0,
            sink_failures: 0,
            timing,
        }
    }

    /// The classification takes effect at once: a reading that differs from
    /// the stored one replaces it and restarts the clock, one that agrees
    /// changes nothing.
    pub open spec fn classified(self, noise: NoiseStates, now: u64) -> RecorderState {
        if self.noise_state != noise {
            RecorderState { noise_state: noise, last_noise_change: now, ..self }
        } else {
            self
        }
    }

    /// The state and the command after a reading. A recording opens once
    /// noise has lasted for the debounce time and closes once quiet has
    /// lasted for the hold time; every other reading leaves the recording
    /// state alone.
    pub open spec fn ticked(self, noise: NoiseStates, now: u64) -> (RecorderState, SinkCommand) {
        let seen = self.classified(noise, now);
        let lasted = elapsed_ms(now, seen.last_noise_change);
        match seen.recording_state {
            RecordingStates::Recording => {
                if seen.noise_state == NoiseStates::Quiet && lasted >= seen.timing.hold_ms {
                    (
                        RecorderState {
                            recording_state: RecordingStates::Waiting,
                            last_phase_change: now,
                            ..seen
                        },
                        SinkCommand::Finalize,
                    )
                } else {
                    (seen, SinkCommand::Nothing)
                }
            },
            RecordingStates::Waiting => {
                if seen.noise_state == NoiseStates::Noise && lasted >= seen.timing.debounce_ms {
                    (
                        RecorderState {
                            recording_state: RecordingStates::Recording,
                            last_phase_change: now,
                            event_count: bumped(seen.event_count),
                            events_before_open: seen.event_count,
                            ..seen
                        },
                        SinkCommand::Open,
                    )
                } else {
                    (seen, SinkCommand::Nothing)
                }
            },
        }
    }

    /// The state after the sink could not be opened: the trigger waits
    /// again, the failure is counted, and the recording that was asked for
    /// is taken out of the count of recordings, which is again what it was
    /// before. A report that arrives while nothing is being recorded changes
    /// nothing.
    pub open spec fn open_failed(self, now: u64) -> RecorderState {
        match self.recording_state {
            RecordingStates::Recording => RecorderState {
                recording_state: RecordingStates::Waiting,
                last_phase_change: now,
                event_count: self.events_before_open,
                sink_failures: bumped(self.sink_failures),
                ..self
            },
            RecordingStates::Waiting => self,
        }
    }

    /// The state after the sink failed while the recording was written: the
    /// recording is given up, the trigger waits again, and the failure is
    /// counted. The recording stays in the count of recordings. A report
    /// that arrives while nothing is being recorded changes nothing.
    pub open spec fn failed(self, now: u64) -> RecorderState {
        match self.recording_state {
            RecordingStates::Recording => RecorderState {
                recording_state: RecordingStates::Waiting,
                last_phase_change: now,
                sink_failures: bumped(self.sink_failures),
                ..self
            },
            RecordingStates::Waiting => self,
        }
    }

    /// The state and the command at the end of the session: a recording
    /// that is still open is closed.
    pub open spec fn stopped(self, now: u64) -> (RecorderState, SinkCommand) {
        match self.recording_state {
            RecordingStates::Recording => (
                RecorderState {
                    recording_state: RecordingStates::Waiting,
                    last_phase_change: now,
                    ..self
                },
                SinkCommand::Finalize,
            ),
            RecordingStates::Waiting => (self, SinkCommand::Nothing),
        }
    }

    /// The state and the command after any event.
    pub open spec fn applied(self, event: RecorderEvent) -> (RecorderState, SinkCommand) {
        match event {
            RecorderEvent::Tick { noise, now } => self.ticked(noise, now),
            RecorderEvent::OpenFailed { now } => (self.open_failed(now), SinkCommand::Nothing),
            RecorderEvent::SinkFailed { now } => (self.failed(now), SinkCommand::Nothing),
            RecorderEvent::Shutdown { now } => self.stopped(now),
        }
    }

    /// The state after the events, taken in order, and the commands that
    /// they gave, one for each event.
    pub open spec fn run(self, events: Seq<RecorderEvent>) -> (RecorderState, Seq<SinkCommand>)
        decreases events.len(),
    {
        if events.len() == 0 {
            (self, Seq::empty())
        } else {
            let (before, commands) = self.run(events.drop_last());
            let (after, command) = before.applied(events.last());
            (after, commands.push(command))
        }
    }

    /// Whether a recording is open.
    pub open spec fn is_recording(self) -> bool {
        self.recording_state == RecordingStates::Recording
    }

    /// The state at the start of a session.
    pub fn new(timing: Timing, now: u64) -> (state: RecorderState)
        ensures
            state == RecorderState::initial(timing, now),
    {
        RecorderState {
            recording_state: RecordingStates::Waiting,
            noise_state: NoiseStates::Quiet,
            last_noise_change: now,
            last_phase_change: now,
            event_count: 0,
            events_before_open: 0,
            sink_failures: 0,
            timing,
        }
    }

    /// Takes a classified reading at the time `now`.
    pub fn tick(self, noise: NoiseStates, now: u64) -> (next: (RecorderState, SinkCommand))
        ensures
            next == self.ticked(noise, now),
    {
        let mut seen = self;
        if seen.noise_state != noise {
            seen.noise_state = noise;
            seen.last_noise_change = now;
        }
        let lasted = if now >= seen.last_noise_change {
            now - seen.last_noise_change
        } else {
            0
        };
        match seen.recording_state {
            RecordingStates::Recording => {
                if seen.noise_state == NoiseStates::Quiet && lasted >= seen.timing.hold_ms {
                    seen.recording_state = RecordingStates::Waiting;
                    seen.last_phase_change = now;
                    (seen, SinkCommand::Finalize)
                } else {
                    (seen, SinkCommand::Nothing)
                }
            },
            RecordingStates::Waiting => {
                if seen.noise_state == NoiseStates::Noise && lasted >= seen.timing.debounce_ms {
                    seen.recording_state = RecordingStates::Recording;
                    seen.last_phase_change = now;
                    seen.events_before_open = seen.event_count;
                    if seen.event_count < u64::MAX {
                        seen.event_count = seen.event_count + 1;
                    }
                    (seen, SinkCommand::Open)
                } else {
                    (seen, SinkCommand::Nothing)
                }
            },
        }
    }

    /// Takes the report that the sink could not be opened.
    pub fn sink_open_failed(self, now: u64) -> (next: RecorderState)
        ensures
            next == self.open_failed(now),
    {
        let mut next = self;
        match self.recording_state {
            RecordingStates::Recording => {
                next.recording_state = RecordingStates::Waiting;
                next.last_phase_change = now;
                next.event_count = next.events_before_open;
                if next.sink_failures < u64::MAX {
                    next.sink_failures = next.sink_failures + 1;
                }
            },
            RecordingStates::Waiting => {},
        }
        next
    }

    /// Takes the report that the sink failed while the recording was
    /// written.
    pub fn sink_failed(self, now: u64) -> (next: RecorderState)
        ensures
            next == self.failed(now),
    {
        let mut next = self;
        match self.recording_state {
            RecordingStates::Recording => {
                next.recording_state = RecordingStates::Waiting;
                next.last_phase_change = now;
                if next.sink_failures < u64::MAX {
                    next.sink_failures = next.sink_failures + 1;
                }
            },
            RecordingStates::Waiting => {},
        }
        next
    }

    /// Ends the session.
    pub fn shutdown(self, now: u64) -> (next: (RecorderState, SinkCommand))
        ensures
            next == self.stopped(now),
    {
        let mut next = self;
        match self.recording_state {
            RecordingStates::Recording => {
                next.recording_state = RecordingStates::Waiting;
                next.last_phase_change = now;
                (next, SinkCommand::Finalize)
            },
            RecordingStates::Waiting => (next, SinkCommand::Nothing),
        }
    }

    /// Takes any event: the transition function of the trigger.
    pub fn handle(self, event: RecorderEvent) -> (next: (RecorderState, SinkCommand))
        ensures
            next == self.applied(event),
    {
        match event {
            RecorderEvent::Tick { noise, now } => self.tick(noise, now),
            RecorderEvent::OpenFailed { now } => (
                self.sink_open_failed(now),
                SinkCommand::Nothing,
            ),
            RecorderEvent::SinkFailed { now } => (
                self.sink_failed(now),
                SinkCommand::Nothing,
            ),
            RecorderEvent::Shutdown { now } => self.shutdown(now),
        }
    }
}

/// Whether `command` can be carried out on a sink that is open, or not.
pub open spec fn command_fits(sink_open: bool, command: SinkCommand) -> bool {
    match command {
        SinkCommand::Open => !sink_open,
        SinkCommand::Finalize => sink_open,
        SinkCommand::Nothing => true,
    }
}

/// Whether the sink is open after an event and the command that it gave: a
/// sink is opened by `Open`, closed by `Finalize`, and no longer open where
/// the event reports that it failed.
pub open spec fn sink_open_next(sink_open: bool, event: RecorderEvent, command: SinkCommand) -> bool {
    match command {
        SinkCommand::Open => true,
        SinkCommand::Finalize => false,
        SinkCommand::Nothing => sink_open && !(event is SinkFailed || event is OpenFailed),
    }
}

/// Whether the sink is open after the events and the commands that they gave.
pub open spec fn sink_open_after(
    sink_open: bool,
    events: Seq<RecorderEvent>,
    commands: Seq<SinkCommand>,
) -> bool
    recommends
        events.len() == commands.len(),
    decreases events.len(),
{
    if events.len() == 0 || commands.len() == 0 {
        sink_open
    } else {
        sink_open_next(
            sink_open_after(sink_open, events.drop_last(), commands.drop_last()),
            events.last(),
            commands.last(),
        )
    }
}

/// Whether every command could be carried out on the sink as the events
/// and commands before it had left it.
pub open spec fn protocol_kept(
    sink_open: bool,
    events: Seq<RecorderEvent>,
    commands: Seq<SinkCommand>,
) -> bool
    recommends
        events.len() == commands.len(),
    decreases events.len(),
{
    if events.len() == 0 || commands.len() == 0 {
        true
    } else {
        &&& protocol_kept(sink_open, events.drop_last(), commands.drop_last())
        &&& command_fits(
            sink_open_after(sink_open, events.drop_last(), commands.drop_last()),
            commands.last(),
        )
    }
}

/// How often `which` occurs among the commands.
pub open spec fn count_of(commands: Seq<SinkCommand>, which: SinkCommand) -> nat
    decreases commands.len(),
{
    if commands.len() == 0 {
        0
    } else {
        count_of(commands.drop_last(), which) + if commands.last() == which {
            1nat
        } else {
            0nat
        }
    }
}

/// Whether the event reports a failure of the sink, of either kind.
pub open spec fn is_failure(event: RecorderEvent) -> bool {
    event is SinkFailed || event is OpenFailed
}

/// How many recordings were given up because the sink failed, on opening
/// or while it was written: the reports of a failure that found the
/// trigger recording.
pub open spec fn abandoned(
    sink_open: bool,
    events: Seq<RecorderEvent>,
    commands: Seq<SinkCommand>,
) -> nat
    recommends
        events.len() == commands.len(),
    decreases events.len(),
{
    if events.len() == 0 || commands.len() == 0 {
        0
    } else {
        abandoned(sink_open, events.drop_last(), commands.drop_last()) + if is_failure(
            events.last(),
        ) && sink_open_after(
            sink_open,
            events.drop_last(),
            commands.drop_last(),
        ) {
            1nat
        } else {
            0nat
        }
    }
}

/// Whatever the events, the trigger gives one command for each, asks the
/// sink to open only while it is closed and to finalize only while it is
/// open, and is recording exactly while the sink is open.
pub proof fn lemma_sink_protocol(start: RecorderState, events: Seq<RecorderEvent>)
    ensures
        start.run(events).1.len() == events.len(),
        protocol_kept(start.is_recording(), events, start.run(events).1),
        start.run(events).0.is_recording() == sink_open_after(
            start.is_recording(),
            events,
            start.run(events).1,
        ),
        start.run(events).0.timing == start.timing,
    decreases events.len(),
{
    if events.len() > 0 {
        lemma_sink_protocol(start, events.drop_last());
        let (before, commands) = start.run(events.drop_last());
        let (after, command) = before.applied(events.last());
        assert(commands.push(command).drop_last() =~= commands);
    }
}

/// Every recording that was opened is finalized, given up because the sink
/// failed, or still open: none is lost.
pub proof fn lemma_opens_are_matched(start: RecorderState, events: Seq<RecorderEvent>)
    ensures
        count_of(start.run(events).1, SinkCommand::Open) + (if start.is_recording() {
            1nat
        } else {
            0nat
        }) == count_of(start.run(events).1, SinkCommand::Finalize) + abandoned(
            start.is_recording(),
            events,
            start.run(events).1,
        ) + (if start.run(events).0.is_recording() {
            1nat
        } else {
            0nat
        }),
    decreases events.len(),
{
    if events.len() > 0 {
        lemma_opens_are_matched(start, events.drop_last());
        lemma_sink_protocol(start, events.drop_last());
        let (before, commands) = start.run(events.drop_last());
        let (after, command) = before.applied(events.last());
        assert(commands.push(command).drop_last() =~= commands);
    }
}

/// A session that ends with a shutdown leaves no recording open: from a
/// waiting trigger, every recording that was opened has been finalized or
/// was given up because the sink failed.
pub proof fn lemma_shutdown_closes(start: RecorderState, events: Seq<RecorderEvent>, now: u64)
    requires
        !start.is_recording(),
    ensures
        !start.run(events.push(RecorderEvent::Shutdown { now })).0.is_recording(),
        count_of(start.run(events.push(RecorderEvent::Shutdown { now })).1, SinkCommand::Open)
            == count_of(
            start.run(events.push(RecorderEvent::Shutdown { now })).1,
            SinkCommand::Finalize,
        ) + abandoned(
            false,
            events.push(RecorderEvent::Shutdown { now }),
            start.run(events.push(RecorderEvent::Shutdown { now })).1,
        ),
{
    let all = events.push(RecorderEvent::Shutdown { now });
    assert(all.drop_last() =~= events);
    lemma_opens_are_matched(start, all);
}

/// How many recordings the sink could not open: the reports of a failed
/// opening that found the trigger recording.
pub open spec fn failed_opens(
    sink_open: bool,
    events: Seq<RecorderEvent>,
    commands: Seq<SinkCommand>,
) -> nat
    recommends
        events.len() == commands.len(),
    decreases events.len(),
{
    if events.len() == 0 || commands.len() == 0 {
        0
    } else {
        failed_opens(sink_open, events.drop_last(), commands.drop_last()) + if events.last()
            is OpenFailed && sink_open_after(
            sink_open,
            events.drop_last(),
            commands.drop_last(),
        ) {
            1nat
        } else {
            0nat
        }
    }
}

/// A recording that the sink could not open is no event: after the reading
/// that asked for it and the report of the failure, the trigger waits, one
/// more failure is counted, and the count of recordings is what it was
/// before that reading.
pub proof fn lemma_failed_open_is_no_event(
    start: RecorderState,
    noise: NoiseStates,
    now: u64,
    reported: u64,
)
    requires
        start.ticked(noise, now).1 == SinkCommand::Open,
    ensures
        start.ticked(noise, now).0.open_failed(reported).recording_state
            == RecordingStates::Waiting,
        start.ticked(noise, now).0.open_failed(reported).sink_failures == bumped(
            start.sink_failures,
        ),
        start.ticked(noise, now).0.open_failed(reported).event_count == start.event_count,
{
}

/// The count of recordings is the number of recordings that were asked
/// for less those that the sink could not open, whatever the events, as
/// long as the counter has room: it does not move with a reading that opens
/// nothing, and an opening that is tried again after a failure is counted
/// once when it succeeds.
pub proof fn lemma_events_are_opened_recordings(start: RecorderState, events: Seq<RecorderEvent>)
    requires
        !start.is_recording(),
        start.event_count + events.len() <= u64::MAX,
    ensures
        start.run(events).0.event_count + failed_opens(false, events, start.run(events).1)
            == start.event_count + count_of(start.run(events).1, SinkCommand::Open),
        start.run(events).0.is_recording() ==> start.run(events).0.event_count
            == start.run(events).0.events_before_open + 1,
        count_of(start.run(events).1, SinkCommand::Open) <= events.len(),
    decreases events.len(),
{
    if events.len() > 0 {
        lemma_events_are_opened_recordings(start, events.drop_last());
        lemma_sink_protocol(start, events.drop_last());
        let (before, commands) = start.run(events.drop_last());
        let (after, command) = before.applied(events.last());
        assert(commands.push(command).drop_last() =~= commands);
    }
}

/// A reading of `noise` at each of `times`.
pub open spec fn ticks(noise: NoiseStates, times: Seq<u64>) -> Seq<RecorderEvent> {
    Seq::new(times.len(), |i: int| RecorderEvent::Tick { noise, now: times[i] })
}

/// Whether the clock never went backwards.
pub open spec fn nondecreasing(times: Seq<u64>) -> bool {
    forall|i: int, j: int| 0 <= i <= j < times.len() ==> times[i] <= times[j]
}

/// From a waiting, quiet trigger, noise that is read at each of `times`
/// opens a recording exactly once if it lasts for the debounce time, at the
/// first reading that is that long after the first of them, and never
/// otherwise; nothing is finalized, and the count of recordings goes up by
/// one with the opening, not with every reading.
pub proof fn lemma_sustained_noise_opens_once(start: RecorderState, times: Seq<u64>)
    requires
        start.recording_state == RecordingStates::Waiting,
        start.noise_state == NoiseStates::Quiet,
        times.len() > 0,
        nondecreasing(times),
    ensures
        ({
            let (end, commands) = start.run(ticks(NoiseStates::Noise, times));
            let lasted = times.last() - times[0] >= start.timing.debounce_ms;
            &&& commands.len() == times.len()
            &&& count_of(commands, SinkCommand::Open) == if lasted { 1nat } else { 0nat }
            &&& count_of(commands, SinkCommand::Finalize) == 0
            &&& forall|i: int|
                0 <= i < times.len() ==> ((#[trigger] commands[i]) == SinkCommand::Open <==> (
                times[i] - times[0] >= start.timing.debounce_ms && (i == 0 || times[i - 1]
                    - times[0] < start.timing.debounce_ms)))
            &&& end.is_recording() == lasted
            &&& end.event_count == if lasted { bumped(start.event_count) } else { start.event_count }
            &&& end.sink_failures == start.sink_failures
            &&& end.noise_state == NoiseStates::Noise
            &&& end.last_noise_change == times[0]
            &&& end.timing == start.timing
        }),
    decreases times.len(),
{
    let events = ticks(NoiseStates::Noise, times);
    assert(events.drop_last() =~= ticks(NoiseStates::Noise, times.drop_last()));
    if times.len() == 1 {
        assert(start.run(events.drop_last()) == (start, Seq::<SinkCommand>::empty()));
        let (end, commands) = start.run(events);
        assert(commands.drop_last() =~= Seq::<SinkCommand>::empty());
        assert(count_of(commands.drop_last(), SinkCommand::Open) == 0);
        assert(count_of(commands.drop_last(), SinkCommand::Finalize) == 0);
    } else {
        let earlier = times.drop_last();
        assert(nondecreasing(earlier));
        lemma_sustained_noise_opens_once(start, earlier);
        let (before, given) = start.run(ticks(NoiseStates::Noise, earlier));
        let (end, commands) = start.run(events);
        assert(commands.drop_last() =~= given);
        assert(earlier[0] == times[0]);
        assert(earlier.last() == times[times.len() - 2]);
        assert(times[0] <= times[times.len() - 2] <= times.last());
    }
}

/// From a recording trigger that last read noise, quiet that is read at
/// each of `times` finalizes the recording exactly once if it lasts for the
/// hold time, at the first reading that is that long after the first of
/// them, and never otherwise; nothing is opened and nothing is counted.
pub proof fn lemma_sustained_quiet_finalizes_once(start: RecorderState, times: Seq<u64>)
    requires
        start.recording_state == RecordingStates::Recording,
        start.noise_state == NoiseStates::Noise,
        times.len() > 0,
        nondecreasing(times),
    ensures
        ({
            let (end, commands) = start.run(ticks(NoiseStates::Quiet, times));
            let lasted = times.last() - times[0] >= start.timing.hold_ms;
            &&& commands.len() == times.len()
            &&& count_of(commands, SinkCommand::Finalize) == if lasted { 1nat } else { 0nat }
            &&& count_of(commands, SinkCommand::Open) == 0
            &&& forall|i: int|
                0 <= i < times.len() ==> ((#[trigger] commands[i]) == SinkCommand::Finalize <==> (
                times[i] - times[0] >= start.timing.hold_ms && (i == 0 || times[i - 1] - times[0]
                    < start.timing.hold_ms)))
            &&& end.is_recording() == !lasted
            &&& end.event_count == start.event_count
            &&& end.sink_failures == start.sink_failures
            &&& end.noise_state == NoiseStates::Quiet
            &&& end.last_noise_change == times[0]
            &&& end.timing == start.timing
        }),
    decreases times.len(),
{
    let events = ticks(NoiseStates::Quiet, times);
    assert(events.drop_last() =~= ticks(NoiseStates::Quiet, times.drop_last()));
    if times.len() == 1 {
        assert(start.run(events.drop_last()) == (start, Seq::<SinkCommand>::empty()));
        let (end, commands) = start.run(events);
        assert(commands.drop_last() =~= Seq::<SinkCommand>::empty());
        assert(count_of(commands.drop_last(), SinkCommand::Open) == 0);
        assert(count_of(commands.drop_last(), SinkCommand::Finalize) == 0);
    } else {
        let earlier = times.drop_last();
        assert(nondecreasing(earlier));
        lemma_sustained_quiet_finalizes_once(start, earlier);
        let (before, given) = start.run(ticks(NoiseStates::Quiet, earlier));
        let (end, commands) = start.run(events);
        assert(commands.drop_last() =~= given);
        assert(earlier[0] == times[0]);
        assert(earlier.last() == times[times.len() - 2]);
        assert(times[0] <= times[times.len() - 2] <= times.last());
    }
}

} // verus!
