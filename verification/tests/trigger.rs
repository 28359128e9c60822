use audio_logger::recorder::{NoiseStates, RecordingStates};
use audio_logger::trigger::{
    RecorderEvent, RecorderState, SinkCommand, Timing, DEFAULT_DEBOUNCE_MS, DEFAULT_HOLD_MS,
};

fn fresh() -> RecorderState {
    RecorderState::new(Timing::standard(), 0)
}

#[test]
fn standard_timing_is_750_ms_and_10_s() {
    assert_eq!(DEFAULT_DEBOUNCE_MS, 750);
    assert_eq!(DEFAULT_HOLD_MS, 10_000);
    assert_eq!(Timing::standard(), Timing { debounce_ms: 750, hold_ms: 10_000 });
}

#[test]
fn a_new_trigger_waits_in_quiet() {
    let state = RecorderState::new(Timing { debounce_ms: 1, hold_ms: 2 }, 42);
    assert_eq!(state.recording_state, RecordingStates::Waiting);
    assert_eq!(state.noise_state, NoiseStates::Quiet);
    assert_eq!(state.last_noise_change, 42);
    assert_eq!(state.last_phase_change, 42);
    assert_eq!(state.event_count, 0);
    assert_eq!(state.events_before_open, 0);
    assert_eq!(state.sink_failures, 0);
    assert_eq!(state.timing, Timing { debounce_ms: 1, hold_ms: 2 });
}

#[test]
fn quiet_while_waiting_changes_nothing() {
    let state = fresh();
    let (next, command) = state.tick(NoiseStates::Quiet, 5_000);
    assert_eq!(command, SinkCommand::Nothing);
    assert_eq!(next, state);
}

#[test]
fn sustained_noise_opens_exactly_once() {
    let mut state = fresh();
    let mut opens = 0;
    let mut now = 1_000;
    let mut opened_at = None;
    while now <= 5_000 {
        let (next, command) = state.tick(NoiseStates::Noise, now);
        if command == SinkCommand::Open {
            opens += 1;
            opened_at = Some(now);
        }
        assert_ne!(command, SinkCommand::Finalize);
        state = next;
        now += 250;
    }
    assert_eq!(opens, 1);
    assert_eq!(opened_at, Some(1_750));
    assert_eq!(state.recording_state, RecordingStates::Recording);
    assert_eq!(state.event_count, 1);
    assert_eq!(state.last_noise_change, 1_000);
    assert_eq!(state.last_phase_change, 1_750);
}

#[test]
fn noise_shorter_than_the_debounce_opens_nothing() {
    let mut state = fresh();
    for now in [0, 250, 500, 749] {
        let (next, command) = state.tick(NoiseStates::Noise, now);
        assert_eq!(command, SinkCommand::Nothing);
        state = next;
    }
    let (next, command) = state.tick(NoiseStates::Quiet, 750);
    assert_eq!(command, SinkCommand::Nothing);
    assert_eq!(next.recording_state, RecordingStates::Waiting);
    assert_eq!(next.event_count, 0);
    // the clock restarts with the next noise
    let (next, command) = next.tick(NoiseStates::Noise, 1_000);
    assert_eq!(command, SinkCommand::Nothing);
    let (next, command) = next.tick(NoiseStates::Noise, 1_749);
    assert_eq!(command, SinkCommand::Nothing);
    let (next, command) = next.tick(NoiseStates::Noise, 1_750);
    assert_eq!(command, SinkCommand::Open);
    assert_eq!(next.event_count, 1);
}

#[test]
fn sustained_quiet_finalizes_exactly_once() {
    let mut state = fresh();
    state = state.tick(NoiseStates::Noise, 0).0;
    let (recording, command) = state.tick(NoiseStates::Noise, 750);
    assert_eq!(command, SinkCommand::Open);
    state = recording;

    let mut finalizes = 0;
    let mut closed_at = None;
    let mut now = 2_000;
    while now <= 20_000 {
        let (next, command) = state.tick(NoiseStates::Quiet, now);
        if command == SinkCommand::Finalize {
            finalizes += 1;
            closed_at = Some(now);
        }
        assert_ne!(command, SinkCommand::Open);
        state = next;
        now += 250;
    }
    assert_eq!(finalizes, 1);
    assert_eq!(closed_at, Some(12_000));
    assert_eq!(state.recording_state, RecordingStates::Waiting);
    assert_eq!(state.event_count, 1);
}

#[test]
fn noise_during_the_hold_keeps_the_recording_open() {
    let timing = Timing { debounce_ms: 0, hold_ms: 1_000 };
    let state = RecorderState::new(timing, 0);
    let (state, command) = state.tick(NoiseStates::Noise, 10);
    assert_eq!(command, SinkCommand::Open);
    let (state, command) = state.tick(NoiseStates::Quiet, 100);
    assert_eq!(command, SinkCommand::Nothing);
    let (state, command) = state.tick(NoiseStates::Quiet, 1_099);
    assert_eq!(command, SinkCommand::Nothing);
    let (state, command) = state.tick(NoiseStates::Noise, 1_100);
    assert_eq!(command, SinkCommand::Nothing);
    let (state, command) = state.tick(NoiseStates::Quiet, 1_200);
    assert_eq!(command, SinkCommand::Nothing);
    let (state, command) = state.tick(NoiseStates::Quiet, 2_199);
    assert_eq!(command, SinkCommand::Nothing);
    assert_eq!(state.recording_state, RecordingStates::Recording);
    let (state, command) = state.tick(NoiseStates::Quiet, 2_200);
    assert_eq!(command, SinkCommand::Finalize);
    assert_eq!(state.recording_state, RecordingStates::Waiting);
    assert_eq!(state.event_count, 1);
}

#[test]
fn event_count_goes_up_once_per_recording() {
    let timing = Timing { debounce_ms: 100, hold_ms: 100 };
    let mut state = RecorderState::new(timing, 0);
    let mut now = 0;
    for cycle in 1..=3u64 {
        for _ in 0..10 {
            now += 50;
            state = state.tick(NoiseStates::Noise, now).0;
        }
        assert_eq!(state.recording_state, RecordingStates::Recording);
        assert_eq!(state.event_count, cycle);
        for _ in 0..10 {
            now += 50;
            state = state.tick(NoiseStates::Quiet, now).0;
        }
        assert_eq!(state.recording_state, RecordingStates::Waiting);
        assert_eq!(state.event_count, cycle);
    }
}

#[test]
fn a_clock_that_goes_backwards_counts_as_no_time() {
    let state = RecorderState::new(Timing::standard(), 0);
    let (state, _) = state.tick(NoiseStates::Noise, 10_000);
    let (state, command) = state.tick(NoiseStates::Noise, 5_000);
    assert_eq!(command, SinkCommand::Nothing);
    assert_eq!(state.recording_state, RecordingStates::Waiting);
}

#[test]
fn counters_stop_at_the_top() {
    let mut state = RecorderState::new(Timing { debounce_ms: 0, hold_ms: 0 }, 0);
    state.event_count = u64::MAX;
    state.sink_failures = u64::MAX;
    let (state, command) = state.tick(NoiseStates::Noise, 1);
    assert_eq!(command, SinkCommand::Open);
    assert_eq!(state.event_count, u64::MAX);
    let written = state.sink_failed(2);
    assert_eq!(written.sink_failures, u64::MAX);
    assert_eq!(written.event_count, u64::MAX);
    let unopened = state.sink_open_failed(2);
    assert_eq!(unopened.sink_failures, u64::MAX);
    assert_eq!(unopened.event_count, u64::MAX);

    let mut below = RecorderState::new(Timing { debounce_ms: 0, hold_ms: 0 }, 0);
    below.event_count = u64::MAX - 1;
    let (opened, command) = below.tick(NoiseStates::Noise, 1);
    assert_eq!(command, SinkCommand::Open);
    assert_eq!(opened.event_count, u64::MAX);
    assert_eq!(opened.sink_open_failed(2).event_count, u64::MAX - 1);
}

#[test]
fn a_failed_open_falls_back_to_waiting_and_is_no_event() {
    let state = RecorderState::new(Timing { debounce_ms: 0, hold_ms: 50 }, 0);
    let (state, command) = state.tick(NoiseStates::Noise, 1);
    assert_eq!(command, SinkCommand::Open);
    assert_eq!(state.event_count, 1);
    let state = state.sink_open_failed(2);
    assert_eq!(state.recording_state, RecordingStates::Waiting);
    assert_eq!(state.sink_failures, 1);
    assert_eq!(state.event_count, 0);
    assert_eq!(state.last_phase_change, 2);
    // a report with nothing open changes nothing
    let again = state.sink_open_failed(3);
    assert_eq!(again, state);
}

#[test]
fn openings_that_keep_failing_never_raise_the_count() {
    let mut state = RecorderState::new(Timing::standard(), 0);
    let (next, command) = state.tick(NoiseStates::Noise, 0);
    assert_eq!(command, SinkCommand::Nothing);
    state = next;
    let mut now = 1_000;
    for attempt in 1..=20u64 {
        let (next, command) = state.tick(NoiseStates::Noise, now);
        assert_eq!(command, SinkCommand::Open);
        state = next.sink_open_failed(now);
        assert_eq!(state.recording_state, RecordingStates::Waiting);
        assert_eq!(state.event_count, 0);
        assert_eq!(state.sink_failures, attempt);
        now += 250;
    }
    // the disk has room again
    let (state, command) = state.tick(NoiseStates::Noise, now);
    assert_eq!(command, SinkCommand::Open);
    assert_eq!(state.event_count, 1);
    let (state, command) = state.tick(NoiseStates::Noise, now + 250);
    assert_eq!(command, SinkCommand::Nothing);
    assert_eq!(state.event_count, 1);
    assert_eq!(state.sink_failures, 20);
}

#[test]
fn a_failure_while_writing_gives_the_recording_up_but_keeps_it_counted() {
    let state = RecorderState::new(Timing { debounce_ms: 0, hold_ms: 50 }, 0);
    let (state, command) = state.tick(NoiseStates::Noise, 1);
    assert_eq!(command, SinkCommand::Open);
    let (state, command) = state.tick(NoiseStates::Noise, 5);
    assert_eq!(command, SinkCommand::Nothing);
    let state = state.sink_failed(9);
    assert_eq!(state.recording_state, RecordingStates::Waiting);
    assert_eq!(state.sink_failures, 1);
    assert_eq!(state.event_count, 1);
    assert_eq!(state.last_phase_change, 9);
    let again = state.sink_failed(10);
    assert_eq!(again, state);
}

#[test]
fn shutdown_finalizes_an_open_recording_only() {
    let waiting = fresh();
    let (after, command) = waiting.shutdown(9);
    assert_eq!(command, SinkCommand::Nothing);
    assert_eq!(after, waiting);

    let (recording, _) = RecorderState::new(Timing { debounce_ms: 0, hold_ms: 50 }, 0)
        .tick(NoiseStates::Noise, 1);
    assert_eq!(recording.recording_state, RecordingStates::Recording);
    let (after, command) = recording.shutdown(9);
    assert_eq!(command, SinkCommand::Finalize);
    assert_eq!(after.recording_state, RecordingStates::Waiting);
    assert_eq!(after.last_phase_change, 9);
    assert_eq!(after.event_count, 1);
}

#[test]
fn handle_dispatches_each_event() {
    let state = RecorderState::new(Timing { debounce_ms: 0, hold_ms: 50 }, 0);
    let (state, command) = state.handle(RecorderEvent::Tick { noise: NoiseStates::Noise, now: 1 });
    assert_eq!(command, SinkCommand::Open);
    let (state, command) = state.handle(RecorderEvent::SinkFailed { now: 2 });
    assert_eq!(command, SinkCommand::Nothing);
    assert_eq!(state.sink_failures, 1);
    assert_eq!(state.event_count, 1);
    let (state, command) = state.handle(RecorderEvent::Tick { noise: NoiseStates::Noise, now: 3 });
    assert_eq!(command, SinkCommand::Open);
    assert_eq!(state.event_count, 2);
    let (state, command) = state.handle(RecorderEvent::OpenFailed { now: 4 });
    assert_eq!(command, SinkCommand::Nothing);
    assert_eq!(state.sink_failures, 2);
    assert_eq!(state.event_count, 1);
    let (state, command) = state.handle(RecorderEvent::Tick { noise: NoiseStates::Noise, now: 5 });
    assert_eq!(command, SinkCommand::Open);
    let (state, command) = state.handle(RecorderEvent::Shutdown { now: 6 });
    assert_eq!(command, SinkCommand::Finalize);
    assert_eq!(state.recording_state, RecordingStates::Waiting);
    assert_eq!(state.event_count, 2);
}

#[test]
fn every_open_is_matched_over_a_scrambled_run() {
    let mut state = RecorderState::new(Timing { debounce_ms: 300, hold_ms: 700 }, 0);
    let mut seed: u32 = 7;
    let mut open = false;
    let mut opens = 0u64;
    let mut closes = 0u64;
    let mut unopened = 0u64;
    let mut now = 0u64;
    for _ in 0..5_000 {
        seed = seed.wrapping_mul(1664525).wrapping_add(1013904223);
        now += ((seed >> 8) % 400) as u64;
        let event = match (seed >> 24) % 16 {
            0 => RecorderEvent::SinkFailed { now },
            1 => RecorderEvent::Shutdown { now },
            2 | 3 => RecorderEvent::OpenFailed { now },
            n if n < 9 => RecorderEvent::Tick { noise: NoiseStates::Noise, now },
            _ => RecorderEvent::Tick { noise: NoiseStates::Quiet, now },
        };
        let (next, command) = state.handle(event);
        match command {
            SinkCommand::Open => {
                assert!(!open);
                open = true;
                opens += 1;
            }
            SinkCommand::Finalize => {
                assert!(open);
                open = false;
                closes += 1;
            }
            SinkCommand::Nothing => {
                if matches!(event, RecorderEvent::SinkFailed { .. }) && open {
                    open = false;
                    closes += 1;
                }
                if matches!(event, RecorderEvent::OpenFailed { .. }) && open {
                    open = false;
                    closes += 1;
                    unopened += 1;
                }
            }
        }
        assert_eq!(open, next.recording_state == RecordingStates::Recording);
        assert_eq!(next.event_count, opens - unopened);
        state = next;
    }
    let (_, command) = state.handle(RecorderEvent::Shutdown { now });
    if open {
        assert_eq!(command, SinkCommand::Finalize);
        closes += 1;
    } else {
        assert_eq!(command, SinkCommand::Nothing);
    }
    assert!(opens > 10);
    assert!(unopened > 10);
    assert_eq!(opens, closes);
}

#[test]
fn labels_name_the_states() {
    assert_eq!(RecordingStates::Recording.label(), "Recording");
    assert_eq!(RecordingStates::Waiting.label(), "Waiting");
}
