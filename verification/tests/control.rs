use rustdac::bridge::{
    after_run, frames_per_buffer, is_due, startup, NextStep, RunEnd, CHANNELS, SAMPLE_RATE_HZ,
};
use rustdac::calibration::{Calibration, CalibrationUpdate, CAL_FRAMES, MIN_THRESHOLD};
use rustdac::gate::{
    input_wakes, watch_consumers, FrameState, Gate, SilenceGate, WakeUp, WatchUpdate, SLEEP_FRAMES,
};
use rustdac::console::{Console, Key, KeyAction};
use rustdac::preset::AecPreset;
use rustdac::processor::{FrameStart, Processor, Stage};
use rustdac::single::Single;

fn single(x: f32) -> Single {
    Single { bits: x.to_bits() }
}

fn plus(x: Single, y: Single) -> Single {
    single(f32::from_bits(x.bits) + f32::from_bits(y.bits))
}

fn mean(x: Single, n: u32) -> Single {
    single(f32::from_bits(x.bits) / n as f32)
}

fn calibrate(level: f32) -> f32 {
    let mut calibration = Calibration::new();
    for _ in 0..CAL_FRAMES - 1 {
        let update = calibration.observe(true, single(level), plus, mean);
        assert_eq!(
            update,
            CalibrationUpdate { calibrating: Some(true), triggered: None, threshold: None }
        );
    }
    let update = calibration.observe(true, single(level), plus, mean);
    assert_eq!(update.calibrating, Some(false));
    assert_eq!(update.triggered, Some(false));
    assert_eq!(calibration, Calibration::new());
    f32::from_bits(update.threshold.unwrap().bits)
}

#[test]
fn calibration_sets_twice_the_average() {
    assert_eq!(calibrate(0.25), 0.5);
    assert_eq!(calibrate(0.0625), 0.125);
}

#[test]
fn calibration_has_a_smallest_threshold() {
    assert_eq!(calibrate(0.0), 0.001);
    assert_eq!(calibrate(0.0001), 0.001);
    assert_eq!(calibrate(f32::NAN), 0.001);
    assert_eq!(MIN_THRESHOLD, 0.001f32.to_bits());
}

#[test]
fn calibration_waits_until_it_is_asked_for() {
    let mut calibration = Calibration::new();
    calibration.observe(true, single(0.5), plus, mean);
    let before = calibration;
    let update = calibration.observe(false, single(0.5), plus, mean);
    assert_eq!(update, CalibrationUpdate { calibrating: None, triggered: None, threshold: None });
    assert_eq!(calibration, before);
    assert_eq!(before.count, 1);
    assert_eq!(before.sum, single(0.5));
}

fn frame(level: f32) -> FrameState {
    FrameState {
        no_consumers: false,
        triggered: false,
        level: single(level),
        threshold: single(0.02),
    }
}

#[test]
fn sleeps_after_enough_silence_and_not_before() {
    let mut gate = SilenceGate::new();
    for _ in 0..3 {
        for n in 1..SLEEP_FRAMES {
            assert_eq!(gate.decide(frame(0.01)), Gate::Run);
            assert_eq!(gate.silent_frames, n);
        }
        assert_eq!(gate.decide(frame(0.01)), Gate::ParkForSound);
        assert_eq!(gate.silent_frames, 0);
    }
    assert_eq!(SLEEP_FRAMES, 20);
}

#[test]
fn sound_and_calibration_restart_the_count() {
    let mut gate = SilenceGate { silent_frames: SLEEP_FRAMES - 1 };
    assert_eq!(gate.decide(frame(0.02)), Gate::Run);
    assert_eq!(gate.silent_frames, 0);
    let mut gate = SilenceGate { silent_frames: SLEEP_FRAMES - 1 };
    assert_eq!(gate.decide(frame(f32::NAN)), Gate::Run);
    assert_eq!(gate.silent_frames, 0);
    let mut gate = SilenceGate { silent_frames: SLEEP_FRAMES - 1 };
    let mut state = frame(0.0);
    state.triggered = true;
    assert_eq!(gate.decide(state), Gate::Run);
    assert_eq!(gate.silent_frames, 0);
    gate.silent_frames = 7;
    gate.reset();
    assert_eq!(gate.silent_frames, 0);
}

#[test]
fn nobody_listening_parks_at_once() {
    let mut gate = SilenceGate { silent_frames: 5 };
    let mut state = frame(0.9);
    state.no_consumers = true;
    state.triggered = true;
    assert_eq!(gate.decide(state), Gate::ParkForConsumer);
    assert_eq!(gate.silent_frames, 0);
}

#[test]
fn parked_thread_waits_for_its_flags() {
    assert!(!Gate::Run.stays_parked(true, true));
    assert!(Gate::ParkForSound.stays_parked(false, true));
    assert!(!Gate::ParkForSound.stays_parked(true, false));
    assert!(Gate::ParkForConsumer.stays_parked(false, true));
    assert!(Gate::ParkForConsumer.stays_parked(true, false));
    assert!(!Gate::ParkForConsumer.stays_parked(false, false));
    assert!(!Gate::Run.falls_asleep());
    assert!(Gate::ParkForConsumer.falls_asleep());
    assert!(Gate::ParkForSound.falls_asleep());
}

#[test]
fn only_a_sound_wakes_a_sleeper() {
    let wake = WakeUp { clear_sleeping: true, unpark: true };
    let leave = WakeUp { clear_sleeping: false, unpark: false };
    assert_eq!(input_wakes(true, single(0.03), single(0.02)), wake);
    assert_eq!(input_wakes(true, single(0.02), single(0.02)), leave);
    assert_eq!(input_wakes(true, single(0.01), single(0.02)), leave);
    assert_eq!(input_wakes(true, single(f32::NAN), single(0.02)), leave);
    assert_eq!(input_wakes(false, single(0.03), single(0.02)), leave);
}

#[test]
fn watcher_unparks_for_a_new_consumer() {
    let update = |no_consumers: bool, wake: bool| WatchUpdate {
        no_consumers,
        clear_sleeping: wake,
        unpark: wake,
    };
    assert_eq!(watch_consumers(true, true), update(false, true));
    assert_eq!(watch_consumers(false, true), update(false, false));
    assert_eq!(watch_consumers(true, false), update(true, false));
    assert_eq!(watch_consumers(false, false), update(true, false));
}

#[test]
fn watcher_wakes_a_sleeper_for_a_new_consumer() {
    for parked in [Gate::ParkForConsumer, Gate::ParkForSound] {
        let update = watch_consumers(true, true);
        assert!(update.unpark);
        assert!(!parked.stays_parked(update.no_consumers, !update.clear_sleeping));
        let update = watch_consumers(false, true);
        assert!(!update.unpark);
        assert!(parked.stays_parked(update.no_consumers, !update.clear_sleeping));
    }
}

#[test]
fn wake_key_wakes_a_sleeper() {
    let mut console = Console::new();
    let wake_up = console.on_key(true, Key::Char('w'), false).wake_up();
    assert_eq!(wake_up, WakeUp { clear_sleeping: true, unpark: true });
    assert!(!Gate::ParkForSound.stays_parked(false, !wake_up.clear_sleeping));
    assert!(!Gate::ParkForSound.stays_parked(true, !wake_up.clear_sleeping));
    assert!(!Gate::ParkForConsumer.stays_parked(false, !wake_up.clear_sleeping));
    assert!(Gate::ParkForConsumer.stays_parked(true, !wake_up.clear_sleeping));
    for (pressed, key) in [(false, 'w'), (true, 's'), (true, 'c'), (true, 'q'), (true, 'x')] {
        let wake_up = console.on_key(pressed, Key::Char(key), false).wake_up();
        assert_eq!(wake_up, WakeUp { clear_sleeping: false, unpark: false });
    }
}

#[test]
fn new_preset_rebuilds_the_canceller_once() {
    let mut processor = Processor::new();
    assert_eq!(processor.preset, AecPreset::Aggressive);
    let start = processor.begin_frame(false, Some(AecPreset::Aggressive));
    assert_eq!(start, FrameStart { clear_sleeping: false, rebuild: None });
    let start = processor.begin_frame(false, Some(AecPreset::Transparent));
    assert_eq!(start.rebuild, Some(AecPreset::Transparent));
    assert_eq!(processor.preset, AecPreset::Transparent);
    let start = processor.begin_frame(false, None);
    assert_eq!(start.rebuild, None);
    assert_eq!(processor.preset, AecPreset::Transparent);
}

#[test]
fn waking_restarts_the_silence_count() {
    let mut processor = Processor::new();
    processor.gate.silent_frames = 17;
    processor.begin_frame(false, None);
    assert_eq!(processor.gate.silent_frames, 17);
    let start = processor.begin_frame(true, None);
    assert!(start.clear_sleeping);
    assert_eq!(processor.gate.silent_frames, 0);
}

#[test]
fn stages_come_in_order() {
    let mut stages = vec![Stage::first()];
    while let Some(stage) = stages[stages.len() - 1].next() {
        stages.push(stage);
    }
    assert_eq!(
        stages,
        vec![
            Stage::SpreadCapture,
            Stage::RemoveRumble,
            Stage::LoadCapture,
            Stage::AnalyzeCapture,
            Stage::SplitCapture,
            Stage::FilterLowBand,
            Stage::SpreadRender,
            Stage::LoadRender,
            Stage::SplitRender,
            Stage::AnalyzeRender,
            Stage::CancelEcho,
            Stage::MergeCapture,
            Stage::UnloadOutput,
            Stage::FrameOutput,
            Stage::ReportMetrics,
            Stage::SendOutput,
            Stage::MeasureLevel,
        ]
    );
}

#[test]
fn starts_calibrating_with_nobody_listening() {
    let shared = startup();
    assert!(!shared.sleeping);
    assert!(shared.no_consumers);
    assert!(shared.triggered);
    assert!(!shared.calibrating);
    assert_eq!(shared.threshold, single(0.02));
    assert_eq!(shared.level, single(0.0));
}

#[test]
fn buffers_hold_ten_milliseconds() {
    assert_eq!(frames_per_buffer(SAMPLE_RATE_HZ), 480);
    assert_eq!(frames_per_buffer(44_100), 441);
    assert_eq!(CHANNELS, 2);
}

#[test]
fn intervals_end_on_time() {
    assert!(!is_due(99_999_999, 100));
    assert!(is_due(100_000_000, 100));
    assert!(is_due(u128::MAX, u64::MAX));
}

#[test]
fn only_quitting_ends_the_program() {
    assert_eq!(after_run(RunEnd::Quit), NextStep::Exit);
    assert_eq!(after_run(RunEnd::DeviceMissing), NextStep::Restart);
    assert_eq!(after_run(RunEnd::StreamError), NextStep::Restart);
    assert_eq!(after_run(RunEnd::Failed), NextStep::RestartAfterFailure);
}

#[test]
fn silent_start_sleeps_only_after_calibration_and_silence() {
    let shared = startup();
    let mut triggered = shared.triggered;
    let mut threshold = shared.threshold;
    let mut processor = Processor::new();
    let level = single(0.0);
    let mut frames = 0;
    loop {
        frames += 1;
        let (update, gate) = processor.end_frame(false, triggered, threshold, level, plus, mean);
        triggered = update.triggered.unwrap_or(triggered);
        threshold = update.threshold.unwrap_or(threshold);
        if gate != Gate::Run {
            assert_eq!(gate, Gate::ParkForSound);
            break;
        }
        assert_eq!(triggered, frames < CAL_FRAMES);
        assert_eq!(threshold, if frames < CAL_FRAMES { single(0.02) } else { single(0.001) });
    }
    assert_eq!(frames, CAL_FRAMES + SLEEP_FRAMES - 1);
}

#[test]
fn sleep_is_decided_by_the_threshold_just_found() {
    let mut processor = Processor::new();
    let level = single(0.01);
    for _ in 1..CAL_FRAMES {
        let (update, gate) = processor.end_frame(false, true, single(0.001), level, plus, mean);
        assert_eq!((update.calibrating, update.triggered), (Some(true), None));
        assert_eq!((update.threshold, gate), (None, Gate::Run));
    }
    let (update, gate) = processor.end_frame(false, true, single(0.001), level, plus, mean);
    assert_eq!((update.calibrating, update.triggered), (Some(false), Some(false)));
    assert!(update.threshold.unwrap().bits > level.bits);
    assert_eq!((gate, processor.gate.silent_frames), (Gate::Run, 1));
    let (update, gate) = processor.end_frame(false, false, single(0.001), level, plus, mean);
    assert_eq!((update.calibrating, update.triggered, update.threshold), (None, None, None));
    assert_eq!((gate, processor.gate.silent_frames), (Gate::Run, 0));
}

#[test]
fn unheard_frame_parks_and_still_calibrates() {
    let mut processor = Processor::new();
    processor.gate.silent_frames = 7;
    let (update, gate) =
        processor.end_frame(true, true, single(0.02), single(0.5), plus, mean);
    assert_eq!(gate, Gate::ParkForConsumer);
    assert_eq!(processor.gate.silent_frames, 0);
    assert_eq!(processor.calibration.count, 1);
    assert_eq!(update.calibrating, Some(true));
    assert_eq!(processor.preset, AecPreset::Aggressive);
}

#[test]
fn processing_follows_the_console() {
    let mut console = Console::new();
    let mut processor = Processor::new();
    for key in ['s', 'w', 's', 's', 'c', 'x', 's', 's'] {
        if let KeyAction::SendPreset(preset) = console.on_key(true, Key::Char(key), false) {
            let start = processor.begin_frame(false, Some(preset));
            assert_eq!(start.rebuild, Some(preset));
        }
        assert_eq!(processor.preset, console.preset);
    }
    assert_eq!(console.preset, AecPreset::Transparent);
}

#[test]
fn silent_frames_do_not_wake() {
    for level in [0.0, 0.01, 0.0199, 0.02, 0.0201, 0.5, f32::NAN] {
        let mut gate = SilenceGate { silent_frames: 10 };
        gate.decide(frame(level));
        let counted = gate.silent_frames == 11;
        assert!(!(counted && input_wakes(true, single(level), single(0.02)).unpark));
    }
}
