use stirling_engine::controls::{Button, ButtonState, ControlsState, DeviceInput};
use stirling_engine::{
    FrameOutcome, PollMode, StirlingEngine, StirlingEngineBuilderError, StirlingEngineControlFlow,
    NANOS_PER_SECOND,
};

type Update = fn(u128, &ControlsState) -> StirlingEngineControlFlow;

const MS: u128 = 1_000_000;

fn until_forty(ticks: u128, _controls: &ControlsState) -> StirlingEngineControlFlow {
    if ticks < 40 {
        return StirlingEngineControlFlow::Run;
    }
    StirlingEngineControlFlow::Exit
}

fn started(tps: u8, watchdog: u128, now: u128) -> StirlingEngine {
    let update: Update = until_forty;
    match StirlingEngine::new()
        .set_tps(tps)
        .set_watchdog_time(watchdog)
        .set_update_method(update)
        .run(now)
    {
        Ok((engine, _)) => engine,
        Err(error) => panic!("{:?}", error),
    }
}

/// One frame: the clock reading, then every tick that is due.
fn frame(engine: &mut StirlingEngine, now: u128) -> FrameOutcome {
    let outcome = engine.advance(now);
    while engine.next_tick().is_some() {}
    outcome
}

#[test]
fn twenty_ticks_per_second_over_three_frames() {
    let mut engine = started(20, NANOS_PER_SECOND, 0);
    assert_eq!(engine.time_per_tick(), 50 * MS);
    assert_eq!(engine.watchdog_time(), 1000 * MS);
    assert_eq!(frame(&mut engine, 0), FrameOutcome::Ticks(0));
    assert_eq!(engine.tick_time(), 0);
    assert_eq!(frame(&mut engine, 120 * MS), FrameOutcome::Ticks(2));
    assert_eq!(engine.tick_time(), 20 * MS);
    assert_eq!(frame(&mut engine, 170 * MS), FrameOutcome::Ticks(1));
    assert_eq!(engine.tick_time(), 20 * MS);
    assert_eq!(engine.last_cycle(), 170 * MS);
}

#[test]
fn a_whole_tick_at_hand_is_taken_out() {
    let mut engine = started(20, NANOS_PER_SECOND, 0);
    assert_eq!(frame(&mut engine, 50 * MS), FrameOutcome::Ticks(1));
    assert_eq!(engine.tick_time(), 0);
    assert_eq!(frame(&mut engine, 150 * MS), FrameOutcome::Ticks(2));
    assert_eq!(engine.tick_time(), 0);
    assert_eq!(frame(&mut engine, 150 * MS + 49_999_999), FrameOutcome::Ticks(0));
    assert_eq!(engine.tick_time(), 49_999_999);
    assert_eq!(frame(&mut engine, 150 * MS + 50_000_000), FrameOutcome::Ticks(1));
    assert_eq!(engine.tick_time(), 0);
}

#[test]
fn watchdog_trips_only_beyond_its_threshold() {
    let mut engine = started(20, NANOS_PER_SECOND, 5 * MS);
    assert_eq!(frame(&mut engine, 5 * MS + 30 * MS), FrameOutcome::Ticks(0));
    assert_eq!(engine.tick_time(), 30 * MS);
    let at = 35 * MS + NANOS_PER_SECOND;
    let outcome = frame(&mut engine, at);
    assert_eq!(outcome, FrameOutcome::Ticks(20));
    assert_eq!(outcome.ticks(), 20);
    assert_eq!(engine.tick_time(), 30 * MS);
    let outcome = frame(&mut engine, at + NANOS_PER_SECOND + 1);
    assert_eq!(outcome, FrameOutcome::WatchdogExceeded);
    assert_eq!(outcome.ticks(), 0);
    assert_eq!(engine.tick_time(), 30 * MS);
    assert_eq!(engine.tick(), 20);
    assert_eq!(engine.last_cycle(), at + NANOS_PER_SECOND + 1);
}

#[test]
fn ticks_and_time_at_hand_add_up() {
    let mut engine = started(30, NANOS_PER_SECOND, 1_000);
    let per_tick = engine.time_per_tick();
    assert_eq!(per_tick, 33_333_333);
    let readings: [u128; 6] = [1_000, 7 * MS, 99 * MS, 100 * MS, 733 * MS, 1_500 * MS];
    let mut ticks: u128 = 0;
    for now in readings {
        ticks += frame(&mut engine, now).ticks();
        assert!(engine.tick_time() < per_tick);
        assert_eq!(ticks * per_tick + engine.tick_time(), now - 1_000);
    }
    assert_eq!(ticks, 44);
    assert_eq!(engine.tick_time(), 33_332_348);
}

#[test]
fn a_clock_that_goes_back_adds_no_time() {
    let mut engine = started(20, NANOS_PER_SECOND, 500 * MS);
    assert_eq!(frame(&mut engine, 400 * MS), FrameOutcome::Ticks(0));
    assert_eq!(engine.tick_time(), 0);
    assert_eq!(engine.last_cycle(), 400 * MS);
    assert_eq!(frame(&mut engine, 460 * MS), FrameOutcome::Ticks(1));
    assert_eq!(engine.tick_time(), 10 * MS);
}

#[test]
fn zero_watchdog_allows_no_gap() {
    let mut engine = started(20, 0, 10);
    assert_eq!(frame(&mut engine, 10), FrameOutcome::Ticks(0));
    assert_eq!(frame(&mut engine, 11), FrameOutcome::WatchdogExceeded);
}

#[test]
fn tick_length_is_a_second_divided_by_the_rate() {
    assert_eq!(started(1, 0, 0).time_per_tick(), 1_000_000_000);
    assert_eq!(started(3, 0, 0).time_per_tick(), 333_333_333);
    assert_eq!(started(60, 0, 0).time_per_tick(), 16_666_666);
    assert_eq!(started(255, 0, 0).time_per_tick(), 3_921_568);
}

#[test]
fn huge_gap_under_a_huge_watchdog() {
    let mut engine = started(1, u128::MAX, 0);
    assert_eq!(engine.advance(u128::MAX), FrameOutcome::Ticks(u128::MAX / 1_000_000_000));
    assert_eq!(engine.pending(), 340_282_366_920_938_463_463_374_607_431);
    assert_eq!(engine.tick_time(), 768_211_455);
}

#[test]
fn ticks_are_numbered_from_one() {
    let mut engine = started(20, NANOS_PER_SECOND, 0);
    assert_eq!(engine.tick(), 0);
    assert_eq!(engine.pending(), 0);
    assert_eq!(engine.next_tick(), None);
    assert_eq!(engine.advance(120 * MS), FrameOutcome::Ticks(2));
    assert_eq!(engine.pending(), 2);
    assert_eq!(engine.tick(), 0);
    assert_eq!(engine.next_tick(), Some(1));
    assert_eq!(engine.pending(), 1);
    assert_eq!(engine.next_tick(), Some(2));
    assert_eq!(engine.next_tick(), None);
    assert_eq!(engine.tick(), 2);
    assert_eq!(engine.advance(170 * MS), FrameOutcome::Ticks(1));
    assert_eq!(engine.tick(), 2);
    assert_eq!(engine.next_tick(), Some(3));
    assert_eq!(engine.next_tick(), None);
    assert_eq!(engine.tick(), 3);
    assert_eq!(engine.tick_time(), 20 * MS);
}

#[test]
fn a_started_engine_is_running() {
    let engine = started(20, NANOS_PER_SECOND, 0);
    assert_eq!(engine.poll_mode(), PollMode::Poll);
    assert_eq!(engine.pending(), 0);
    assert_eq!(engine.tick(), 0);
    assert_eq!(engine.tick_time(), 0);
}

#[test]
fn exit_drops_the_ticks_left_in_the_frame() {
    let mut engine = started(20, NANOS_PER_SECOND, 0);
    assert_eq!(engine.advance(250 * MS), FrameOutcome::Ticks(5));
    assert_eq!(engine.next_tick(), Some(1));
    assert_eq!(engine.after_update(StirlingEngineControlFlow::Run), PollMode::Poll);
    assert_eq!(engine.pending(), 4);
    assert_eq!(engine.next_tick(), Some(2));
    assert_eq!(engine.after_update(StirlingEngineControlFlow::Exit), PollMode::Exit);
    assert_eq!(engine.poll_mode(), PollMode::Exit);
    assert_eq!(engine.pending(), 0);
    assert_eq!(engine.next_tick(), None);
    assert_eq!(engine.tick(), 2);
}

#[test]
fn pause_keeps_the_ticks_of_the_frame_and_run_resumes() {
    let mut engine = started(20, NANOS_PER_SECOND, 0);
    assert_eq!(engine.advance(100 * MS), FrameOutcome::Ticks(2));
    assert_eq!(engine.next_tick(), Some(1));
    assert_eq!(engine.after_update(StirlingEngineControlFlow::Pause), PollMode::Wait);
    assert_eq!(engine.poll_mode(), PollMode::Wait);
    assert_eq!(engine.pending(), 1);
    assert_eq!(engine.next_tick(), Some(2));
    assert_eq!(engine.after_update(StirlingEngineControlFlow::Pause), PollMode::Wait);
    assert_eq!(engine.next_tick(), None);
    assert_eq!(engine.advance(150 * MS), FrameOutcome::Ticks(1));
    assert_eq!(engine.poll_mode(), PollMode::Wait);
    assert_eq!(engine.next_tick(), Some(3));
    assert_eq!(engine.after_update(StirlingEngineControlFlow::Run), PollMode::Poll);
    assert_eq!(engine.poll_mode(), PollMode::Poll);
}

#[test]
fn a_run_that_is_over_stays_over() {
    let mut engine = started(20, NANOS_PER_SECOND, 0);
    assert_eq!(engine.after_update(StirlingEngineControlFlow::Exit), PollMode::Exit);
    assert_eq!(engine.after_update(StirlingEngineControlFlow::Run), PollMode::Exit);
    assert_eq!(engine.after_update(StirlingEngineControlFlow::Pause), PollMode::Exit);
    assert_eq!(engine.poll_mode(), PollMode::Exit);
    assert_eq!(engine.next_tick(), None);
}

#[test]
fn watchdog_ends_the_run_without_a_tick() {
    let mut engine = started(20, 100 * MS, 0);
    assert_eq!(engine.advance(100 * MS), FrameOutcome::Ticks(2));
    assert_eq!(engine.next_tick(), Some(1));
    assert_eq!(engine.next_tick(), Some(2));
    assert_eq!(engine.poll_mode(), PollMode::Poll);
    assert_eq!(engine.advance(200 * MS + 1), FrameOutcome::WatchdogExceeded);
    assert_eq!(engine.poll_mode(), PollMode::Exit);
    assert_eq!(engine.pending(), 0);
    assert_eq!(engine.next_tick(), None);
    assert_eq!(engine.tick(), 2);
    assert_eq!(engine.tick_time(), 0);
}

#[test]
fn engine_passes_device_events_to_its_controls() {
    let mut engine = started(20, NANOS_PER_SECOND, 0);
    assert!(engine.controls_state().get_pressed_buttons().is_empty());
    engine.handle_device_event(8, DeviceInput::Button { button: 2, pressed: true });
    engine.handle_device_event(8, DeviceInput::Other);
    engine.handle_device_event(8, DeviceInput::Button { button: 2, pressed: true });
    let controls = engine.controls_state();
    assert_eq!(controls.get_button_state(Button::Button(8, 2)), ButtonState::Held(1));
    assert_eq!(controls.get_pressed_buttons(), vec![Button::Button(8, 2)]);
    assert_eq!(engine.tick(), 0);
    assert_eq!(engine.tick_time(), 0);
}

#[test]
fn missing_tps_is_reported_first() {
    let builder = StirlingEngine::new::<Update>();
    assert_eq!(builder.run(0).err(), Some(StirlingEngineBuilderError::MissingTPS));
    let update: Update = until_forty;
    let builder = StirlingEngine::new().set_watchdog_time(5).set_update_method(update);
    assert_eq!(builder.run(0).err(), Some(StirlingEngineBuilderError::MissingTPS));
}

#[test]
fn missing_watchdog_time_is_reported_second() {
    let builder = StirlingEngine::new::<Update>().set_tps(20);
    assert_eq!(builder.run(0).err(), Some(StirlingEngineBuilderError::MissingWatchdogTime));
    let update: Update = until_forty;
    let builder = StirlingEngine::new().set_tps(20).set_update_method(update);
    assert_eq!(builder.run(0).err(), Some(StirlingEngineBuilderError::MissingWatchdogTime));
}

#[test]
fn missing_update_method_is_reported_last() {
    let builder = StirlingEngine::new::<Update>().set_tps(20).set_watchdog_time(5);
    assert_eq!(builder.run(0).err(), Some(StirlingEngineBuilderError::MissingUpdateMethod));
}

#[test]
fn zero_tps_is_rejected_before_anything_missing() {
    let update: Update = until_forty;
    let builder = StirlingEngine::new()
        .set_tps(0)
        .set_watchdog_time(NANOS_PER_SECOND)
        .set_update_method(update);
    assert_eq!(builder.run(0).err(), Some(StirlingEngineBuilderError::ZeroTPS));
    let builder = StirlingEngine::new::<Update>().set_tps(0);
    assert_eq!(builder.run(0).err(), Some(StirlingEngineBuilderError::ZeroTPS));
    let builder = StirlingEngine::new::<Update>().set_tps(0).set_watchdog_time(5);
    assert_eq!(builder.run(0).err(), Some(StirlingEngineBuilderError::ZeroTPS));
}

#[test]
fn zero_tps_is_mended_by_setting_it_again() {
    let update: Update = until_forty;
    let builder = StirlingEngine::new()
        .set_tps(0)
        .set_watchdog_time(NANOS_PER_SECOND)
        .set_update_method(update)
        .set_tps(1);
    match builder.run(3) {
        Ok((engine, _)) => assert_eq!(engine.time_per_tick(), NANOS_PER_SECOND),
        Err(error) => panic!("{:?}", error),
    }
}

#[test]
fn engine_tracks_keys_and_scan_codes() {
    let mut engine = started(20, NANOS_PER_SECOND, 0);
    engine.handle_device_event(2, DeviceInput::KeyButton { scancode: 57, pressed: true });
    engine.handle_device_event(2, DeviceInput::Key { key: 76, pressed: true });
    engine.handle_device_event(2, DeviceInput::Key { key: 76, pressed: true });
    let controls = engine.controls_state();
    assert_eq!(controls.get_button_state(Button::KeyButton(2, 57)), ButtonState::Pressed(0));
    assert_eq!(controls.get_button_state(Button::Key(2, 76)), ButtonState::Held(1));
    assert_eq!(controls.get_button_state(Button::Button(2, 76)), ButtonState::Open(0));
    assert_eq!(controls.get_pressed_buttons().len(), 2);
}

#[test]
fn run_hands_the_update_method_back() {
    let update: Update = until_forty;
    let started = StirlingEngine::new()
        .set_update_method(update)
        .set_watchdog_time(60 * NANOS_PER_SECOND)
        .set_tps(20)
        .run(777);
    match started {
        Ok((engine, update)) => {
            assert_eq!(engine.last_cycle(), 777);
            assert_eq!(engine.watchdog_time(), 60 * NANOS_PER_SECOND);
            assert_eq!(update(39, engine.controls_state()), StirlingEngineControlFlow::Run);
            assert_eq!(update(40, engine.controls_state()), StirlingEngineControlFlow::Exit);
        }
        Err(error) => panic!("{:?}", error),
    }
}

#[test]
fn later_setting_replaces_the_earlier() {
    let update: Update = until_forty;
    let started = StirlingEngine::new()
        .set_tps(10)
        .set_watchdog_time(1)
        .set_update_method(update)
        .set_tps(40)
        .set_watchdog_time(2)
        .run(0);
    match started {
        Ok((engine, _)) => {
            assert_eq!(engine.time_per_tick(), 25 * MS);
            assert_eq!(engine.watchdog_time(), 2);
        }
        Err(error) => panic!("{:?}", error),
    }
}

#[test]
fn control_flow_picks_the_poll_mode() {
    assert_eq!(StirlingEngineControlFlow::Run.poll_mode(), PollMode::Poll);
    assert_eq!(StirlingEngineControlFlow::Pause.poll_mode(), PollMode::Wait);
    assert_eq!(StirlingEngineControlFlow::Exit.poll_mode(), PollMode::Exit);
}
