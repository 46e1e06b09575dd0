//! A fixed-timestep core for interactive real-time applications.
//!
//! The engine turns readings of a monotonic clock into whole simulation
//! ticks, stops the run when two readings lie further apart than the watchdog
//! allows, and keeps the edge-aware state of every input control. The host
//! owns the clock, the event source and the update method: it hands readings
//! and events in, and does what the returned values say.
//!
//! All times are whole nanoseconds.

use vstd::prelude::*;
use vstd::arithmetic::div_mod::{lemma_fundamental_div_mod, lemma_fundamental_div_mod_converse};
use crate::controls::{ControlsState, DeviceInput, Button, ButtonState};

pub mod controls;

verus! {

/// The length of one second.
pub const NANOS_PER_SECOND: u128 = 1_000_000_000;

/// What the update method asks of the run loop.
#[derive(PartialEq, Eq, Structural, Clone, Copy, Debug)]
pub enum StirlingEngineControlFlow {
    Run,
    Pause,
    Exit,
}

/// What the host's loop does next, which is also the state of the run:
/// running, paused or over.
#[derive(PartialEq, Eq, Structural, Clone, Copy, Debug)]
pub enum PollMode {
    /// The run goes on: poll again at once.
    Poll,
    /// The run is paused: wait for the next outside event before polling
    /// again.
    Wait,
    /// The run is over: leave the loop. No reading is taken and no tick is
    /// run after this.
    Exit,
}

impl StirlingEngineControlFlow {
    /// The poll mode that answers this request: `Run` polls, `Pause` waits,
    /// `Exit` leaves.
    pub open spec fn poll_mode_spec(self) -> PollMode {
        match self {
            StirlingEngineControlFlow::Run => PollMode::Poll,
            StirlingEngineControlFlow::Pause => PollMode::Wait,
            StirlingEngineControlFlow::Exit => PollMode::Exit,
        }
    }

    /// The state of the run that this request leads to.
    pub fn poll_mode(self) -> (mode: PollMode)
        ensures
            mode == self.poll_mode_spec(),
    {
        match self {
            StirlingEngineControlFlow::Run => PollMode::Poll,
            StirlingEngineControlFlow::Pause => PollMode::Wait,
            StirlingEngineControlFlow::Exit => PollMode::Exit,
        }
    }
}

/// What was wrong with the configuration when the engine was started.
#[derive(PartialEq, Eq, Structural, Clone, Copy, Debug)]
pub enum StirlingEngineBuilderError {
    /// The ticks per second were not set.
    MissingTPS,
    /// The ticks per second were set to zero, so that a tick would have no
    /// length. This error has a variant of its own because none of the
    /// missing pieces describes it.
    ZeroTPS,
    /// The watchdog time was not set.
    MissingWatchdogTime,
    /// The update method was not set.
    MissingUpdateMethod,
}

/// What one clock reading amounts to.
#[derive(PartialEq, Eq, Structural, Clone, Copy, Debug)]
pub enum FrameOutcome {
    /// The reading lies further from the one before than the watchdog
    /// allows: the run ends, and no tick is due.
    WatchdogExceeded,
    /// This many ticks are due in this frame.
    Ticks(u128),
}

impl FrameOutcome {
    /// The number of ticks due: none after a watchdog breach.
    pub open spec fn ticks_spec(self) -> nat {
        match self {
            FrameOutcome::WatchdogExceeded => 0,
            FrameOutcome::Ticks(n) => n as nat,
        }
    }

    /// The number of ticks due: none after a watchdog breach.
    pub fn ticks(self) -> (n: u128)
        ensures
            n == self.ticks_spec(),
    {
        match self {
            FrameOutcome::WatchdogExceeded => 0,
            FrameOutcome::Ticks(n) => n,
        }
    }
}

/// The scheduler's bookkeeping, as numbers.
pub struct Timing {
    /// The length of one tick.
    pub time_per_tick: nat,
    /// The longest gap between two clock readings that the run survives.
    pub watchdog_time: nat,
    /// The clock reading before this one.
    pub last_cycle: nat,
    /// Elapsed time that no tick has consumed yet.
    pub tick_time: nat,
}

impl Timing {
    /// A tick has a length, and less than one tick of time is at hand.
    pub open spec fn wf(self) -> bool {
        0 < self.time_per_tick && self.tick_time < self.time_per_tick
    }

    /// The time from the last reading to `now`; none where the clock went
    /// back.
    pub open spec fn elapsed(self, now: nat) -> nat {
        if now >= self.last_cycle {
            (now - self.last_cycle) as nat
        } else {
            0
        }
    }

    /// The reading `now` trips the watchdog.
    pub open spec fn breaches(self, now: nat) -> bool {
        self.elapsed(now) > self.watchdog_time
    }

    /// The whole ticks that fit into the time at hand once `now` is read.
    pub open spec fn ticks_due(self, now: nat) -> nat {
        if self.breaches(now) {
            0
        } else {
            (self.tick_time + self.elapsed(now)) / self.time_per_tick
        }
    }

    /// The bookkeeping after the reading `now`: the reading is kept, and
    /// unless the watchdog trips, the elapsed time is added and the whole
    /// ticks are taken out.
    pub open spec fn advance(self, now: nat) -> Timing {
        Timing {
            last_cycle: now,
            tick_time: if self.breaches(now) {
                self.tick_time
            } else {
                (self.tick_time + self.elapsed(now)) % self.time_per_tick
            },
            ..self
        }
    }
}

/// The bookkeeping after the clock readings `samples`, taken in this order.
pub open spec fn after_frames(start: Timing, samples: Seq<nat>) -> Timing
    decreases samples.len(),
{
    if samples.len() == 0 {
        start
    } else {
        after_frames(start, samples.drop_last()).advance(samples.last())
    }
}

/// The ticks that fall due over the clock readings `samples`, all frames
/// together.
pub open spec fn ticks_over(start: Timing, samples: Seq<nat>) -> nat
    decreases samples.len(),
{
    if samples.len() == 0 {
        0
    } else {
        ticks_over(start, samples.drop_last()) + after_frames(
            start,
            samples.drop_last(),
        ).ticks_due(samples.last())
    }
}

/// The clock never goes back over `samples`, and no reading lies further from
/// the one before it than the watchdog allows.
pub open spec fn steady(start: Timing, samples: Seq<nat>) -> bool {
    forall|i: int|
        0 <= i < samples.len() ==> {
            let before = if i == 0 {
                start.last_cycle
            } else {
                samples[i - 1]
            };
            before <= #[trigger] samples[i] <= before + start.watchdog_time
        }
}

/// Ticks are conserved. Over any readings of a clock that never goes back
/// and never trips the watchdog, the ticks that fell due, each at its full
/// length, and the time still at hand add up to the time at hand at the start
/// and all the time that went by; and less than one tick is at hand after
/// every reading.
pub proof fn lemma_tick_conservation(start: Timing, samples: Seq<nat>)
    requires
        start.wf(),
        steady(start, samples),
    ensures
        after_frames(start, samples).wf(),
        after_frames(start, samples).time_per_tick == start.time_per_tick,
        after_frames(start, samples).watchdog_time == start.watchdog_time,
        after_frames(start, samples).last_cycle == if samples.len() == 0 {
            start.last_cycle
        } else {
            samples.last()
        },
        after_frames(start, samples).last_cycle >= start.last_cycle,
        ticks_over(start, samples) * start.time_per_tick + after_frames(start, samples).tick_time
            == start.tick_time + (after_frames(start, samples).last_cycle - start.last_cycle),
    decreases samples.len(),
{
    if samples.len() > 0 {
        let earlier = samples.drop_last();
        assert forall|i: int| 0 <= i < earlier.len() implies {
            let before = if i == 0 {
                start.last_cycle
            } else {
                earlier[i - 1]
            };
            before <= #[trigger] earlier[i] <= before + start.watchdog_time
        } by {
            assert(earlier[i] == samples[i]);
        }
        lemma_tick_conservation(start, earlier);
        let last = samples.len() - 1;
        assert(samples[last] == samples.last());
        let before = after_frames(start, earlier);
        let now = samples.last();
        if earlier.len() > 0 {
            assert(earlier.last() == samples[last - 1]);
        }
        assert(before.last_cycle <= now <= before.last_cycle + start.watchdog_time);
        let per_tick = start.time_per_tick as int;
        let at_hand = (before.tick_time + before.elapsed(now)) as int;
        let due = ticks_over(start, earlier) as int;
        assert(!before.breaches(now));
        lemma_fundamental_div_mod(at_hand, per_tick);
        assert(ticks_over(start, samples) == due + at_hand / per_tick);
        assert(after_frames(start, samples).tick_time == at_hand % per_tick);
        assert((due + at_hand / per_tick) * per_tick == due * per_tick + per_tick * (at_hand
            / per_tick)) by (nonlinear_arith);
    } else {
        assert(ticks_over(start, samples) == 0);
        assert(0 * start.time_per_tick == 0);
    }
}

/// One frame keeps the bookkeeping in order and loses no time. After any
/// reading less than one tick of time is at hand. A reading that does not
/// trip the watchdog adds the elapsed time: the ticks due, each at its full
/// length, and the time then at hand are the time at hand before and the
/// elapsed time together.
pub proof fn lemma_frame(timing: Timing, now: nat)
    requires
        timing.wf(),
    ensures
        timing.advance(now).wf(),
        timing.advance(now).tick_time < timing.time_per_tick,
        timing.advance(now).last_cycle == now,
        timing.advance(now).time_per_tick == timing.time_per_tick,
        timing.advance(now).watchdog_time == timing.watchdog_time,
        !timing.breaches(now) ==> timing.ticks_due(now) * timing.time_per_tick + timing.advance(
            now,
        ).tick_time == timing.tick_time + timing.elapsed(now),
{
    if !timing.breaches(now) {
        lemma_fundamental_div_mod(
            (timing.tick_time + timing.elapsed(now)) as int,
            timing.time_per_tick as int,
        );
        let due = timing.ticks_due(now);
        assert(due * timing.time_per_tick == timing.time_per_tick * due) by (nonlinear_arith);
    }
}

/// The watchdog trips only beyond its threshold, whatever the bookkeeping
/// holds. A reading trips it exactly when it lies more than `watchdog_time`
/// after the last one. Then no tick is due and the time at hand stays as it
/// was, however many ticks the gap spans. A reading exactly `watchdog_time`
/// after the last one does not trip it: that time is added, the ticks due are
/// the whole ticks in the time at hand and the rest stays at hand.
pub proof fn lemma_watchdog_threshold(timing: Timing, now: nat)
    ensures
        timing.breaches(now) <==> now > timing.last_cycle + timing.watchdog_time,
        timing.breaches(now) ==> {
            &&& timing.ticks_due(now) == 0
            &&& timing.advance(now).tick_time == timing.tick_time
        },
        now == timing.last_cycle + timing.watchdog_time ==> {
            &&& !timing.breaches(now)
            &&& timing.ticks_due(now) == (timing.tick_time + timing.watchdog_time)
                / timing.time_per_tick
            &&& timing.advance(now).tick_time == (timing.tick_time + timing.watchdog_time)
                % timing.time_per_tick
        },
{
}

/// The engine while it runs: the scheduler's bookkeeping, the count of ticks
/// so far, the ticks of the current frame that are still to run, the state of
/// the run and the states of the controls.
///
/// The host drives it frame by frame: `advance` with a clock reading,
/// `handle_device_event` for each raw event, then `next_tick` and
/// `after_update` around each call of the update method until `next_tick`
/// returns `None`.
pub struct StirlingEngine {
    time_per_tick: u128,
    watchdog_time: u128,
    last_cycle: u128,
    tick_time: u128,
    tick: u128,
    pending: u128,
    mode: PollMode,
    controls_state: ControlsState,
}

impl StirlingEngine {
    /// The scheduler's bookkeeping.
    pub closed spec fn timing(&self) -> Timing {
        Timing {
            time_per_tick: self.time_per_tick as nat,
            watchdog_time: self.watchdog_time as nat,
            last_cycle: self.last_cycle as nat,
            tick_time: self.tick_time as nat,
        }
    }

    /// The ticks run so far.
    pub closed spec fn tick_count(&self) -> nat {
        self.tick as nat
    }

    /// The ticks of the current frame that have not been started yet.
    pub closed spec fn pending_ticks(&self) -> nat {
        self.pending as nat
    }

    /// The state of the run.
    pub closed spec fn mode(&self) -> PollMode {
        self.mode
    }

    /// The states of the controls.
    pub closed spec fn controls(&self) -> ControlsState {
        self.controls_state
    }

    /// The bookkeeping and the controls are in order, a tick lasts a second
    /// at most, and a run that is over has no tick left to run.
    pub open spec fn wf(&self) -> bool {
        &&& self.timing().wf()
        &&& self.timing().time_per_tick <= NANOS_PER_SECOND
        &&& self.controls().wf()
        &&& self.mode() is Exit ==> self.pending_ticks() == 0
    }

    /// An empty configuration.
    pub fn new<U>() -> (builder: StirlingEngineBuilder<U>)
        ensures
            builder.tps() is None,
            builder.watchdog_time() is None,
            builder.update() is None,
    {
        StirlingEngineBuilder { tps: None, watchdog_time: None, update: None }
    }

    /// Opens a frame with the clock reading `now`, in a run that is not over
    /// and has run all ticks of the frame before. Where the reading lies
    /// further from the last one than the watchdog allows, the run is over
    /// and nothing but the reading is recorded. Otherwise the elapsed time is
    /// added to the time at hand, and the whole ticks in it are taken out:
    /// they are returned, and are the ticks that this frame has to run.
    pub fn advance(&mut self, now: u128) -> (outcome: FrameOutcome)
        requires
            old(self).wf(),
            !(old(self).mode() is Exit),
            old(self).pending_ticks() == 0,
        ensures
            final(self).wf(),
            final(self).timing() == old(self).timing().advance(now as nat),
            final(self).tick_count() == old(self).tick_count(),
            final(self).controls() == old(self).controls(),
            outcome is WatchdogExceeded <==> old(self).timing().breaches(now as nat),
            outcome.ticks_spec() == old(self).timing().ticks_due(now as nat),
            final(self).pending_ticks() == old(self).timing().ticks_due(now as nat),
            final(self).mode() == if old(self).timing().breaches(now as nat) {
                PollMode::Exit
            } else {
                old(self).mode()
            },
    {
        let elapsed: u128 = if now >= self.last_cycle {
            now - self.last_cycle
        } else {
            0
        };
        self.last_cycle = now;
        if elapsed > self.watchdog_time {
            self.mode = PollMode::Exit;
            return FrameOutcome::WatchdogExceeded;
        }
        let per_tick: u128 = self.time_per_tick;
        let whole: u128 = elapsed / per_tick;
        let rest: u128 = elapsed % per_tick;
        let at_hand: u128 = self.tick_time + rest;
        proof {
            lemma_fundamental_div_mod(elapsed as int, per_tick as int);
            assert((whole + 1) * per_tick == per_tick * whole + per_tick) by (nonlinear_arith);
            assert(whole * per_tick == per_tick * whole) by (nonlinear_arith);
            if at_hand >= per_tick {
                assert(whole < u128::MAX) by (nonlinear_arith)
                    requires
                        per_tick * whole <= elapsed,
                        per_tick >= 2,
                        elapsed <= u128::MAX,
                        whole >= 0,
                ;
                lemma_fundamental_div_mod_converse(
                    old(self).tick_time + elapsed,
                    per_tick as int,
                    whole + 1,
                    at_hand - per_tick,
                );
            } else {
                lemma_fundamental_div_mod_converse(
                    old(self).tick_time + elapsed,
                    per_tick as int,
                    whole as int,
                    at_hand as int,
                );
            }
        }
        if at_hand >= per_tick {
            self.tick_time = at_hand - per_tick;
            self.pending = whole + 1;
        } else {
            self.tick_time = at_hand;
            self.pending = whole;
        }
        FrameOutcome::Ticks(self.pending)
    }

    /// Starts the next tick of the frame, if one is left, and returns its
    /// number, which the update method is given. The first tick of a run has
    /// the number 1. Returns `None` once the frame has no tick left.
    pub fn next_tick(&mut self) -> (tick: Option<u128>)
        requires
            old(self).wf(),
            old(self).pending_ticks() > 0 ==> old(self).tick_count() < u128::MAX,
        ensures
            final(self).wf(),
            final(self).timing() == old(self).timing(),
            final(self).controls() == old(self).controls(),
            final(self).mode() == old(self).mode(),
            match tick {
                Some(number) => {
                    &&& old(self).pending_ticks() > 0
                    &&& number == old(self).tick_count() + 1
                    &&& final(self).tick_count() == number
                    &&& final(self).pending_ticks() == old(self).pending_ticks() - 1
                },
                None => {
                    &&& old(self).pending_ticks() == 0
                    &&& final(self).tick_count() == old(self).tick_count()
                    &&& final(self).pending_ticks() == 0
                },
            },
    {
        if self.pending == 0 {
            return None;
        }
        self.pending = self.pending - 1;
        self.tick = self.tick + 1;
        Some(self.tick)
    }

    /// Takes what the update method asked for, or a request from outside to
    /// end the run, which counts as `Exit`. `Run` lets the run go on, `Pause`
    /// pauses it, and `Exit` ends it: the ticks left in the frame are dropped.
    /// A run that is over stays over. Returns the new state of the run.
    pub fn after_update(&mut self, flow: StirlingEngineControlFlow) -> (mode: PollMode)
        requires
            old(self).wf(),
        ensures
            final(self).wf(),
            mode == final(self).mode(),
            final(self).mode() == if old(self).mode() is Exit {
                PollMode::Exit
            } else {
                flow.poll_mode_spec()
            },
            final(self).pending_ticks() == if final(self).mode() is Exit {
                0
            } else {
                old(self).pending_ticks()
            },
            final(self).timing() == old(self).timing(),
            final(self).tick_count() == old(self).tick_count(),
            final(self).controls() == old(self).controls(),
    {
        match self.mode {
            PollMode::Exit => {},
            _ => {
                self.mode = flow.poll_mode();
            },
        }
        match self.mode {
            PollMode::Exit => {
                self.pending = 0;
            },
            _ => {},
        }
        self.mode
    }

    /// Hands one raw event of `device` to the controls.
    pub fn handle_device_event(&mut self, device: u64, event: DeviceInput)
        requires
            old(self).wf(),
            old(self).controls().can_handle(device, event),
        ensures
            final(self).wf(),
            final(self).controls()@ == old(self).controls().after_device_event(device, event),
            final(self).timing() == old(self).timing(),
            final(self).tick_count() == old(self).tick_count(),
            final(self).pending_ticks() == old(self).pending_ticks(),
            final(self).mode() == old(self).mode(),
    {
        self.controls_state.handle_device_event(device, event);
    }

    /// The states of the controls, as the update method is given them.
    pub fn controls_state(&self) -> (controls: &ControlsState)
        ensures
            *controls == self.controls(),
    {
        &self.controls_state
    }

    /// The number of the last tick that was started; 0 before the first.
    pub fn tick(&self) -> (tick: u128)
        ensures
            tick == self.tick_count(),
    {
        self.tick
    }

    /// The ticks of the current frame that have not been started yet.
    pub fn pending(&self) -> (ticks: u128)
        ensures
            ticks == self.pending_ticks(),
    {
        self.pending
    }

    /// The state of the run.
    pub fn poll_mode(&self) -> (mode: PollMode)
        ensures
            mode == self.mode(),
    {
        self.mode
    }

    /// The length of one tick.
    pub fn time_per_tick(&self) -> (nanos: u128)
        ensures
            nanos == self.timing().time_per_tick,
    {
        self.time_per_tick
    }

    /// The longest gap between two clock readings that the run survives.
    pub fn watchdog_time(&self) -> (nanos: u128)
        ensures
            nanos == self.timing().watchdog_time,
    {
        self.watchdog_time
    }

    /// The elapsed time that no tick has consumed yet.
    pub fn tick_time(&self) -> (nanos: u128)
        ensures
            nanos == self.timing().tick_time,
    {
        self.tick_time
    }

    /// The clock reading taken last.
    pub fn last_cycle(&self) -> (nanos: u128)
        ensures
            nanos == self.timing().last_cycle,
    {
        self.last_cycle
    }
}

/// The configuration of an engine, gathered piece by piece. `U` is the update
/// method; the engine stores it and hands it back, and never calls it.
pub struct StirlingEngineBuilder<U> {
    tps: Option<u8>,
    watchdog_time: Option<u128>,
    update: Option<U>,
}

impl<U> StirlingEngineBuilder<U> {
    /// The ticks per second, once set.
    pub closed spec fn tps(&self) -> Option<u8> {
        self.tps
    }

    /// The watchdog time, once set.
    pub closed spec fn watchdog_time(&self) -> Option<u128> {
        self.watchdog_time
    }

    /// The update method, once set.
    pub closed spec fn update(&self) -> Option<U> {
        self.update
    }

    /// The first thing wrong with the configuration, in the order: no ticks
    /// per second, zero ticks per second, no watchdog time, no update method.
    /// `None` where the engine can be started.
    pub open spec fn first_error(&self) -> Option<StirlingEngineBuilderError> {
        if self.tps() is None {
            Some(StirlingEngineBuilderError::MissingTPS)
        } else if self.tps() == Some(0u8) {
            Some(StirlingEngineBuilderError::ZeroTPS)
        } else if self.watchdog_time() is None {
            Some(StirlingEngineBuilderError::MissingWatchdogTime)
        } else if self.update() is None {
            Some(StirlingEngineBuilderError::MissingUpdateMethod)
        } else {
            None
        }
    }

    /// The bookkeeping of an engine that starts with this configuration at
    /// the clock reading `now`: a tick lasts a second divided by the ticks
    /// per second, and no time is at hand.
    pub open spec fn initial_timing(&self, now: nat) -> Timing
        recommends
            self.first_error() is None,
    {
        Timing {
            time_per_tick: NANOS_PER_SECOND as nat / self.tps().unwrap() as nat,
            watchdog_time: self.watchdog_time().unwrap() as nat,
            last_cycle: now,
            tick_time: 0,
        }
    }

    /// Sets the ticks per second.
    pub fn set_tps(self, tps: u8) -> (builder: Self)
        ensures
            builder.tps() == Some(tps),
            builder.watchdog_time() == self.watchdog_time(),
            builder.update() == self.update(),
    {
        StirlingEngineBuilder { tps: Some(tps), watchdog_time: self.watchdog_time, update: self.update }
    }

    /// Sets the longest gap between two clock readings that the run
    /// survives.
    pub fn set_watchdog_time(self, watchdog_time: u128) -> (builder: Self)
        ensures
            builder.tps() == self.tps(),
            builder.watchdog_time() == Some(watchdog_time),
            builder.update() == self.update(),
    {
        StirlingEngineBuilder { tps: self.tps, watchdog_time: Some(watchdog_time), update: self.update }
    }

    /// Sets the update method.
    pub fn set_update_method(self, update_method: U) -> (builder: Self)
        ensures
            builder.tps() == self.tps(),
            builder.watchdog_time() == self.watchdog_time(),
            builder.update() == Some(update_method),
    {
        StirlingEngineBuilder { tps: self.tps, watchdog_time: self.watchdog_time, update: Some(update_method) }
    }

    /// Starts the engine at the clock reading `now`. Fails with the first
    /// thing wrong with the configuration. Otherwise returns the engine,
    /// running, with no tick run or due, no time at hand and no control
    /// touched, and the update method beside it.
    pub fn run(self, now: u128) -> (started: Result<(StirlingEngine, U), StirlingEngineBuilderError>)
        ensures
            match started {
                Ok((engine, update)) => {
                    &&& self.first_error() is None
                    &&& engine.wf()
                    &&& engine.timing() == self.initial_timing(now as nat)
                    &&& engine.tick_count() == 0
                    &&& engine.pending_ticks() == 0
                    &&& engine.mode() == PollMode::Poll
                    &&& engine.controls()@ == Map::<Button, ButtonState>::empty()
                    &&& self.update() == Some(update)
                },
                Err(error) => self.first_error() == Some(error),
            },
    {
        let time_per_tick: u128 = match self.tps {
            Some(tps) => {
                if tps == 0 {
                    return Err(StirlingEngineBuilderError::ZeroTPS);
                }
                assert(0 < NANOS_PER_SECOND as int / tps as int <= NANOS_PER_SECOND) by (nonlinear_arith)
                    requires
                        0 < tps <= 255,
                        NANOS_PER_SECOND == 1_000_000_000,
                ;
                NANOS_PER_SECOND / (tps as u128)
            },
            None => return Err(StirlingEngineBuilderError::MissingTPS),
        };
        let watchdog_time: u128 = match self.watchdog_time {
            Some(watchdog_time) => watchdog_time,
            None => return Err(StirlingEngineBuilderError::MissingWatchdogTime),
        };
        let update = match self.update {
            Some(update) => update,
            None => return Err(StirlingEngineBuilderError::MissingUpdateMethod),
        };
        let engine = StirlingEngine {
            time_per_tick,
            watchdog_time,
            last_cycle: now,
            tick_time: 0,
            tick: 0,
            pending: 0,
            mode: PollMode::Poll,
            controls_state: ControlsState::new(),
        };
        Ok((engine, update))
    }
}

} // verus!
