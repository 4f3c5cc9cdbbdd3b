//! How the wheel accelerates: what each of its events does to the multiplier of the rows
//! that it scrolls. Times are in nanoseconds.

use vstd::prelude::*;

verus! {

/// Events no further apart speed the wheel up.
pub const WHEEL_ACCEL_WINDOW_NANOS: u64 = 40_000_000;

/// A wheel that comes back to its direction no later was only bouncing.
pub const WHEEL_BOUNCE_GAP_MAX_NANOS: u64 = 200_000_000;

/// A wheel that was told apart from a trackpad is forgotten after such a pause.
pub const WHEEL_MODE_IDLE_DISENGAGE_NANOS: u64 = 1_500_000_000;

/// Events that are closer than this come in one batch.
pub const WHEEL_BURST_NANOS: u64 = 5_000_000;

/// Events that are at least so far apart are slow.
pub const WHEEL_DECAY_GAP_NANOS: u64 = 80_000_000;

/// A terminal that decays the multiplier starts over after such a pause.
pub const WHEEL_DECAY_IDLE_NANOS: u64 = 500_000_000;

/// A batch of so many events comes from a trackpad.
pub const WHEEL_BURST_COUNT: u16 = 5;

/// What an event does to the multiplier, and how many rows it scrolls.
#[derive(Clone, Copy, Debug, PartialEq, Eq, Structural)]
pub enum WheelRows {
    /// No row.
    Nothing,
    /// One row.
    One,
    /// The multiplier goes back to its base; as many rows.
    Base,
    /// The multiplier grows by a step; as many rows.
    Faster,
    /// The multiplier decays over the gap and gets the push of a wheel; as many rows.
    Momentum,
    /// The multiplier starts over, without the fraction that was left; as many rows.
    StartOver,
    /// The multiplier decays over the gap and gets a push, up to the cap for slow or for
    /// fast events; as many rows, with the fraction that was left.
    Decay { slow: bool },
}

/// What an event of the wheel does.
#[derive(Clone, Copy, Debug, PartialEq, Eq, Structural)]
pub struct WheelStep {
    /// Whether the multiplier goes back to its base before anything else.
    pub restarts: bool,
    /// The time since the event before.
    pub gap: u64,
    /// What happens to the multiplier, and how many rows are scrolled.
    pub rows: WheelRows,
}

/// What is known of the wheel.
#[derive(Clone, Copy, Debug, PartialEq, Eq, Structural)]
pub struct WheelAccelState {
    /// The time of the last event.
    pub time: u64,
    /// The direction of the wheel: -1 up, 1 down, 0 where it has not moved.
    pub dir: i8,
    /// Whether the terminal is one that decays the multiplier; decided at the first event.
    pub xterm_js: Option<bool>,
    /// Whether the last event went against the direction, and was held back.
    pub pending_flip: bool,
    /// Whether it is known to be a wheel, and not a trackpad.
    pub wheel_mode: bool,
    /// The events of the current batch.
    pub burst_count: u16,
}

/// The time since an earlier event; none, where it is not earlier.
pub open spec fn gap_between(earlier: u64, now: u64) -> u64 {
    if now >= earlier {
        (now - earlier) as u64
    } else {
        0
    }
}

impl WheelAccelState {
    /// A batch is left before it is full.
    pub open spec fn wf(self) -> bool {
        self.burst_count < WHEEL_BURST_COUNT
    }

    /// Whether the wheel has paused for so long that it is no longer known to be one.
    pub open spec fn disengages(self, now: u64) -> bool {
        self.wheel_mode && gap_between(self.time, now) > WHEEL_MODE_IDLE_DISENGAGE_NANOS
    }

    /// The wheel, which is no longer known to be one after a pause.
    pub open spec fn rested(self, now: u64) -> WheelAccelState {
        if self.disengages(now) {
            WheelAccelState { wheel_mode: false, burst_count: 0, ..self }
        } else {
            self
        }
    }

    /// Whether an event settles that the wheel did turn around, or has paused, after an
    /// event was held back.
    pub open spec fn turns(self, dir: i8, now: u64) -> bool {
        self.pending_flip && (dir != self.dir || gap_between(self.time, now)
            > WHEEL_BOUNCE_GAP_MAX_NANOS)
    }

    /// Whether an event goes against the direction and is held back.
    pub open spec fn holds_back(self, dir: i8) -> bool {
        !self.pending_flip && dir != self.dir && self.dir != 0
    }

    /// The wheel after an event that goes on in its direction; one that came back to it was
    /// bouncing, as only a wheel does. Of a wheel, a batch that gets full is a trackpad
    /// after all.
    pub open spec fn goes_on(self, dir: i8, now: u64) -> WheelAccelState {
        let wheel_mode: bool = self.wheel_mode || self.pending_flip;
        let bursts: bool = gap_between(self.time, now) < WHEEL_BURST_NANOS;
        let full: bool = self.burst_count + 1 >= WHEEL_BURST_COUNT;
        WheelAccelState {
            time: now,
            dir,
            pending_flip: false,
            wheel_mode: wheel_mode && !(bursts && full),
            burst_count: if !wheel_mode {
                self.burst_count
            } else if bursts && !full {
                (self.burst_count + 1) as u16
            } else {
                0
            },
            ..self
        }
    }

    /// What an event does that goes on in the direction.
    pub open spec fn going_on(self, now: u64) -> WheelStep {
        let gap: u64 = gap_between(self.time, now);
        let wheel_mode: bool = self.wheel_mode || self.pending_flip;
        let bursts: bool = gap < WHEEL_BURST_NANOS;
        let full: bool = self.burst_count + 1 >= WHEEL_BURST_COUNT;
        WheelStep {
            restarts: wheel_mode && bursts && full,
            gap,
            rows: if wheel_mode && bursts && !full {
                WheelRows::One
            } else if wheel_mode && !bursts {
                WheelRows::Momentum
            } else if gap > WHEEL_ACCEL_WINDOW_NANOS {
                WheelRows::Base
            } else {
                WheelRows::Faster
            },
        }
    }

    /// The wheel after an event, in a terminal that passes events on as they come.
    pub open spec fn native_after(self, dir: i8, now: u64) -> WheelAccelState {
        let rested = self.rested(now);
        if rested.turns(dir, now) {
            WheelAccelState { time: now, dir, pending_flip: false, ..rested }
        } else if rested.holds_back(dir) {
            WheelAccelState { time: now, pending_flip: true, ..rested }
        } else {
            rested.goes_on(dir, now)
        }
    }

    /// What an event does, in a terminal that passes events on as they come.
    pub open spec fn native_step(self, dir: i8, now: u64) -> WheelStep {
        let rested = self.rested(now);
        let gap: u64 = gap_between(self.time, now);
        let step = if rested.turns(dir, now) {
            WheelStep { restarts: false, gap, rows: WheelRows::Base }
        } else if rested.holds_back(dir) {
            WheelStep { restarts: false, gap, rows: WheelRows::Nothing }
        } else {
            rested.going_on(now)
        };
        WheelStep { restarts: self.disengages(now) || step.restarts, ..step }
    }

    /// What an event does, in a terminal that decays the multiplier.
    pub open spec fn decaying_step(self, dir: i8, now: u64) -> WheelStep {
        let gap: u64 = gap_between(self.time, now);
        WheelStep {
            restarts: false,
            gap,
            rows: if dir != self.dir || gap > WHEEL_DECAY_IDLE_NANOS {
                WheelRows::StartOver
            } else if gap < WHEEL_BURST_NANOS {
                WheelRows::One
            } else {
                WheelRows::Decay { slow: gap >= WHEEL_DECAY_GAP_NANOS }
            },
        }
    }

    /// Whether the terminal is one that decays the multiplier, which is asked only once.
    pub open spec fn decays(self, xterm_js_host: bool) -> bool {
        match self.xterm_js {
            Some(xterm_js) => xterm_js,
            None => xterm_js_host,
        }
    }

    /// The wheel after an event.
    pub open spec fn after(self, dir: i8, now: u64, xterm_js_host: bool) -> WheelAccelState {
        let asked = WheelAccelState { xterm_js: Some(self.decays(xterm_js_host)), ..self };
        if self.decays(xterm_js_host) {
            WheelAccelState { time: now, dir, ..asked }
        } else {
            asked.native_after(dir, now)
        }
    }

    /// What an event does.
    pub open spec fn step(self, dir: i8, now: u64, xterm_js_host: bool) -> WheelStep {
        if self.decays(xterm_js_host) {
            self.decaying_step(dir, now)
        } else {
            self.native_step(dir, now)
        }
    }

    /// A wheel that has not moved, of which the terminal may be known.
    pub fn new(xterm_js: Option<bool>) -> (r: Self)
        ensures
            r == (WheelAccelState {
                time: 0,
                dir: 0,
                xterm_js,
                pending_flip: false,
                wheel_mode: false,
                burst_count: 0,
            }),
            r.wf(),
    {
        WheelAccelState {
            time: 0,
            dir: 0,
            xterm_js,
            pending_flip: false,
            wheel_mode: false,
            burst_count: 0,
        }
    }

    /// Takes over an event of the wheel at the given time, and returns what it does.
    pub fn compute(&mut self, dir: i8, now: u64, xterm_js_host: bool) -> (step: WheelStep)
        requires
            old(self).wf(),
            dir == 1 || dir == -1,
        ensures
            *final(self) == old(self).after(dir, now, xterm_js_host),
            step == old(self).step(dir, now, xterm_js_host),
            final(self).wf(),
    {
        let xterm_js: bool = match self.xterm_js {
            Some(xterm_js) => xterm_js,
            None => xterm_js_host,
        };
        self.xterm_js = Some(xterm_js);
        let gap: u64 = if now >= self.time {
            now - self.time
        } else {
            0
        };
        if xterm_js {
            let same_dir: bool = dir == self.dir;
            self.time = now;
            self.dir = dir;
            let rows = if same_dir && gap < WHEEL_BURST_NANOS {
                WheelRows::One
            } else if !same_dir || gap > WHEEL_DECAY_IDLE_NANOS {
                WheelRows::StartOver
            } else {
                WheelRows::Decay { slow: gap >= WHEEL_DECAY_GAP_NANOS }
            };
            return WheelStep { restarts: false, gap, rows };
        }
        let mut restarts: bool = false;
        if self.wheel_mode && gap > WHEEL_MODE_IDLE_DISENGAGE_NANOS {
            self.wheel_mode = false;
            self.burst_count = 0;
            restarts = true;
        }
        if self.pending_flip {
            self.pending_flip = false;
            if dir != self.dir || gap > WHEEL_BOUNCE_GAP_MAX_NANOS {
                self.dir = dir;
                self.time = now;
                return WheelStep { restarts, gap, rows: WheelRows::Base };
            }
            self.wheel_mode = true;
        }
        if dir != self.dir && self.dir != 0 {
            self.pending_flip = true;
            self.time = now;
            return WheelStep { restarts, gap, rows: WheelRows::Nothing };
        }
        self.dir = dir;
        self.time = now;
        if self.wheel_mode {
            if gap < WHEEL_BURST_NANOS {
                self.burst_count = self.burst_count + 1;
                if self.burst_count >= WHEEL_BURST_COUNT {
                    self.wheel_mode = false;
                    self.burst_count = 0;
                    restarts = true;
                } else {
                    return WheelStep { restarts, gap, rows: WheelRows::One };
                }
            } else {
                self.burst_count = 0;
            }
        }
        let rows = if self.wheel_mode {
            WheelRows::Momentum
        } else if gap > WHEEL_ACCEL_WINDOW_NANOS {
            WheelRows::Base
        } else {
            WheelRows::Faster
        };
        WheelStep { restarts, gap, rows }
    }
}

/// An event against the direction of the wheel scrolls nothing and is held back, and the
/// wheel keeps its direction until the next event.
pub proof fn lemma_reversal_is_held_back(state: WheelAccelState, dir: i8, now: u64)
    requires
        state.wf(),
        !state.decays(false),
        state.dir != 0,
        dir != state.dir,
        !state.pending_flip,
    ensures
        state.step(dir, now, false).rows is Nothing,
        state.after(dir, now, false).pending_flip,
        state.after(dir, now, false).dir == state.dir,
{
}

/// A second event against the direction turns the wheel around, at its base speed.
pub proof fn lemma_second_reversal_turns(state: WheelAccelState, dir: i8, now: u64)
    requires
        state.wf(),
        !state.decays(false),
        dir != state.dir,
        state.pending_flip,
    ensures
        state.step(dir, now, false).rows is Base,
        state.after(dir, now, false).dir == dir,
        !state.after(dir, now, false).pending_flip,
{
}

/// Only an event that comes back to the direction in time, after one that was held back,
/// tells a wheel from a trackpad.
pub proof fn lemma_only_a_bounce_tells_a_wheel(state: WheelAccelState, dir: i8, now: u64)
    requires
        state.wf(),
        !state.decays(false),
        !state.wheel_mode,
    ensures
        state.after(dir, now, false).wheel_mode ==> state.pending_flip && dir == state.dir
            && gap_between(state.time, now) <= WHEEL_BOUNCE_GAP_MAX_NANOS,
        state.pending_flip && dir == state.dir && WHEEL_BURST_NANOS <= gap_between(
            state.time,
            now,
        ) <= WHEEL_BOUNCE_GAP_MAX_NANOS ==> state.after(dir, now, false).wheel_mode
            && state.step(dir, now, false).rows is Momentum,
{
}

/// After a long pause the wheel is at its base speed again.
pub proof fn lemma_pause_goes_back_to_base(state: WheelAccelState, dir: i8, now: u64)
    requires
        state.wf(),
        !state.decays(false),
        dir == state.dir || state.dir == 0,
        gap_between(state.time, now) > WHEEL_MODE_IDLE_DISENGAGE_NANOS,
    ensures
        state.step(dir, now, false).rows is Base,
        !state.after(dir, now, false).wheel_mode,
{
}

/// A wheel that goes on in its direction, and is not known to be one, speeds up where its
/// events are no more than 40 ms apart, and goes back to its base speed where they are further
/// apart.
pub proof fn lemma_quick_events_speed_up(state: WheelAccelState, dir: i8, now: u64)
    requires
        state.wf(),
        state.xterm_js == Some(false),
        !state.wheel_mode,
        !state.pending_flip,
        dir == state.dir || state.dir == 0,
        now >= state.time,
    ensures
        ({
            let step = state.step(dir, now, false);
            let after = state.after(dir, now, false);
            &&& now - state.time <= 40_000_000 ==> step.rows == WheelRows::Faster
            &&& now - state.time > 40_000_000 ==> step.rows == WheelRows::Base
            &&& !step.restarts
            &&& step.gap == now - state.time
            &&& after == (WheelAccelState { time: now, dir, ..state })
        }),
{
}

/// A wheel that is known to be one is pushed by each event; events that are less than 5 ms apart
/// scroll one row each, and the fifth of them in a row tells that it is a trackpad after all,
/// which starts over. After 1500 ms it is no longer known to be a wheel.
pub proof fn lemma_wheel_is_pushed(state: WheelAccelState, dir: i8, now: u64)
    requires
        state.wf(),
        state.xterm_js == Some(false),
        state.wheel_mode,
        !state.pending_flip,
        dir == state.dir,
        now >= state.time,
    ensures
        ({
            let gap: int = now - state.time;
            let step = state.step(dir, now, false);
            let after = state.after(dir, now, false);
            &&& 5_000_000 <= gap <= 1_500_000_000 ==> {
                &&& step.rows == WheelRows::Momentum && !step.restarts
                &&& after.wheel_mode && after.burst_count == 0
            }
            &&& gap < 5_000_000 && state.burst_count < 4 ==> {
                &&& step.rows == WheelRows::One && !step.restarts
                &&& after.wheel_mode && after.burst_count == state.burst_count + 1
            }
            &&& gap < 5_000_000 && state.burst_count == 4 ==> {
                &&& step.rows == WheelRows::Faster && step.restarts
                &&& !after.wheel_mode && after.burst_count == 0
            }
            &&& gap > 1_500_000_000 ==> {
                &&& step.rows == WheelRows::Base && step.restarts
                &&& !after.wheel_mode && after.burst_count == 0
            }
            &&& after.time == now && after.dir == dir && !after.pending_flip
        }),
{
}

/// An event that was held back is settled by the next one: a wheel that comes back to its
/// direction within 200 ms was bouncing, and is one; any other next event sets the direction,
/// at the base speed.
pub proof fn lemma_held_back_event_is_settled(state: WheelAccelState, dir: i8, now: u64)
    requires
        state.wf(),
        state.xterm_js == Some(false),
        state.pending_flip,
        !state.wheel_mode,
        state.dir != 0,
        now >= state.time,
    ensures
        ({
            let gap: int = now - state.time;
            let step = state.step(dir, now, false);
            let after = state.after(dir, now, false);
            &&& dir == state.dir && 5_000_000 <= gap <= 200_000_000 ==> after.wheel_mode
                && step.rows == WheelRows::Momentum
            &&& dir != state.dir || gap > 200_000_000 ==> !after.wheel_mode && step.rows
                == WheelRows::Base
            &&& after.dir == dir && after.time == now && !after.pending_flip
        }),
{
}

/// In a terminal that decays the multiplier, a turn and a pause of more than 500 ms start over;
/// events less than 5 ms apart scroll one row each; others decay, and are slow from 80 ms on.
pub proof fn lemma_decaying_wheel(state: WheelAccelState, dir: i8, now: u64)
    requires
        state.xterm_js == Some(true),
        now >= state.time,
    ensures
        ({
            let gap: int = now - state.time;
            let step = state.step(dir, now, false);
            &&& dir != state.dir || gap > 500_000_000 ==> step.rows == WheelRows::StartOver
            &&& dir == state.dir && gap < 5_000_000 ==> step.rows == WheelRows::One
            &&& dir == state.dir && 5_000_000 <= gap < 80_000_000 ==> step.rows == (
            WheelRows::Decay { slow: false })
            &&& dir == state.dir && 80_000_000 <= gap <= 500_000_000 ==> step.rows == (
            WheelRows::Decay { slow: true })
            &&& !step.restarts && step.gap == gap
            &&& state.after(dir, now, false) == (WheelAccelState { time: now, dir, ..state })
        }),
{
}

/// The terminal is asked for once: what it was at the first event it stays.
pub proof fn lemma_terminal_is_asked_once(
    state: WheelAccelState,
    dir: i8,
    now: u64,
    first: bool,
    later: bool,
)
    requires
        state.wf(),
    ensures
        state.xterm_js is None ==> state.after(dir, now, first).xterm_js == Some(first),
        state.xterm_js is Some ==> {
            &&& state.after(dir, now, first).xterm_js == state.xterm_js
            &&& state.after(dir, now, first) == state.after(dir, now, later)
            &&& state.step(dir, now, first) == state.step(dir, now, later)
        },
        state.after(dir, now, first).time == now,
{
}

/// A wheel that is known to be one and had an event held back goes on as one where it comes back to
/// its direction in time; it turns, at its base speed, where it does not.
pub proof fn lemma_known_wheel_settles(state: WheelAccelState, dir: i8, now: u64)
    requires
        state.wf(),
        state.xterm_js == Some(false),
        state.pending_flip,
        state.wheel_mode,
        state.dir != 0,
        state.time <= now <= state.time + 1_500_000_000,
    ensures
        ({
            let gap: int = now - state.time;
            let step = state.step(dir, now, false);
            let after = state.after(dir, now, false);
            &&& dir == state.dir && 5_000_000 <= gap <= 200_000_000 ==> step.rows
                == WheelRows::Momentum
            &&& dir != state.dir || gap > 200_000_000 ==> step.rows == WheelRows::Base
            &&& gap >= 5_000_000 ==> after.wheel_mode && !step.restarts
            &&& after.dir == dir && after.time == now && !after.pending_flip
        }),
{
}

} // verus!
