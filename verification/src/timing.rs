//! Simulation clocks: the pacer that turns wall time into fixed ticks, and
//! the timer behind every cooldown, period and lifetime.

use vstd::prelude::*;
use vstd::arithmetic::div_mod::{lemma_fundamental_div_mod, lemma_mod_bound, lemma_div_pos_is_pos};
use crate::fixed::MICRO;

verus! {

/// The default fixed timestep: one sixty-fourth of a second.
pub const FIXED_TIMESTEP_US: u32 = 15_625;

/// Wall time above this, per frame, is dropped so that a stall cannot
/// schedule a storm of ticks.
pub const MAX_FRAME_US: u32 = 250_000;

/// Whether a timer stops when it runs out or starts over.
#[derive(Clone, Copy, Debug, PartialEq, Eq, Structural)]
pub enum TimerMode {
    Once,
    Repeating,
}

/// A timer over microseconds.
///
/// A one-shot timer counts up to its duration and stays there, finished. A
/// repeating timer is finished only in the tick that carried it past its
/// duration, and keeps the remainder.
#[derive(Clone, Copy, Debug, PartialEq, Eq, Structural)]
pub struct Timer {
    pub mode: TimerMode,
    pub duration_us: u32,
    pub elapsed_us: u32,
    pub finished: bool,
}

impl Timer {
    /// The elapsed time never exceeds the duration, a finished one-shot timer
    /// has run its whole duration, and a repeating timer rests below its period.
    pub open spec fn wf(self) -> bool {
        &&& self.elapsed_us <= self.duration_us
        &&& self.mode == TimerMode::Once && self.finished ==> self.elapsed_us == self.duration_us
        &&& self.mode == TimerMode::Repeating && self.duration_us > 0 ==> self.elapsed_us
            < self.duration_us
    }

    /// Time left before the timer runs out.
    pub open spec fn remaining(self) -> int {
        self.duration_us - self.elapsed_us
    }

    /// The timer after `dt_us` more microseconds.
    pub open spec fn ticked(self, dt_us: int) -> Timer {
        let total = self.elapsed_us + dt_us;
        match self.mode {
            TimerMode::Once => if self.finished {
                self
            } else if total >= self.duration_us {
                Timer { elapsed_us: self.duration_us, finished: true, ..self }
            } else {
                Timer { elapsed_us: total as u32, finished: false, ..self }
            },
            TimerMode::Repeating => if total >= self.duration_us {
                Timer {
                    elapsed_us: if self.duration_us == 0 {
                        0
                    } else {
                        (total % (self.duration_us as int)) as u32
                    },
                    finished: true,
                    ..self
                }
            } else {
                Timer { elapsed_us: total as u32, finished: false, ..self }
            },
        }
    }

    /// The elapsed share of the duration in millionths; a timer without
    /// duration counts as run out.
    pub open spec fn fraction(self) -> int {
        if self.duration_us == 0 {
            MICRO as int
        } else {
            self.elapsed_us * MICRO / (self.duration_us as int)
        }
    }

    /// A fresh timer.
    pub fn new(duration_us: u32, mode: TimerMode) -> (timer: Timer)
        ensures
            timer == (Timer { mode, duration_us, elapsed_us: 0, finished: false }),
            timer.wf(),
    {
        Timer { mode, duration_us, elapsed_us: 0, finished: false }
    }

    /// Advances the timer by `dt_us` microseconds.
    pub fn tick(&mut self, dt_us: u32)
        requires
            old(self).wf(),
        ensures
            *final(self) == old(self).ticked(dt_us as int),
            final(self).wf(),
    {
        let total: u64 = self.elapsed_us as u64 + dt_us as u64;
        let duration: u64 = self.duration_us as u64;
        match self.mode {
            TimerMode::Once => {
                if !self.finished {
                    if total >= duration {
                        self.elapsed_us = self.duration_us;
                        self.finished = true;
                    } else {
                        self.elapsed_us = total as u32;
                    }
                }
            },
            TimerMode::Repeating => {
                if total >= duration {
                    if duration == 0 {
                        self.elapsed_us = 0;
                    } else {
                        proof {
                            lemma_mod_bound(total as int, duration as int);
                        }
                        self.elapsed_us = (total % duration) as u32;
                    }
                    self.finished = true;
                } else {
                    self.elapsed_us = total as u32;
                    self.finished = false;
                }
            },
        }
    }

    /// Tests the timer's invariant.
    pub fn is_well_formed(&self) -> (ok: bool)
        ensures
            ok == self.wf(),
    {
        let settled: bool = match self.mode {
            TimerMode::Once => !self.finished || self.elapsed_us == self.duration_us,
            TimerMode::Repeating => self.duration_us == 0 || self.elapsed_us < self.duration_us,
        };
        self.elapsed_us <= self.duration_us && settled
    }

    /// Whether the timer ran out: for a repeating timer, in the last tick.
    pub fn finished(&self) -> (done: bool)
        ensures
            done == self.finished,
    {
        self.finished
    }

    /// Time left before the timer runs out, in microseconds.
    pub fn remaining_us(&self) -> (left: u32)
        requires
            self.wf(),
        ensures
            left == self.remaining(),
    {
        self.duration_us - self.elapsed_us
    }

    /// The elapsed share of the duration, in millionths.
    pub fn elapsed_fraction(&self) -> (share: u32)
        requires
            self.wf(),
        ensures
            share == self.fraction(),
            share <= MICRO,
    {
        if self.duration_us == 0 {
            1_000_000
        } else {
            let scaled: u64 = self.elapsed_us as u64 * 1_000_000;
            let duration: u64 = self.duration_us as u64;
            proof {
                vstd::arithmetic::div_mod::lemma_div_is_ordered(
                    scaled as int,
                    duration * 1_000_000,
                    duration as int,
                );
                vstd::arithmetic::div_mod::lemma_div_multiples_vanish(1_000_000, duration as int);
            }
            (scaled / duration) as u32
        }
    }
}

/// A one-shot timer never gains time: each tick leaves at most what was
/// left, and what is left stays between zero and the duration.
pub proof fn lemma_one_shot_runs_down(timer: Timer, dt_us: u32)
    requires
        timer.wf(),
        timer.mode == TimerMode::Once,
    ensures
        timer.ticked(dt_us as int).wf(),
        timer.ticked(dt_us as int).duration_us == timer.duration_us,
        0 <= timer.ticked(dt_us as int).remaining() <= timer.remaining() <= timer.duration_us,
        timer.ticked(dt_us as int).finished <==> timer.finished || dt_us >= timer.remaining(),
{
}

/// Converts wall-clock time into whole fixed ticks and keeps the rest.
#[derive(Clone, Copy, Debug, PartialEq, Eq, Structural)]
pub struct Pacer {
    pub timestep_us: u32,
    pub overstep_us: u32,
}

impl Pacer {
    /// The timestep is positive and the overstep stays below it.
    pub open spec fn wf(self) -> bool {
        0 < self.timestep_us && self.overstep_us < self.timestep_us
    }

    /// The wall time that one frame may contribute.
    pub open spec fn admitted(wall_dt_us: int) -> int {
        if wall_dt_us > MAX_FRAME_US {
            MAX_FRAME_US as int
        } else {
            wall_dt_us
        }
    }

    /// Ticks that fall due when `wall_dt_us` is folded in.
    pub open spec fn ticks_due(self, wall_dt_us: int) -> int {
        (self.overstep_us + Self::admitted(wall_dt_us)) / (self.timestep_us as int)
    }

    /// The pacer after `wall_dt_us` is folded in and the due ticks are taken.
    pub open spec fn advanced(self, wall_dt_us: int) -> Pacer {
        Pacer {
            timestep_us: self.timestep_us,
            overstep_us: ((self.overstep_us + Self::admitted(wall_dt_us)) % (
            self.timestep_us as int)) as u32,
        }
    }

    /// The overstep as a share of the timestep, in millionths.
    pub open spec fn fraction(self) -> int {
        self.overstep_us * MICRO / (self.timestep_us as int)
    }

    /// Tests the pacer's invariant.
    pub fn is_well_formed(&self) -> (ok: bool)
        ensures
            ok == self.wf(),
    {
        0 < self.timestep_us && self.overstep_us < self.timestep_us
    }

    /// A pacer at the default timestep, with nothing accumulated.
    pub fn new() -> (pacer: Pacer)
        ensures
            pacer == (Pacer { timestep_us: FIXED_TIMESTEP_US, overstep_us: 0 }),
            pacer.wf(),
    {
        Pacer { timestep_us: FIXED_TIMESTEP_US, overstep_us: 0 }
    }

    /// A pacer at the given timestep, if that is positive.
    pub fn with_timestep(timestep_us: u32) -> (pacer: Option<Pacer>)
        ensures
            timestep_us == 0 ==> pacer.is_none(),
            timestep_us > 0 ==> pacer == Some(Pacer { timestep_us, overstep_us: 0 }),
            pacer.is_some() ==> pacer.unwrap().wf(),
    {
        if timestep_us == 0 {
            None
        } else {
            Some(Pacer { timestep_us, overstep_us: 0 })
        }
    }

    /// Folds one frame's wall time in and returns the number of fixed ticks
    /// that must now run.
    pub fn advance(&mut self, wall_dt_us: u32) -> (ticks: u32)
        requires
            old(self).wf(),
        ensures
            ticks == old(self).ticks_due(wall_dt_us as int),
            *final(self) == old(self).advanced(wall_dt_us as int),
            final(self).wf(),
            ticks * old(self).timestep_us + final(self).overstep_us == old(self).overstep_us
                + Self::admitted(wall_dt_us as int),
    {
        let admitted: u32 = if wall_dt_us > MAX_FRAME_US {
            MAX_FRAME_US
        } else {
            wall_dt_us
        };
        let total: u64 = self.overstep_us as u64 + admitted as u64;
        let step: u64 = self.timestep_us as u64;
        proof {
            lemma_fundamental_div_mod(total as int, step as int);
            lemma_mod_bound(total as int, step as int);
            lemma_div_pos_is_pos(total as int, step as int);
            vstd::arithmetic::div_mod::lemma_div_is_ordered_by_denominator(
                total as int,
                1,
                step as int,
            );
            vstd::arithmetic::div_mod::lemma_div_basics(total as int);
            let q = total as int / step as int;
            assert(step * q == q * step) by (nonlinear_arith);
            assert(q <= admitted) by (nonlinear_arith)
                requires
                    q * step <= total,
                    total < step + admitted,
                    step >= 1,
                    admitted >= 0,
                    q >= 0,
            ;
        }
        let ticks: u64 = total / step;
        self.overstep_us = (total % step) as u32;
        ticks as u32
    }

    /// The overstep as a share of the timestep, in millionths: the blend
    /// factor between the previous and the current physical state.
    pub fn overstep_fraction(&self) -> (share: u32)
        requires
            self.wf(),
        ensures
            share == self.fraction(),
            share < MICRO,
    {
        let scaled: u64 = self.overstep_us as u64 * 1_000_000;
        let step: u64 = self.timestep_us as u64;
        proof {
            lemma_fundamental_div_mod(scaled as int, step as int);
            lemma_mod_bound(scaled as int, step as int);
            lemma_div_pos_is_pos(scaled as int, step as int);
            let q = scaled as int / step as int;
            if q >= 1_000_000 {
                assert(step * q >= step * 1_000_000) by (nonlinear_arith)
                    requires
                        q >= 1_000_000,
                        step > 0,
                ;
            }
        }
        (scaled / step) as u32
    }
}

} // verus!
