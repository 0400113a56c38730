//! The game-state flow around the renderer: an explicit state value
//! (welcome menu, playing, success screen) with the per-frame decisions
//! the frame loop threads through it, and the decorative frame-cycling
//! animation timer.

use vstd::prelude::*;
use crate::fixed::FP_ONE;
use crate::player::Player;

verus! {

/// Where the game is in its flow.
#[derive(Clone, Copy, PartialEq, Eq, Structural, Debug)]
pub enum GameState {
    Welcome,
    Playing,
    Success,
}

/// Seconds (fixed-point) between two step sounds.
pub const STEP_COOLDOWN: i64 = 16384;

/// World X the player must pass for the level goal, in cells.
pub const GOAL_X_CELLS: i64 = 18;

/// World Y the player must pass for the level goal, in cells.
pub const GOAL_Y_CELLS: i64 = 7;

/// Whether the player has reached the level goal: both coordinates past
/// the goal threshold.
pub fn reached_goal(p: &Player) -> (r: bool)
    requires
        p.x <= i64::MAX - FP_ONE,
        p.y <= i64::MAX - FP_ONE,
    ensures
        r == (p.x > GOAL_X_CELLS * FP_ONE && p.y > GOAL_Y_CELLS * FP_ONE),
{
    p.x > GOAL_X_CELLS * FP_ONE && p.y > GOAL_Y_CELLS * FP_ONE
}

/// One step of the welcome menu's level selection: up moves to the
/// previous level and wraps to the last, down moves to the next and wraps
/// to the first; up is handled first.
pub fn level_select_step(selected: usize, n_levels: usize, up: bool, down: bool) -> (r: usize)
    requires
        0 < n_levels,
        selected < n_levels,
    ensures
        r < n_levels,
        r as int == ({
            let after_up = if up {
                (if selected > 0 { selected as int - 1 } else { n_levels as int - 1 })
            } else {
                selected as int
            };
            if down { (after_up + 1) % (n_levels as int) } else { after_up }
        }),
{
    let mut sel: usize = selected;
    if up {
        sel = if sel > 0 {
            sel - 1
        } else {
            n_levels - 1
        };
    }
    if down {
        sel = (sel + 1) % n_levels;
    }
    sel
}

/// One frame of the step-sound cooldown: the timer decays by the frame
/// time and floors at zero; a movement key with an expired timer plays
/// the sound and rearms the cooldown.
pub fn step_sound_tick(timer: i64, dt: i64, moving: bool) -> (r: (bool, i64))
    requires
        0 <= timer <= STEP_COOLDOWN,
        0 <= dt,
    ensures
        ({
            let decayed: int = if timer - dt >= 0 { timer - dt } else { 0 };
            &&& r.0 == (moving && decayed <= 0)
            &&& r.1 == (if moving && decayed <= 0 { STEP_COOLDOWN as int } else { decayed })
            &&& 0 <= r.1 <= STEP_COOLDOWN
        }),
{
    let decayed: i64 = if timer >= dt {
        timer - dt
    } else {
        0
    };
    if moving && decayed <= 0 {
        (true, STEP_COOLDOWN)
    } else {
        (false, decayed)
    }
}

/// The decorative frame-cycling animation: advances to the next frame,
/// wrapping around, whenever its timer has accumulated one frame time.
pub struct Animation {
    /// How many frames the animation cycles through.
    frame_count: usize,
    /// The frame currently shown.
    current_frame: usize,
    /// Seconds (fixed-point) each frame is shown.
    frame_time: i64,
    /// Seconds (fixed-point) accumulated since the last frame switch.
    timer: i64,
}

impl Animation {
    /// The animation cycles a positive number of frames, points at one of
    /// them, and its timer never outruns one frame time.
    pub closed spec fn wf(&self) -> bool {
        0 < self.frame_count
            && self.current_frame < self.frame_count
            && 0 < self.frame_time <= FP_ONE * 3600
            && 0 <= self.timer <= self.frame_time
    }

    pub closed spec fn frame_count_spec(&self) -> int {
        self.frame_count as int
    }

    pub closed spec fn current_frame_spec(&self) -> int {
        self.current_frame as int
    }

    pub closed spec fn frame_time_spec(&self) -> int {
        self.frame_time as int
    }

    pub closed spec fn timer_spec(&self) -> int {
        self.timer as int
    }

    /// A fresh animation over `frame_count` frames, showing the first.
    pub fn new(frame_count: usize, frame_time: i64) -> (a: Animation)
        requires
            0 < frame_count,
            0 < frame_time <= FP_ONE * 3600,
        ensures
            a.wf(),
            a.frame_count_spec() == frame_count,
            a.current_frame_spec() == 0,
            a.frame_time_spec() == frame_time,
            a.timer_spec() == 0,
    {
        Animation { frame_count, current_frame: 0, frame_time, timer: 0 }
    }

    /// Advances the timer by `dt`; when it reaches one frame time the
    /// animation steps to the next frame, wrapping past the last, and the
    /// timer restarts.
    pub fn update(&mut self, dt: i64)
        requires
            old(self).wf(),
            0 <= dt <= FP_ONE * 3600,
        ensures
            final(self).wf(),
            final(self).frame_count_spec() == old(self).frame_count_spec(),
            final(self).frame_time_spec() == old(self).frame_time_spec(),
            old(self).timer_spec() + dt >= old(self).frame_time_spec() ==> {
                &&& final(self).current_frame_spec()
                    == (old(self).current_frame_spec() + 1) % old(self).frame_count_spec()
                &&& final(self).timer_spec() == 0
            },
            old(self).timer_spec() + dt < old(self).frame_time_spec() ==> {
                &&& final(self).current_frame_spec() == old(self).current_frame_spec()
                &&& final(self).timer_spec() == old(self).timer_spec() + dt
            },
    {
        let t: i64 = self.timer + dt;
        if t >= self.frame_time {
            self.current_frame = (self.current_frame + 1) % self.frame_count;
            self.timer = 0;
        } else {
            self.timer = t;
        }
    }

    /// The index of the frame currently shown.
    pub fn current_texture(&self) -> (i: usize)
        requires
            self.wf(),
        ensures
            i == self.current_frame_spec(),
            i < self.frame_count_spec(),
    {
        self.current_frame
    }
}

} // verus!
