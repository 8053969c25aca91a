//! Frame-selection clocks: a current time, a frame window, a playback length,
//! and a repeat flag. Times count thousandths of a second.
use vstd::prelude::*;

use crate::fx::{div_trunc, FX_MAX};

verus! {

/// An animation clock.
#[derive(Clone, Copy, PartialEq, Eq, Structural, Debug)]
pub struct Animation {
    pub time: i64,
    pub first: i64,
    pub num_frames: i64,
    pub length: i64,
    pub repeat: bool,
}

/// The clock value after setting it to `new_time`: wrapped into the playback
/// window when repeating (a negative time reflects off the end), clamped into
/// it otherwise.
pub open spec fn spec_anim_time(repeat: bool, length: int, new_time: int) -> int {
    if repeat {
        if new_time < 0 {
            length + ((-new_time) % length)
        } else {
            new_time % length
        }
    } else {
        if new_time < 0 {
            0
        } else if new_time > length {
            length
        } else {
            new_time
        }
    }
}

impl Animation {
    /// Valid clock: positive length, small frame window, time inside twice
    /// the playback window.
    pub open spec fn wf(self) -> bool {
        &&& 1 <= self.length <= FX_MAX
        &&& 0 <= self.num_frames <= 1000
        &&& 0 <= self.first <= 1_000_000
        &&& 0 <= self.time <= 2 * self.length
    }

    pub fn new(first: i64, num_frames: i64, length: i64, repeat: bool) -> (r: Animation)
        requires
            1 <= length <= FX_MAX,
            0 <= num_frames <= 1000,
            0 <= first <= 1_000_000,
        ensures
            r == (Animation { time: 0, first: first, num_frames: num_frames, length: length, repeat: repeat }),
            r.wf(),
    {
        Animation { time: 0, first, num_frames, length, repeat }
    }

    pub fn set_time(&mut self, new_time: i64)
        requires
            old(self).wf(),
            -FX_MAX <= new_time <= FX_MAX,
        ensures
            final(self).time as int == spec_anim_time(
                old(self).repeat,
                old(self).length as int,
                new_time as int,
            ),
            *final(self) == (Animation { time: final(self).time, ..*old(self) }),
            final(self).wf(),
    {
        if self.repeat {
            if new_time < 0 {
                self.time = self.length + ((-new_time) as u64 % self.length as u64) as i64;
            } else {
                self.time = (new_time as u64 % self.length as u64) as i64;
            }
        } else {
            if new_time < 0 {
                self.time = 0;
            } else if new_time > self.length {
                self.time = self.length;
            } else {
                self.time = new_time;
            }
        }
    }

    pub fn update(&mut self, dt: i64)
        requires
            old(self).wf(),
            0 <= dt <= FX_MAX,
            old(self).time + dt <= FX_MAX,
        ensures
            final(self).time as int == spec_anim_time(
                old(self).repeat,
                old(self).length as int,
                old(self).time + dt,
            ),
            *final(self) == (Animation { time: final(self).time, ..*old(self) }),
            final(self).wf(),
    {
        let t = self.time + dt;
        self.set_time(t);
    }

    pub fn get_time(&self) -> (r: i64)
        ensures
            r == self.time,
    {
        self.time
    }

    /// The current frame within the window: `time * num_frames / length`.
    pub fn get_frame(&self) -> (r: i64)
        requires
            self.wf(),
        ensures
            r as int == div_trunc(self.time as int * self.num_frames as int, self.length as int),
            0 <= r <= 2_000_000_000_000,
    {
        proof {
            assert(self.time as int * self.num_frames as int <= 2_000_000_000_000
                && self.time as int * self.num_frames as int >= 0) by (nonlinear_arith)
                requires
                    0 <= self.time as int <= 2_000_000_000,
                    0 <= self.num_frames as int <= 1000,
            ;
        }
        let p: u64 = self.time as u64 * self.num_frames as u64;
        let q: u64 = p / self.length as u64;
        proof {
            assert(q as int <= p as int) by (nonlinear_arith)
                requires
                    q as int == p as int / (self.length as int),
                    1 <= self.length as int,
                    0 <= p as int,
            ;
        }
        q as i64
    }

    /// The sprite-sheet index of the current frame.
    pub fn get_frame_idx(&self) -> (r: i64)
        requires
            self.wf(),
        ensures
            r as int == self.first + div_trunc(
                self.time as int * self.num_frames as int,
                self.length as int,
            ),
    {
        self.first + self.get_frame()
    }

    /// Switch to another animation, keeping the clock only when the frame
    /// window and the length agree.
    pub fn set_animation(&mut self, anim: &Animation)
        requires
            old(self).wf(),
            anim.wf(),
        ensures
            *final(self) == (Animation {
                time: if old(self).num_frames == anim.num_frames && old(self).length
                    == anim.length {
                    old(self).time
                } else {
                    0
                },
                ..*anim
            }),
            final(self).wf(),
    {
        let keep = self.num_frames == anim.num_frames && self.length == anim.length;
        let t: i64 = if keep {
            self.time
        } else {
            0
        };
        *self = Animation { time: t, ..*anim };
    }
}

} // verus!
