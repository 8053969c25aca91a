//! The player controller: a three-state motion model (normal, flying, dead)
//! with per-axis move-then-resolve physics, coyote time, variable jump
//! height, and a depletable flight resource.
use vstd::prelude::*;

use crate::animation::Animation;
use crate::collision::{
    boxes_intersect, spec_collide_fold, spec_mc_collide_fold, CollBox, MultiCollider,
};
use crate::fx::{
    fx_add, fx_mul, iabs, spec_decay_toward_2d, spec_fx_add, spec_fx_mul, spec_move_toward,
    spec_move_toward_2d, spec_normalize, vec_decay_toward, vec_move_toward, vec_normalize,
    fx_move_toward, Vec2Fx,
};
use crate::particles::{ParticleKind, ParticleRequest};
use crate::staticobj::{spec_block_effect, GhostBlockEffect, GhostBlocks};

verus! {

/// Top running speed, in thousandths of a unit per second.
pub const PLAYER_SPEED: i64 = 67200;

/// Ground acceleration toward the input direction.
pub const PLAYER_SPEED_CHANGE: i64 = 403200;

/// Air acceleration toward the input direction.
pub const PLAYER_AIR_CHANGE: i64 = 235200;

/// Acceleration multiplier while reversing direction.
pub const PLAYER_REVERSE_CHANGE: i64 = 3;

/// Top flight speed.
pub const PLAYER_FLIGHT_SPEED: i64 = 110000;

/// Acceleration toward the input direction while flying.
pub const PLAYER_FLIGHT_CHANGE: i64 = 440000;

/// Velocity damping factor applied when entering flight.
pub const PLAYER_FLIGHT_MULT: i64 = 750;

/// Flight friction toward rest.
pub const PLAYER_FLIGHT_FRICTION: i64 = 202400;

/// Full flight resource, in thousandths of a second.
pub const PLAYER_FLIGHT_TIME: i64 = 940;

/// Drain multiplier while not flying against resistance.
pub const PLAYER_FLIGHT_TIME_SLOW: i64 = 250;

/// Gravity, positive downward.
pub const PLAYER_GRAVITY: i64 = 134000;

/// Gravity while falling (tripled for a snappier fall).
pub const PLAYER_FALL_GRAVITY: i64 = 402000;

/// Terminal fall speed.
pub const PLAYER_FALL_SPEED: i64 = 153600;

/// Upward jump speed.
pub const PLAYER_JUMP_SPEED: i64 = 96000;

/// Upward speed cap applied when jump is released early.
pub const PLAYER_JUMP_CANCEL: i64 = 44800;

/// Upward bounce applied when flight ends while airborne and rising.
pub const BOUNCE_SPEED: i64 = 32000;

/// Easing rate of the flight trail marker.
pub const PLAYER_TRAIL_SPEED: i64 = 24000;

/// The coyote-time window, in thousandths of a second.
pub const COYOTE_TIME: i64 = 250;

/// Pressing jump ends flight only when this much resource was spent.
pub const FLIGHT_RETRIGGER_GAP: i64 = 50;

/// The nudge added below the feet while grounded so the ground keeps being
/// re-detected.
pub const GROUND_SNAP: i64 = 10;

/// The player's motion state.
#[derive(Clone, Copy, PartialEq, Eq, Structural, Debug)]
pub enum PlayerState {
    Flying(Vec2Fx),
    Normal(i64),
    Dead,
}

/// One frame of digested input: raw direction (components are whole input
/// units), its normalized form, and the two buttons.
#[derive(Clone, Copy, PartialEq, Eq, Structural, Debug)]
pub struct PlayerInput {
    pub jump: bool,
    pub fly: bool,
    pub dir: Vec2Fx,
    pub dir_norm: Vec2Fx,
}

impl PlayerInput {
    /// Valid input: each direction component is a full unit or zero, and the
    /// normalized direction is derived from it.
    pub open spec fn wf(self) -> bool {
        &&& (self.dir.x == -1000 || self.dir.x == 0 || self.dir.x == 1000)
        &&& (self.dir.y == -1000 || self.dir.y == 0 || self.dir.y == 1000)
        &&& self.dir_norm == spec_normalize(self.dir.x as int, self.dir.y as int)
        &&& -1000 <= self.dir_norm.x <= 1000
        &&& -1000 <= self.dir_norm.y <= 1000
    }

    /// Build an input frame from key states; opposite keys cancel.
    pub fn from_keys(left: bool, right: bool, up: bool, down: bool, jump: bool, fly: bool) -> (r:
        PlayerInput)
        ensures
            r.dir.x as int == (if right { 1000int } else { 0int }) - (if left { 1000int } else { 0int }),
            r.dir.y as int == (if down { 1000int } else { 0int }) - (if up { 1000int } else { 0int }),
            r.jump == jump,
            r.fly == fly,
            r.wf(),
    {
        let dx: i64 = (if right {
            1000i64
        } else {
            0i64
        }) - (if left {
            1000i64
        } else {
            0i64
        });
        let dy: i64 = (if down {
            1000i64
        } else {
            0i64
        }) - (if up {
            1000i64
        } else {
            0i64
        });
        let dir = Vec2Fx { x: dx, y: dy };
        PlayerInput { jump, fly, dir, dir_norm: vec_normalize(dx, dy) }
    }

    /// Flight is requested: the fly button held without jump.
    pub open spec fn spec_should_fly(self) -> bool {
        self.fly && !self.jump
    }

    pub fn should_fly(&self) -> (r: bool)
        ensures
            r == self.spec_should_fly(),
    {
        self.fly && !self.jump
    }
}

/// The player.
pub struct Player {
    pub cbox: CollBox,
    pub motion: Vec2Fx,
    pub grounded: bool,
    pub lm_dir: i64,
    pub anim_timer: Animation,
    pub player_state: PlayerState,
    pub flight_time: i64,
}

/// The idle animation.
pub open spec fn spec_idle_anim() -> Animation {
    Animation { time: 0, first: 0, num_frames: 3, length: 2000, repeat: true }
}

/// The walk animation.
pub open spec fn spec_walk_anim() -> Animation {
    Animation { time: 0, first: 5, num_frames: 2, length: 500, repeat: true }
}

/// The jump animation.
pub open spec fn spec_jump_anim() -> Animation {
    Animation { time: 0, first: 3, num_frames: 2, length: 400, repeat: true }
}

/// The flight animation.
pub open spec fn spec_fly_anim() -> Animation {
    Animation { time: 0, first: 7, num_frames: 1, length: 1000, repeat: true }
}

/// The animation chosen by a normal-state frame.
pub open spec fn spec_normal_anim_choice(input: PlayerInput, grounded: bool) -> Animation {
    if grounded {
        if iabs(input.dir.x as int) == 1000 {
            spec_walk_anim()
        } else {
            spec_idle_anim()
        }
    } else {
        spec_jump_anim()
    }
}

/// Switching an animation clock keeps the time only when the frame window
/// and length agree.
pub open spec fn spec_switch_anim(cur: Animation, to: Animation) -> Animation {
    Animation {
        time: if cur.num_frames == to.num_frames && cur.length == to.length {
            cur.time
        } else {
            0
        },
        ..to
    }
}

/// The acceleration used this frame: air or ground rate, tripled while the
/// current motion opposes the last faced direction.
pub open spec fn spec_nspeed_change(p: Player) -> int {
    (if p.grounded {
        PLAYER_SPEED_CHANGE as int
    } else {
        PLAYER_AIR_CHANGE as int
    }) * (if p.motion.x as int * p.lm_dir as int <= 0 {
        PLAYER_REVERSE_CHANGE as int
    } else {
        1
    })
}

/// One normal-state frame: ease the horizontal speed toward the input,
/// apply gravity (tripled while falling) capped at terminal speed, honour
/// jump and variable jump height within the coyote window, enter flight if
/// requested and fuelled, recharge on the ground, and advance the coyote
/// window.
pub open spec fn spec_normal_update(p: Player, coyote_time: int, input: PlayerInput, dt: int) -> Player {
    let m1x = spec_move_toward(
        p.motion.x as int,
        spec_fx_mul(input.dir.x as int, PLAYER_SPEED as int),
        spec_fx_mul(spec_nspeed_change(p), dt),
    );
    let grav = spec_fx_mul(
        if p.motion.y > 0 {
            PLAYER_FALL_GRAVITY as int
        } else {
            PLAYER_GRAVITY as int
        },
        dt,
    );
    let m1y0 = spec_fx_add(p.motion.y as int, grav);
    let m1y = if m1y0 <= PLAYER_FALL_SPEED as int {
        m1y0
    } else {
        PLAYER_FALL_SPEED as int
    };
    let anim = spec_switch_anim(p.anim_timer, spec_normal_anim_choice(input, p.grounded));
    let m2y = if input.jump && coyote_time > 0 {
        -(PLAYER_JUMP_SPEED as int)
    } else if !input.jump {
        if m1y >= -(PLAYER_JUMP_CANCEL as int) {
            m1y
        } else {
            -(PLAYER_JUMP_CANCEL as int)
        }
    } else {
        m1y
    };
    if input.spec_should_fly() && p.flight_time > 0 {
        Player {
            motion: Vec2Fx {
                x: spec_fx_mul(m1x, PLAYER_FLIGHT_MULT as int) as i64,
                y: spec_fx_mul(m2y, PLAYER_FLIGHT_MULT as int) as i64,
            },
            anim_timer: anim,
            player_state: PlayerState::Flying(p.cbox.pos),
            ..p
        }
    } else {
        Player {
            motion: Vec2Fx { x: m1x as i64, y: m2y as i64 },
            anim_timer: anim,
            flight_time: if p.grounded {
                PLAYER_FLIGHT_TIME
            } else {
                p.flight_time
            },
            player_state: PlayerState::Normal(
                (if p.grounded {
                    COYOTE_TIME as int
                } else if m2y > 0 {
                    if coyote_time - dt >= 0 {
                        coyote_time - dt
                    } else {
                        0
                    }
                } else {
                    0
                }) as i64,
            ),
            ..p
        }
    }
}

/// One flying frame: friction toward rest plus easing toward the input
/// direction at flight speed, resource drain (slower against the grain),
/// and either the lagging trail update or the return to normal with a
/// bounce when the resource is spent or jump cancels the flight.
pub open spec fn spec_flying_update(p: Player, trail_loc: Vec2Fx, input: PlayerInput, dt: int) -> Player {
    let m1 = spec_move_toward_2d(
        p.motion,
        Vec2Fx { x: 0, y: 0 },
        spec_fx_mul(PLAYER_FLIGHT_FRICTION as int, dt),
    );
    let target = Vec2Fx {
        x: spec_fx_mul(input.dir_norm.x as int, PLAYER_FLIGHT_SPEED as int) as i64,
        y: spec_fx_mul(input.dir_norm.y as int, PLAYER_FLIGHT_SPEED as int) as i64,
    };
    let m2 = spec_move_toward_2d(
        m1,
        target,
        spec_fx_mul((PLAYER_FLIGHT_CHANGE + PLAYER_FLIGHT_FRICTION) as int, dt),
    );
    let anim = spec_switch_anim(p.anim_timer, spec_fly_anim());
    let drain = if m2.x as int * input.dir_norm.x as int + m2.y as int * input.dir_norm.y as int
        <= 0 {
        PLAYER_FLIGHT_TIME_SLOW as int
    } else {
        1000int
    };
    let ft1 = p.flight_time as int - spec_fx_mul(dt, drain);
    if ft1 < 0 || (input.jump && ft1 < PLAYER_FLIGHT_TIME as int - FLIGHT_RETRIGGER_GAP as int) {
        Player {
            motion: Vec2Fx {
                x: m2.x,
                y: if !p.grounded && m2.y <= 0 {
                    (-(BOUNCE_SPEED as int)) as i64
                } else {
                    m2.y
                },
            },
            anim_timer: anim,
            flight_time: 0,
            player_state: PlayerState::Normal(0),
            ..p
        }
    } else {
        Player {
            motion: m2,
            anim_timer: anim,
            flight_time: ft1 as i64,
            player_state: PlayerState::Flying(
                spec_decay_toward_2d(trail_loc, p.cbox.pos, spec_fx_mul(PLAYER_TRAIL_SPEED as int, dt)),
            ),
            ..p
        }
    }
}

/// One full input-and-physics frame of the state machine (collision comes
/// separately): update the facing, dispatch on the state, advance the
/// animation clock.
pub open spec fn spec_player_update(p: Player, input: PlayerInput, dt: int) -> Player {
    let p0 = Player {
        lm_dir: if input.dir.x != 0 {
            input.dir.x
        } else {
            p.lm_dir
        },
        ..p
    };
    let p1 = match p0.player_state {
        PlayerState::Normal(ct) => spec_normal_update(p0, ct as int, input, dt),
        PlayerState::Flying(trail) => spec_flying_update(p0, trail, input, dt),
        PlayerState::Dead => Player { motion: Vec2Fx { x: 0, y: 0 }, ..p0 },
    };
    Player {
        anim_timer: Animation {
            time: crate::animation::spec_anim_time(
                p1.anim_timer.repeat,
                p1.anim_timer.length as int,
                p1.anim_timer.time + dt,
            ) as i64,
            ..p1.anim_timer
        },
        ..p1
    }
}

/// The player after entering (or re-entering) flight externally: the
/// resource refills; from normal state the vertical speed is damped and the
/// trail starts at the player; an existing trail or death is untouched.
pub open spec fn spec_set_to_flying(p: Player) -> Player {
    let p1 = Player { flight_time: PLAYER_FLIGHT_TIME, ..p };
    match p.player_state {
        PlayerState::Flying(pos) => p1,
        PlayerState::Dead => Player { flight_time: PLAYER_FLIGHT_TIME, ..p },
        PlayerState::Normal(ct) => Player {
            motion: Vec2Fx {
                x: p.motion.x,
                y: spec_fx_mul(p.motion.y as int, PLAYER_FLIGHT_MULT as int) as i64,
            },
            player_state: PlayerState::Flying(p.cbox.pos),
            ..p1
        },
    }
}

/// The player box and axis hits after the x sweep of the resolve pass.
pub open spec fn spec_resolve_x(
    b0: CollBox,
    walls: Seq<MultiCollider>,
    breakable: Seq<CollBox>,
    gblocks: Seq<CollBox>,
    solid_ghost: bool,
) -> (CollBox, bool) {
    let (b1, hw) = spec_mc_collide_fold(b0, walls, 0, false, true);
    let (b2, hb) = spec_collide_fold(b1, breakable, true);
    let (b3, hg) = if solid_ghost {
        spec_collide_fold(b2, gblocks, true)
    } else {
        (b2, false)
    };
    (b3, hw || hb || hg)
}

/// The player box and axis hits after the y sweep; the three collider sets
/// short-circuit: once one reports a hit the rest are not resolved against.
pub open spec fn spec_resolve_y(
    b0: CollBox,
    walls: Seq<MultiCollider>,
    breakable: Seq<CollBox>,
    gblocks: Seq<CollBox>,
    solid_ghost: bool,
) -> (CollBox, bool) {
    let (b1, hw) = spec_mc_collide_fold(b0, walls, 0, false, false);
    let (b2, hb) = if hw {
        (b1, false)
    } else {
        spec_collide_fold(b1, breakable, false)
    };
    let (b3, hg) = if hw || hb {
        (b2, false)
    } else if solid_ghost {
        spec_collide_fold(b2, gblocks, false)
    } else {
        (b2, false)
    };
    (b3, hw || hb || hg)
}

/// One full move-then-resolve physics frame, x fully before y: the box
/// moves by `motion * dt` on x and is aligned against walls, breakables and
/// solid ghost blocks; then the same on y with the ground-snap nudge; a hit
/// zeroes that axis of the motion, and the grounded flag is set only from
/// the y outcome.
pub open spec fn spec_physics_update(
    p: Player,
    walls: Seq<MultiCollider>,
    breakable: Seq<CollBox>,
    gb: GhostBlocks,
    dt: int,
) -> Player {
    let solid = spec_block_effect(gb.anim_time as int, gb.anim_dir as int)
        == GhostBlockEffect::Collide;
    let b0 = CollBox {
        pos: Vec2Fx {
            x: spec_fx_add(p.cbox.pos.x as int, spec_fx_mul(p.motion.x as int, dt)) as i64,
            y: p.cbox.pos.y,
        },
        half_dim: p.cbox.half_dim,
    };
    let (bx, hit_x) = spec_resolve_x(b0, walls, breakable, gb.blocks@, solid);
    let mx = if hit_x {
        0int
    } else {
        p.motion.x as int
    };
    let py0 = spec_fx_add(bx.pos.y as int, spec_fx_mul(p.motion.y as int, dt));
    let py = if p.grounded && p.motion.y >= 0 {
        spec_fx_add(py0, GROUND_SNAP as int)
    } else {
        py0
    };
    let by0 = CollBox { pos: Vec2Fx { x: bx.pos.x, y: py as i64 }, half_dim: bx.half_dim };
    let (by, hit_y) = spec_resolve_y(by0, walls, breakable, gb.blocks@, solid);
    Player {
        cbox: by,
        motion: Vec2Fx {
            x: mx as i64,
            y: if hit_y {
                0
            } else {
                p.motion.y
            },
        },
        grounded: if hit_y {
            p.motion.y >= 0
        } else {
            false
        },
        ..p
    }
}

impl Player {
    /// Valid player: box and motion in range, facing a whole unit, timers in
    /// their windows.
    pub open spec fn wf(self) -> bool {
        &&& self.cbox.wf()
        &&& self.motion.wf()
        &&& (self.lm_dir == 1000 || self.lm_dir == -1000)
        &&& self.anim_timer.wf()
        &&& self.anim_timer.length <= 2000
        &&& 0 <= self.flight_time <= PLAYER_FLIGHT_TIME
        &&& match self.player_state {
            PlayerState::Normal(ct) => 0 <= ct <= COYOTE_TIME,
            PlayerState::Flying(trail) => trail.wf(),
            PlayerState::Dead => true,
        }
    }

    /// A freshly spawned player: a 4 by 6 half-extent box at the origin, at
    /// rest, airborne, facing right, idle, grounded-state with no coyote
    /// window and no flight resource.
    pub fn new() -> (r: Player)
        ensures
            r == spec_new_player(),
            r.wf(),
    {
        Player {
            cbox: CollBox {
                pos: Vec2Fx { x: 0, y: 0 },
                half_dim: Vec2Fx { x: 4000, y: 6000 },
            },
            motion: Vec2Fx { x: 0, y: 0 },
            grounded: false,
            lm_dir: 1000,
            anim_timer: Animation { time: 0, first: 0, num_frames: 3, length: 2000, repeat: true },
            player_state: PlayerState::Normal(0),
            flight_time: 0,
        }
    }

    /// One input-and-state frame.
    pub fn update(&mut self, input: &PlayerInput, dt: i64)
        requires
            old(self).wf(),
            input.wf(),
            0 <= dt <= 1000,
        ensures
            *final(self) == spec_player_update(*old(self), *input, dt as int),
            final(self).wf(),
    {
        if input.dir.x != 0 {
            self.lm_dir = input.dir.x;
        }
        match self.player_state {
            PlayerState::Normal(coyote_time) => {
                self.normal_update(coyote_time, input, dt);
            },
            PlayerState::Flying(trail_loc) => {
                self.flying_update(input, trail_loc, dt);
            },
            PlayerState::Dead => {
                self.motion = Vec2Fx { x: 0, y: 0 };
            },
        }
        self.anim_timer.update(dt);
    }

    /// Enter flight when touching any of the given fly zones.
    pub fn fly_box_check(&mut self, fb: &[CollBox])
        requires
            old(self).wf(),
            forall|i: int| 0 <= i < fb@.len() ==> (#[trigger] fb@[i]).wf(),
        ensures
            *final(self) == (if exists|i: int|
                0 <= i < fb@.len() && boxes_intersect(old(self).cbox, fb@[i]) {
                spec_set_to_flying(*old(self))
            } else {
                *old(self)
            }),
            final(self).wf(),
    {
        if self.cbox.check_intersection_slice(fb) {
            self.set_to_flying();
        }
    }

    /// Refill the flight resource and enter flight, unless dead; an already
    /// flying player keeps the trail.
    pub fn set_to_flying(&mut self)
        requires
            old(self).wf(),
        ensures
            *final(self) == spec_set_to_flying(*old(self)),
            final(self).wf(),
    {
        self.flight_time = PLAYER_FLIGHT_TIME;
        match self.player_state {
            PlayerState::Flying(_) => {},
            PlayerState::Dead => {},
            PlayerState::Normal(_) => {
                self.motion.y = fx_mul(self.motion.y, PLAYER_FLIGHT_MULT);
                self.player_state = PlayerState::Flying(self.cbox.pos);
            },
        }
    }

    fn normal_update(&mut self, coyote_time: i64, input: &PlayerInput, dt: i64)
        requires
            old(self).wf(),
            old(self).player_state == PlayerState::Normal(coyote_time),
            input.wf(),
            0 <= dt <= 1000,
        ensures
            *final(self) == spec_normal_update(*old(self), coyote_time as int, *input, dt as int),
            final(self).wf(),
    {
        let base: i64 = if self.grounded {
            PLAYER_SPEED_CHANGE
        } else {
            PLAYER_AIR_CHANGE
        };
        let reversing = self.motion.x == 0 || ((self.motion.x < 0) != (self.lm_dir < 0));
        proof {
            assert((self.motion.x as int * self.lm_dir as int <= 0) == reversing)
                by (nonlinear_arith)
                requires
                    self.lm_dir as int == 1000 || self.lm_dir as int == -1000,
                    reversing == (self.motion.x as int == 0 || (((self.motion.x as int) < 0) != (
                    (self.lm_dir as int) < 0))),
            ;
        }
        let change: i64 = if reversing {
            base * PLAYER_REVERSE_CHANGE
        } else {
            base
        };
        self.motion.x = fx_move_toward(
            self.motion.x,
            fx_mul(input.dir.x, PLAYER_SPEED),
            fx_mul(change, dt),
        );
        let grav = fx_mul(
            if self.motion.y > 0 {
                PLAYER_FALL_GRAVITY
            } else {
                PLAYER_GRAVITY
            },
            dt,
        );
        let my = fx_add(self.motion.y, grav);
        self.motion.y = if my <= PLAYER_FALL_SPEED {
            my
        } else {
            PLAYER_FALL_SPEED
        };
        let chosen: Animation = if self.grounded {
            if input.dir.x != 0 {
                Animation { time: 0, first: 5, num_frames: 2, length: 500, repeat: true }
            } else {
                Animation { time: 0, first: 0, num_frames: 3, length: 2000, repeat: true }
            }
        } else {
            Animation { time: 0, first: 3, num_frames: 2, length: 400, repeat: true }
        };
        self.anim_timer.set_animation(&chosen);
        if input.jump && coyote_time > 0 {
            self.motion.y = -PLAYER_JUMP_SPEED;
        } else if !input.jump {
            if self.motion.y < -PLAYER_JUMP_CANCEL {
                self.motion.y = -PLAYER_JUMP_CANCEL;
            }
        }
        if input.should_fly() && self.flight_time > 0 {
            self.motion.x = fx_mul(self.motion.x, PLAYER_FLIGHT_MULT);
            self.motion.y = fx_mul(self.motion.y, PLAYER_FLIGHT_MULT);
            self.player_state = PlayerState::Flying(self.cbox.pos);
            return;
        }
        if self.grounded {
            self.flight_time = PLAYER_FLIGHT_TIME;
        }
        let next_coyote: i64 = if self.grounded {
            COYOTE_TIME
        } else if self.motion.y > 0 {
            if coyote_time - dt >= 0 {
                coyote_time - dt
            } else {
                0
            }
        } else {
            0
        };
        self.player_state = PlayerState::Normal(next_coyote);
    }

    fn flying_update(&mut self, input: &PlayerInput, trail_loc: Vec2Fx, dt: i64)
        requires
            old(self).wf(),
            old(self).player_state == PlayerState::Flying(trail_loc),
            input.wf(),
            0 <= dt <= 1000,
        ensures
            *final(self) == spec_flying_update(*old(self), trail_loc, *input, dt as int),
            final(self).wf(),
    {
        self.motion = vec_move_toward(
            self.motion,
            Vec2Fx { x: 0, y: 0 },
            fx_mul(PLAYER_FLIGHT_FRICTION, dt),
        );
        let target = Vec2Fx {
            x: fx_mul(input.dir_norm.x, PLAYER_FLIGHT_SPEED),
            y: fx_mul(input.dir_norm.y, PLAYER_FLIGHT_SPEED),
        };
        self.motion = vec_move_toward(
            self.motion,
            target,
            fx_mul(PLAYER_FLIGHT_CHANGE + PLAYER_FLIGHT_FRICTION, dt),
        );
        let fly_anim = Animation { time: 0, first: 7, num_frames: 1, length: 1000, repeat: true };
        self.anim_timer.set_animation(&fly_anim);
        let d = self.motion.dot(input.dir_norm);
        let drain: i64 = if d <= 0 {
            PLAYER_FLIGHT_TIME_SLOW
        } else {
            1000
        };
        self.flight_time = self.flight_time - fx_mul(dt, drain);
        if self.flight_time < 0 || (input.jump && self.flight_time < PLAYER_FLIGHT_TIME
            - FLIGHT_RETRIGGER_GAP) {
            if !self.grounded && self.motion.y <= 0 {
                self.motion.y = -BOUNCE_SPEED;
            }
            self.flight_time = 0;
            self.player_state = PlayerState::Normal(0);
        } else {
            self.player_state = PlayerState::Flying(
                vec_decay_toward(trail_loc, self.cbox.pos, fx_mul(PLAYER_TRAIL_SPEED, dt)),
            );
        }
    }

    /// One move-then-resolve physics frame against the wall grid, the
    /// breakable walls and (while solid) the ghost blocks.
    pub fn physics_update_mc(
        &mut self,
        walls: &[MultiCollider],
        breakable: &[CollBox],
        ghost_blocks: &GhostBlocks,
        dt: i64,
    )
        requires
            old(self).wf(),
            forall|k: int| 0 <= k < walls@.len() ==> (#[trigger] walls@[k]).wf(),
            forall|i: int| 0 <= i < breakable@.len() ==> (#[trigger] breakable@[i]).wf(),
            ghost_blocks.wf(),
            0 <= dt <= 1000,
        ensures
            *final(self) == spec_physics_update(
                *old(self),
                walls@,
                breakable@,
                *ghost_blocks,
                dt as int,
            ),
            final(self).wf(),
    {
        let solid = {
            let e = ghost_blocks.get_block_effect();
            matches!(e, GhostBlockEffect::Collide)
        };
        self.cbox.pos.x = fx_add(self.cbox.pos.x, fx_mul(self.motion.x, dt));
        let mut hit_x = MultiCollider::collide_x_slice(&mut self.cbox, walls);
        hit_x = self.cbox.collide_x_slice(breakable) || hit_x;
        if solid {
            hit_x = self.cbox.collide_x_slice(ghost_blocks.get_block_slice()) || hit_x;
        }
        if hit_x {
            self.motion.x = 0;
        }
        self.cbox.pos.y = fx_add(self.cbox.pos.y, fx_mul(self.motion.y, dt));
        if self.grounded && self.motion.y >= 0 {
            self.cbox.pos.y = fx_add(self.cbox.pos.y, GROUND_SNAP);
        }
        let mut hit_y = MultiCollider::collide_y_slice(&mut self.cbox, walls);
        if !hit_y {
            hit_y = self.cbox.collide_y_slice(breakable);
        }
        if !hit_y && solid {
            hit_y = self.cbox.collide_y_slice(ghost_blocks.get_block_slice());
        }
        if hit_y {
            self.grounded = self.motion.y >= 0;
            self.motion.y = 0;
        } else {
            self.grounded = false;
        }
    }

    /// Whether the ghost blocks are in their lethal phase and touch the
    /// player.
    pub fn check_ghost_block_kill(&self, ghost_blocks: &GhostBlocks) -> (r: bool)
        requires
            self.wf(),
            ghost_blocks.wf(),
        ensures
            r == (spec_block_effect(ghost_blocks.anim_time as int, ghost_blocks.anim_dir as int)
                == GhostBlockEffect::Kill && exists|i: int|
                0 <= i < ghost_blocks.blocks@.len() && boxes_intersect(
                    self.cbox,
                    ghost_blocks.blocks@[i],
                )),
    {
        let e = ghost_blocks.get_block_effect();
        if matches!(e, GhostBlockEffect::Kill) {
            self.cbox.check_intersection_slice(ghost_blocks.get_block_slice())
        } else {
            false
        }
    }

    /// Put the player in the terminal dead state.
    pub fn disable_player(&mut self)
        requires
            old(self).wf(),
        ensures
            *final(self) == (Player { player_state: PlayerState::Dead, ..*old(self) }),
            final(self).wf(),
    {
        self.player_state = PlayerState::Dead;
    }

    /// Kill the player: emit the death burst (unless already dead) and enter
    /// the dead state.
    pub fn kill(&mut self, effects: &mut Vec<ParticleRequest>)
        requires
            old(self).wf(),
        ensures
            *final(self) == (Player { player_state: PlayerState::Dead, ..*old(self) }),
            final(self).wf(),
            final(effects)@ == (if old(self).player_state is Dead {
                old(effects)@
            } else {
                old(effects)@.push(spec_death_burst(*old(self)))
            }),
    {
        match self.player_state {
            PlayerState::Dead => {},
            _ => {
                let to = Vec2Fx {
                    x: fx_add(self.cbox.pos.x, fx_mul(self.motion.x, 150)),
                    y: fx_add(self.cbox.pos.y, fx_mul(self.motion.y, 150)),
                };
                effects.push(ParticleRequest {
                    count: 14,
                    from: self.cbox.pos,
                    from_rad: 8000,
                    to,
                    to_rad: 38000,
                    lifetime: 500,
                    color_fade: 3,
                    renderer: ParticleKind::Circle,
                });
            },
        }
        self.disable_player();
    }
}

/// A freshly spawned player, as a value.
pub open spec fn spec_new_player() -> Player {
    Player {
        cbox: CollBox { pos: Vec2Fx { x: 0, y: 0 }, half_dim: Vec2Fx { x: 4000, y: 6000 } },
        motion: Vec2Fx { x: 0, y: 0 },
        grounded: false,
        lm_dir: 1000,
        anim_timer: spec_idle_anim(),
        player_state: PlayerState::Normal(0),
        flight_time: 0,
    }
}

/// The particle burst emitted when the player dies: it spreads from the
/// player toward where the motion was carrying them.
pub open spec fn spec_death_burst(p: Player) -> ParticleRequest {
    ParticleRequest {
        count: 14,
        from: p.cbox.pos,
        from_rad: 8000,
        to: Vec2Fx {
            x: spec_fx_add(p.cbox.pos.x as int, spec_fx_mul(p.motion.x as int, 150)) as i64,
            y: spec_fx_add(p.cbox.pos.y as int, spec_fx_mul(p.motion.y as int, 150)) as i64,
        },
        to_rad: 38000,
        lifetime: 500,
        color_fade: 3,
        renderer: ParticleKind::Circle,
    }
}


/// Holding the flight input with any resource left turns a normal frame
/// into flight: the trail starts at the player's position and the motion
/// this frame's easing and gravity produced is damped by the flight factor.
pub proof fn lemma_flight_entry(p: Player, input: PlayerInput, dt: int)
    requires
        p.wf(),
        input.wf(),
        p.player_state is Normal,
        input.spec_should_fly(),
        p.flight_time > 0,
        0 <= dt <= 1000,
    ensures
        ({
            let p0 = Player {
                lm_dir: if input.dir.x != 0 {
                    input.dir.x
                } else {
                    p.lm_dir
                },
                ..p
            };
            let m1x = spec_move_toward(
                p.motion.x as int,
                spec_fx_mul(input.dir.x as int, PLAYER_SPEED as int),
                spec_fx_mul(spec_nspeed_change(p0), dt),
            );
            let grav = spec_fx_mul(
                if p.motion.y > 0 {
                    PLAYER_FALL_GRAVITY as int
                } else {
                    PLAYER_GRAVITY as int
                },
                dt,
            );
            let m1y0 = spec_fx_add(p.motion.y as int, grav);
            let m1y = if m1y0 <= PLAYER_FALL_SPEED as int {
                m1y0
            } else {
                PLAYER_FALL_SPEED as int
            };
            let m2y = if m1y >= -(PLAYER_JUMP_CANCEL as int) {
                m1y
            } else {
                -(PLAYER_JUMP_CANCEL as int)
            };
            let p2 = spec_player_update(p, input, dt);
            &&& p2.player_state == PlayerState::Flying(p.cbox.pos)
            &&& p2.motion.x as int == spec_fx_mul(m1x, PLAYER_FLIGHT_MULT as int)
            &&& p2.motion.y as int == spec_fx_mul(m2y, PLAYER_FLIGHT_MULT as int)
            &&& p2.flight_time == p.flight_time
        }),
{
}

/// While flying with the motion carrying into the input direction, the
/// flight resource strictly decreases (for any frame of at least one
/// thousandth of a second); and whatever the frame, it never grows.
pub proof fn lemma_flight_drain(p: Player, trail: Vec2Fx, input: PlayerInput, dt: int)
    requires
        p.wf(),
        input.wf(),
        p.player_state == PlayerState::Flying(trail),
        1 <= dt <= 1000,
        p.flight_time > 0,
    ensures
        ({
            let p2 = spec_player_update(p, input, dt);
            let m2 = spec_move_toward_2d(
                spec_move_toward_2d(
                    p.motion,
                    Vec2Fx { x: 0, y: 0 },
                    spec_fx_mul(PLAYER_FLIGHT_FRICTION as int, dt),
                ),
                Vec2Fx {
                    x: spec_fx_mul(input.dir_norm.x as int, PLAYER_FLIGHT_SPEED as int) as i64,
                    y: spec_fx_mul(input.dir_norm.y as int, PLAYER_FLIGHT_SPEED as int) as i64,
                },
                spec_fx_mul((PLAYER_FLIGHT_CHANGE + PLAYER_FLIGHT_FRICTION) as int, dt),
            );
            let drain = if m2.x as int * input.dir_norm.x as int + m2.y as int
                * input.dir_norm.y as int <= 0 {
                PLAYER_FLIGHT_TIME_SLOW as int
            } else {
                1000int
            };
            let ft1 = p.flight_time as int - spec_fx_mul(dt, drain);
            &&& (m2.x as int * input.dir_norm.x as int + m2.y as int * input.dir_norm.y as int > 0
                ==> p2.flight_time < p.flight_time)
            &&& p2.flight_time <= p.flight_time
            &&& (!input.jump ==> p2.flight_time as int == (if ft1 < 0 {
                0int
            } else {
                ft1
            }))
        }),
{
    let d = dt * 1000;
    assert(crate::fx::div_trunc(d, 1000) == dt) by (nonlinear_arith)
        requires
            d == dt * 1000,
            0 <= dt,
    ;
    let d2 = dt * 250;
    assert(0 <= crate::fx::div_trunc(d2, 1000) <= dt) by (nonlinear_arith)
        requires
            d2 == dt * 250,
            0 <= dt,
    ;
}

/// A flying player whose resource is spent returns to the normal state with
/// an empty window and an empty resource, within one frame (of at least
/// four thousandths of a second, the quantum below which the slow drain
/// rounds to nothing).
pub proof fn lemma_flight_exhausted(p: Player, trail: Vec2Fx, input: PlayerInput, dt: int)
    requires
        p.wf(),
        input.wf(),
        p.player_state == PlayerState::Flying(trail),
        p.flight_time == 0,
        4 <= dt <= 1000,
    ensures
        spec_player_update(p, input, dt).player_state == PlayerState::Normal(0),
        spec_player_update(p, input, dt).flight_time == 0,
        ({
            let m1 = spec_move_toward_2d(
                p.motion,
                Vec2Fx { x: 0, y: 0 },
                spec_fx_mul(PLAYER_FLIGHT_FRICTION as int, dt),
            );
            let m2 = spec_move_toward_2d(
                m1,
                Vec2Fx {
                    x: spec_fx_mul(input.dir_norm.x as int, PLAYER_FLIGHT_SPEED as int) as i64,
                    y: spec_fx_mul(input.dir_norm.y as int, PLAYER_FLIGHT_SPEED as int) as i64,
                },
                spec_fx_mul((PLAYER_FLIGHT_CHANGE + PLAYER_FLIGHT_FRICTION) as int, dt),
            );
            spec_player_update(p, input, dt).motion.y as int == (if !p.grounded && m2.y <= 0 {
                -(BOUNCE_SPEED as int)
            } else {
                m2.y as int
            })
        }),
{
    let d = dt * 250;
    assert(crate::fx::div_trunc(d, 1000) >= 1) by (nonlinear_arith)
        requires
            d == dt * 250,
            dt >= 4,
    ;
    let d2 = dt * 1000;
    assert(crate::fx::div_trunc(d2, 1000) >= 1) by (nonlinear_arith)
        requires
            d2 == dt * 1000,
            dt >= 4,
    ;
}

/// The coyote window: touching ground opens the full window; in the air it
/// counts down by exactly the frame time while falling and is closed while
/// rising; and a jump pressed inside the window is honoured with the full
/// jump speed.
pub proof fn lemma_coyote_window(p: Player, coyote: i64, input: PlayerInput, dt: int)
    requires
        p.wf(),
        input.wf(),
        p.player_state == PlayerState::Normal(coyote),
        !(input.spec_should_fly() && p.flight_time > 0),
        0 <= dt <= 1000,
    ensures
        ({
            let p2 = spec_normal_update(p, coyote as int, input, dt);
            let grav = spec_fx_mul(
                if p.motion.y > 0 {
                    PLAYER_FALL_GRAVITY as int
                } else {
                    PLAYER_GRAVITY as int
                },
                dt,
            );
            let m1y0 = spec_fx_add(p.motion.y as int, grav);
            let m1y = if m1y0 <= PLAYER_FALL_SPEED as int {
                m1y0
            } else {
                PLAYER_FALL_SPEED as int
            };
            let m2y = if input.jump && coyote > 0 {
                -(PLAYER_JUMP_SPEED as int)
            } else if !input.jump {
                if m1y >= -(PLAYER_JUMP_CANCEL as int) {
                    m1y
                } else {
                    -(PLAYER_JUMP_CANCEL as int)
                }
            } else {
                m1y
            };
            &&& (p.grounded ==> p2.player_state == PlayerState::Normal(COYOTE_TIME))
            &&& (!p.grounded && m2y > 0 ==> p2.player_state == PlayerState::Normal(
                (if coyote - dt >= 0 {
                    coyote - dt
                } else {
                    0
                }) as i64,
            ))
            &&& (!p.grounded && m2y <= 0 ==> p2.player_state == PlayerState::Normal(0))
            &&& (input.jump && coyote > 0 ==> p2.motion.y == -PLAYER_JUMP_SPEED)
            &&& (input.jump && coyote <= 0 ==> p2.motion.y as int == m1y)
        }),
{
}

} // verus!
