//! Enemy behaviours (pursuing ghosts, turrets, stalking ghosts) and the
//! projectiles turrets fire.
use vstd::prelude::*;

use crate::collision::{circles_intersect, CollBox, CollCircle};
use crate::fx::{
    fx_add, fx_mul, fx_sub, spec_decay_toward_2d, spec_fx_add, spec_fx_mul, spec_move_toward,
    spec_normalize, vec_decay_toward, vec_normalize, fx_move_toward, Vec2Fx, FX_MAX,
};
use crate::particles::{ParticleKind, ParticleRequest};

verus! {

/// Base speed of the pursuing ghost.
pub const AG_SPEED: i64 = 51000;

/// Speed multiplier while a flight zone boosts it.
pub const ANG_SPEED_BOOST: i64 = 1700;

/// Acceleration of the pursuing ghost.
pub const AG_SPEED_CHANGE: i64 = 200000;

/// Turret recoil after a shot, in thousandths of a second.
pub const TURRET_FIRE_RECOV: i64 = 1500;

/// Recoil multiplier while a flight zone boosts the turret.
pub const TURRET_SPEED_BOOST: i64 = 1750;

/// Speed of a turret projectile.
pub const TURRET_BULLET_SPEED: i64 = 100000;

/// Lifetime of a turret projectile.
pub const TURRET_BULLET_LIFE: i64 = 10000;

/// Player detection radius shared by the enemies.
pub const ENEMY_DET_SIZE: i64 = 60000;

/// Projectile radius.
pub const BULLET_SIZE: i64 = 2000;

/// Patrol speed of the stalking ghost.
pub const STALKER_SLOW_SPEED: i64 = 24000;

/// Chase speed of the stalking ghost while angered.
pub const STALKER_FAST_SPEED: i64 = 282000;

/// Easing rate of the stalking ghost's velocity.
pub const STALKER_SPEED_CHANGE: i64 = 2400;

/// Inside this distance the stalking ghost stops patrolling.
pub const STALKER_TARGET_RADIUS: i64 = 64000;

/// How long a trap trip keeps the stalking ghost angered.
pub const STALKER_ANGER_TIMER: i64 = 300;

/// The anger timer's floor: a small negative sentinel, kept distinct from
/// zero so that a ghost that was never angered can be told apart from one
/// whose anger just expired.
pub const STALKER_ANGER_FLOOR: i64 = -100;

/// The per-behaviour payload of an enemy.
#[derive(Clone, Copy, PartialEq, Eq, Structural, Debug)]
pub enum EnemyType {
    AngryGhosts(i64, bool),
    Turret(i64),
    StalkingGhost(Vec2Fx, i64, bool),
}

/// An enemy: its collision box and behaviour state.
#[derive(Clone, Copy, PartialEq, Eq, Structural, Debug)]
pub struct Enemy {
    pub cbox: CollBox,
    pub enemy_type: EnemyType,
}

/// A projectile: circle, velocity, and an optional remaining lifetime
/// (none meaning it lives until it hits something).
#[derive(Clone, Copy, PartialEq, Eq, Structural, Debug)]
pub struct Bullet {
    pub coll: CollCircle,
    pub motion: Vec2Fx,
    pub life_time: Option<i64>,
}

/// The player counts as detected: their rounded box overlaps the detection
/// circle, or a trap was tripped anywhere this frame.
pub open spec fn spec_player_in_range(e: Enemy, player_box: CollBox, trap_triggered: bool) -> bool {
    circles_intersect(
        CollCircle {
            pos: player_box.pos,
            radius: ((player_box.half_dim.x + player_box.half_dim.y) / 2) as i64,
        },
        CollCircle { pos: e.cbox.pos, radius: ENEMY_DET_SIZE },
    ) || trap_triggered
}

/// The scaled unit vector from the enemy toward the player (the difference
/// saturates at the working range).
pub open spec fn spec_dir_to_player(e: Enemy, player_box: CollBox) -> Vec2Fx {
    spec_normalize(
        spec_fx_add(player_box.pos.x as int, -(e.cbox.pos.x as int)),
        spec_fx_add(player_box.pos.y as int, -(e.cbox.pos.y as int)),
    )
}

/// One behaviour frame of an enemy: the next enemy state and the projectile
/// it fired, if any.
pub open spec fn spec_enemy_update(
    e: Enemy,
    player_box: CollBox,
    in_fb: bool,
    trap_triggered: bool,
    dt: int,
) -> (Enemy, Option<Bullet>) {
    let in_range = spec_player_in_range(e, player_box, trap_triggered);
    let dir = spec_dir_to_player(e, player_box);
    match e.enemy_type {
        EnemyType::AngryGhosts(speed, active) => {
            let active2 = active || in_range;
            let target = if !active2 {
                0int
            } else {
                spec_fx_mul(
                    if in_fb {
                        ANG_SPEED_BOOST as int
                    } else {
                        1000int
                    },
                    AG_SPEED as int,
                )
            };
            let speed2 = spec_move_toward(speed as int, target, spec_fx_mul(AG_SPEED_CHANGE as int, dt));
            let pos2 = if active2 {
                Vec2Fx {
                    x: spec_fx_add(
                        e.cbox.pos.x as int,
                        spec_fx_mul(spec_fx_mul(dir.x as int, speed2), dt),
                    ) as i64,
                    y: spec_fx_add(
                        e.cbox.pos.y as int,
                        spec_fx_mul(spec_fx_mul(dir.y as int, speed2), dt),
                    ) as i64,
                }
            } else {
                e.cbox.pos
            };
            (
                Enemy {
                    cbox: CollBox { pos: pos2, half_dim: e.cbox.half_dim },
                    enemy_type: EnemyType::AngryGhosts(speed2 as i64, active2),
                },
                Option::None,
            )
        },
        EnemyType::Turret(recov) => {
            let ticked = recov as int - spec_fx_mul(
                dt,
                if in_fb {
                    TURRET_SPEED_BOOST as int
                } else {
                    1000int
                },
            );
            let recov2 = if ticked >= 0 {
                ticked
            } else {
                0int
            };
            if recov2 <= 0 && in_range {
                (
                    Enemy { enemy_type: EnemyType::Turret(TURRET_FIRE_RECOV), ..e },
                    Option::Some(
                        Bullet {
                            coll: CollCircle { pos: e.cbox.pos, radius: BULLET_SIZE },
                            motion: Vec2Fx {
                                x: spec_fx_mul(dir.x as int, TURRET_BULLET_SPEED as int) as i64,
                                y: spec_fx_mul(dir.y as int, TURRET_BULLET_SPEED as int) as i64,
                            },
                            life_time: Option::Some(TURRET_BULLET_LIFE),
                        },
                    ),
                )
            } else {
                (Enemy { enemy_type: EnemyType::Turret(recov2 as i64), ..e }, Option::None)
            }
        },
        EnemyType::StalkingGhost(vel, anger_timer, agro) => {
            let agro2 = agro || in_range;
            let anger1 = if trap_triggered && agro2 {
                STALKER_ANGER_TIMER as int
            } else {
                anger_timer as int
            };
            let dx = e.cbox.pos.x as int - player_box.pos.x;
            let dy = e.cbox.pos.y as int - player_box.pos.y;
            let used = if agro2 {
                if anger1 > 0 {
                    STALKER_FAST_SPEED as int
                } else if dx * dx + dy * dy > STALKER_TARGET_RADIUS as int * STALKER_TARGET_RADIUS as int {
                    STALKER_SLOW_SPEED as int
                } else {
                    0int
                }
            } else {
                0int
            };
            let vel2 = if agro2 {
                spec_decay_toward_2d(
                    vel,
                    Vec2Fx {
                        x: spec_fx_mul(dir.x as int, used) as i64,
                        y: spec_fx_mul(dir.y as int, used) as i64,
                    },
                    spec_fx_mul(dt, STALKER_SPEED_CHANGE as int),
                )
            } else {
                vel
            };
            let pos2 = if agro2 {
                Vec2Fx {
                    x: spec_fx_add(e.cbox.pos.x as int, spec_fx_mul(vel2.x as int, dt)) as i64,
                    y: spec_fx_add(e.cbox.pos.y as int, spec_fx_mul(vel2.y as int, dt)) as i64,
                }
            } else {
                e.cbox.pos
            };
            let anger2 = if anger1 - dt >= STALKER_ANGER_FLOOR as int {
                anger1 - dt
            } else {
                STALKER_ANGER_FLOOR as int
            };
            (
                Enemy {
                    cbox: CollBox { pos: pos2, half_dim: e.cbox.half_dim },
                    enemy_type: EnemyType::StalkingGhost(vel2, anger2 as i64, agro2),
                },
                Option::None,
            )
        },
    }
}

impl Enemy {
    /// Valid enemy: box in range, behaviour timers and speeds in range.
    pub open spec fn wf(self) -> bool {
        self.cbox.wf() && match self.enemy_type {
            EnemyType::AngryGhosts(speed, _) => -FX_MAX <= speed <= FX_MAX,
            EnemyType::Turret(recov) => 0 <= recov <= FX_MAX,
            EnemyType::StalkingGhost(vel, anger, _) => vel.wf() && STALKER_ANGER_FLOOR <= anger
                <= FX_MAX,
        }
    }

    pub fn new(pos: Vec2Fx, entype: EnemyType) -> (r: Enemy)
        ensures
            r.cbox == (CollBox { pos, half_dim: Vec2Fx { x: 4000, y: 4000 } }),
            r.enemy_type == entype,
    {
        Enemy { cbox: CollBox { pos, half_dim: Vec2Fx { x: 4000, y: 4000 } }, enemy_type: entype }
    }

    /// One behaviour frame; a fired projectile is appended to `bullets`.
    pub fn update(
        &mut self,
        player_box: &CollBox,
        bullets: &mut Vec<Bullet>,
        in_fb: bool,
        trap_triggered: bool,
        dt: i64,
    )
        requires
            old(self).wf(),
            player_box.wf(),
            0 <= dt <= 1000,
        ensures
            *final(self) == spec_enemy_update(
                *old(self),
                *player_box,
                in_fb,
                trap_triggered,
                dt as int,
            ).0,
            final(bullets)@ == (match spec_enemy_update(
                *old(self),
                *player_box,
                in_fb,
                trap_triggered,
                dt as int,
            ).1 {
                Option::Some(b) => old(bullets)@.push(b),
                Option::None => old(bullets)@,
            }),
            final(self).wf(),
    {
        let det = CollCircle { pos: self.cbox.pos, radius: ENEMY_DET_SIZE };
        let player_in_range = player_box.to_circle().check_intersection(&det) || trap_triggered;
        let dir = vec_normalize(
            fx_sub(player_box.pos.x, self.cbox.pos.x),
            fx_sub(player_box.pos.y, self.cbox.pos.y),
        );
        match self.enemy_type {
            EnemyType::AngryGhosts(speed, active) => {
                let active2 = active || player_in_range;
                let target: i64 = if !active2 {
                    0
                } else {
                    fx_mul(
                        if in_fb {
                            ANG_SPEED_BOOST
                        } else {
                            1000
                        },
                        AG_SPEED,
                    )
                };
                let speed2 = fx_move_toward(speed, target, fx_mul(AG_SPEED_CHANGE, dt));
                if active2 {
                    self.cbox.pos.x = fx_add(self.cbox.pos.x, fx_mul(fx_mul(dir.x, speed2), dt));
                    self.cbox.pos.y = fx_add(self.cbox.pos.y, fx_mul(fx_mul(dir.y, speed2), dt));
                }
                self.enemy_type = EnemyType::AngryGhosts(speed2, active2);
            },
            EnemyType::Turret(recov) => {
                let tick = fx_mul(
                    dt,
                    if in_fb {
                        TURRET_SPEED_BOOST
                    } else {
                        1000
                    },
                );
                let recov2: i64 = if recov - tick >= 0 {
                    recov - tick
                } else {
                    0
                };
                if recov2 <= 0 && player_in_range {
                    bullets.push(
                        Bullet {
                            coll: CollCircle { pos: self.cbox.pos, radius: BULLET_SIZE },
                            motion: Vec2Fx {
                                x: fx_mul(dir.x, TURRET_BULLET_SPEED),
                                y: fx_mul(dir.y, TURRET_BULLET_SPEED),
                            },
                            life_time: Option::Some(TURRET_BULLET_LIFE),
                        },
                    );
                    self.enemy_type = EnemyType::Turret(TURRET_FIRE_RECOV);
                } else {
                    self.enemy_type = EnemyType::Turret(recov2);
                }
            },
            EnemyType::StalkingGhost(vel, anger_timer, agro) => {
                let agro2 = agro || player_in_range;
                let mut anger1 = anger_timer;
                let mut vel2 = vel;
                if agro2 {
                    if trap_triggered {
                        anger1 = STALKER_ANGER_TIMER;
                    }
                    let dsq = self.cbox.pos.distance_squared(player_box.pos);
                    let used: i64 = if anger1 > 0 {
                        STALKER_FAST_SPEED
                    } else if dsq > STALKER_TARGET_RADIUS * STALKER_TARGET_RADIUS {
                        STALKER_SLOW_SPEED
                    } else {
                        0
                    };
                    vel2 = vec_decay_toward(
                        vel,
                        Vec2Fx { x: fx_mul(dir.x, used), y: fx_mul(dir.y, used) },
                        fx_mul(dt, STALKER_SPEED_CHANGE),
                    );
                    self.cbox.pos.x = fx_add(self.cbox.pos.x, fx_mul(vel2.x, dt));
                    self.cbox.pos.y = fx_add(self.cbox.pos.y, fx_mul(vel2.y, dt));
                }
                let anger2: i64 = if anger1 - dt >= STALKER_ANGER_FLOOR {
                    anger1 - dt
                } else {
                    STALKER_ANGER_FLOOR
                };
                self.enemy_type = EnemyType::StalkingGhost(vel2, anger2, agro2);
            },
        }
    }

    /// Whether the player's projectiles can kill this enemy.
    pub fn get_friendly_fire(&self) -> (r: bool)
        ensures
            r == (self.enemy_type is AngryGhosts),
    {
        match self.enemy_type {
            EnemyType::AngryGhosts(_, _) => true,
            _ => false,
        }
    }
}

/// A pursuing ghost, initially at rest and inactive.
pub fn new_angry_ghost(pos: Vec2Fx) -> (r: Enemy)
    ensures
        r.cbox == (CollBox { pos, half_dim: Vec2Fx { x: 4000, y: 4000 } }),
        r.enemy_type == EnemyType::AngryGhosts(0, false),
{
    Enemy::new(pos, EnemyType::AngryGhosts(0, false))
}

/// A turret, ready to fire.
pub fn new_turret(pos: Vec2Fx) -> (r: Enemy)
    ensures
        r.cbox == (CollBox { pos, half_dim: Vec2Fx { x: 4000, y: 4000 } }),
        r.enemy_type == EnemyType::Turret(0),
{
    Enemy::new(pos, EnemyType::Turret(0))
}

/// A stalking ghost with a slightly larger box, never yet angered.
pub fn new_stalker(pos: Vec2Fx) -> (r: Enemy)
    ensures
        r.cbox == (CollBox { pos, half_dim: Vec2Fx { x: 6000, y: 6000 } }),
        r.enemy_type == EnemyType::StalkingGhost(Vec2Fx { x: 0, y: 0 }, 0, false),
{
    let mut enemy = Enemy::new(pos, EnemyType::StalkingGhost(Vec2Fx { x: 0, y: 0 }, 0, false));
    enemy.cbox.half_dim = Vec2Fx { x: 6000, y: 6000 };
    enemy
}

/// The burst emitted where an enemy dies.
pub open spec fn spec_enemy_death_burst(pos: Vec2Fx) -> ParticleRequest {
    ParticleRequest {
        count: 13,
        from: pos,
        from_rad: 7000,
        to: pos,
        to_rad: 16000,
        lifetime: 500,
        color_fade: 1,
        renderer: ParticleKind::Circle,
    }
}

/// Emit the enemy death burst.
pub fn create_enemy_death_particals(effects: &mut Vec<ParticleRequest>, pos: Vec2Fx)
    ensures
        final(effects)@ == old(effects)@.push(spec_enemy_death_burst(pos)),
{
    effects.push(
        ParticleRequest {
            count: 13,
            from: pos,
            from_rad: 7000,
            to: pos,
            to_rad: 16000,
            lifetime: 500,
            color_fade: 1,
            renderer: ParticleKind::Circle,
        },
    );
}

impl Bullet {
    /// Valid projectile: circle and motion in range, lifetime in range.
    pub open spec fn wf(self) -> bool {
        self.coll.wf() && self.motion.wf() && match self.life_time {
            Option::Some(lt) => -FX_MAX <= lt <= FX_MAX,
            Option::None => true,
        }
    }

    pub fn new(coll: CollCircle, motion: Vec2Fx, life_time: Option<i64>) -> (r: Bullet)
        ensures
            r.coll == coll,
            r.motion == motion,
            r.life_time == life_time,
    {
        Bullet { coll, motion, life_time }
    }

    /// Advance the projectile by its motion.
    pub fn update(&mut self, dt: i64)
        requires
            old(self).wf(),
            0 <= dt <= 1000,
        ensures
            final(self).coll.pos.x as int == spec_fx_add(
                old(self).coll.pos.x as int,
                spec_fx_mul(old(self).motion.x as int, dt as int),
            ),
            final(self).coll.pos.y as int == spec_fx_add(
                old(self).coll.pos.y as int,
                spec_fx_mul(old(self).motion.y as int, dt as int),
            ),
            final(self).coll.radius == old(self).coll.radius,
            final(self).motion == old(self).motion,
            final(self).life_time == old(self).life_time,
            final(self).wf(),
    {
        self.coll.pos.x = fx_add(self.coll.pos.x, fx_mul(self.motion.x, dt));
        self.coll.pos.y = fx_add(self.coll.pos.y, fx_mul(self.motion.y, dt));
    }

    /// Tick the remaining lifetime; report whether it has expired.
    pub fn life_time_update(&mut self, dt: i64) -> (r: bool)
        requires
            old(self).wf(),
            0 <= dt <= 1000,
        ensures
            final(self).coll == old(self).coll,
            final(self).motion == old(self).motion,
            final(self).life_time == (match old(self).life_time {
                Option::Some(lt) => Option::Some(
                    crate::fx::fx_sat(lt - dt) as i64,
                ),
                Option::None => Option::<i64>::None,
            }),
            r == (match old(self).life_time {
                Option::Some(lt) => crate::fx::fx_sat(lt - dt) < 0,
                Option::None => false,
            }),
            final(self).wf(),
    {
        match self.life_time {
            Option::Some(lt) => {
                let next_lt = fx_sub(lt, dt);
                self.life_time = Option::Some(next_lt);
                next_lt < 0
            },
            Option::None => false,
        }
    }
}

} // verus!
