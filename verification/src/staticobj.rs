//! Static level objects: triggers (fly zones, spikes, re-armable traps) and
//! the ghost-block group whose solidity cycles with nearby trap activity.
use vstd::prelude::*;

use crate::collision::{boxes_intersect, CollBox};
use crate::fx::{spec_clamp, Vec2Fx, FX_MAX};

verus! {

/// How long a tripped trap stays armed before it can trip again.
pub const TRAP_ANIM_TIME: i64 = 500;

/// Below this remaining countdown a trap counts as fully decayed and may be
/// tripped again.
pub const TRAP_REARM_EPSILON: i64 = 10;

#[derive(Clone, Copy, PartialEq, Eq, Structural, Debug)]
pub enum TriggerType {
    FlyBox,
    Trap(i64),
    Spikes,
}

/// A static trigger region with its behaviour tag.
#[derive(Clone, Copy, PartialEq, Eq, Structural, Debug)]
pub struct Trigger {
    pub coll: CollBox,
    pub trigger_type: TriggerType,
}

/// Which kinds of trigger a box overlapped during one scan.
#[derive(Clone, Copy, PartialEq, Eq, Structural, Debug)]
pub struct TriggerScan {
    pub fly: bool,
    pub spikes: bool,
    pub trap: bool,
}

/// The trigger's tag after one countdown step of `dt`.
pub open spec fn spec_trigger_tick(t: TriggerType, dt: int) -> TriggerType {
    match t {
        TriggerType::Trap(time) => TriggerType::Trap(
            (if time - dt > 0 {
                time - dt
            } else {
                0
            }) as i64,
        ),
        _ => t,
    }
}

/// The trigger's tag after being scanned against an overlapping box: a trap
/// whose countdown has fully decayed re-arms to the full duration; everything
/// else is unchanged.
pub open spec fn spec_trigger_touch(t: TriggerType) -> TriggerType {
    match t {
        TriggerType::Trap(time) => if time < TRAP_REARM_EPSILON {
            TriggerType::Trap(TRAP_ANIM_TIME)
        } else {
            t
        },
        _ => t,
    }
}

impl Trigger {
    /// Valid trigger: valid box, trap countdown inside `[0, FX_MAX]`.
    pub open spec fn wf(self) -> bool {
        self.coll.wf() && match self.trigger_type {
            TriggerType::Trap(time) => 0 <= time <= FX_MAX,
            _ => true,
        }
    }

    pub fn new(coll: CollBox, trigger_type: TriggerType) -> (r: Trigger)
        ensures
            r.coll == coll,
            r.trigger_type == trigger_type,
    {
        Trigger { coll, trigger_type }
    }

    /// Tick every trap countdown down by `dt`, floored at zero.
    pub fn update(objs: &mut Vec<Trigger>, dt: i64)
        requires
            forall|i: int| 0 <= i < old(objs)@.len() ==> (#[trigger] old(objs)@[i]).wf(),
            0 <= dt <= FX_MAX,
        ensures
            final(objs)@.len() == old(objs)@.len(),
            forall|i: int|
                0 <= i < old(objs)@.len() ==> #[trigger] final(objs)@[i] == (Trigger {
                    coll: old(objs)@[i].coll,
                    trigger_type: spec_trigger_tick(old(objs)@[i].trigger_type, dt as int),
                }),
            forall|i: int| 0 <= i < final(objs)@.len() ==> (#[trigger] final(objs)@[i]).wf(),
    {
        let mut i: usize = 0;
        while i < objs.len()
            invariant
                0 <= i <= objs@.len(),
                objs@.len() == old(objs)@.len(),
                0 <= dt <= FX_MAX,
                forall|k: int| i <= k < objs@.len() ==> objs@[k] == old(objs)@[k],
                forall|k: int| i <= k < objs@.len() ==> (#[trigger] objs@[k]).wf(),
                forall|k: int|
                    0 <= k < i ==> #[trigger] objs@[k] == (Trigger {
                        coll: old(objs)@[k].coll,
                        trigger_type: spec_trigger_tick(old(objs)@[k].trigger_type, dt as int),
                    }),
                forall|k: int| 0 <= k < i ==> (#[trigger] objs@[k]).wf(),
            decreases objs@.len() - i,
        {
            let tr = &mut objs[i];
            match tr.trigger_type {
                TriggerType::Trap(time) => {
                    let nt: i64 = if time - dt > 0 {
                        time - dt
                    } else {
                        0
                    };
                    tr.trigger_type = TriggerType::Trap(nt);
                },
                _ => {},
            }
            i += 1;
        }
    }

    /// Scan the triggers against a box: report which kinds were overlapped
    /// and re-arm every overlapped, fully decayed trap.
    pub fn coll_check(objs: &mut Vec<Trigger>, other: &CollBox) -> (r: TriggerScan)
        requires
            forall|i: int| 0 <= i < old(objs)@.len() ==> (#[trigger] old(objs)@[i]).wf(),
            other.wf(),
        ensures
            final(objs)@.len() == old(objs)@.len(),
            forall|i: int|
                0 <= i < old(objs)@.len() ==> #[trigger] final(objs)@[i] == (Trigger {
                    coll: old(objs)@[i].coll,
                    trigger_type: if boxes_intersect(old(objs)@[i].coll, *other) {
                        spec_trigger_touch(old(objs)@[i].trigger_type)
                    } else {
                        old(objs)@[i].trigger_type
                    },
                }),
            forall|i: int| 0 <= i < final(objs)@.len() ==> (#[trigger] final(objs)@[i]).wf(),
            r.fly == exists|i: int|
                0 <= i < old(objs)@.len() && boxes_intersect((#[trigger] old(objs)@[i]).coll, *other)
                    && old(objs)@[i].trigger_type is FlyBox,
            r.spikes == exists|i: int|
                0 <= i < old(objs)@.len() && boxes_intersect((#[trigger] old(objs)@[i]).coll, *other)
                    && old(objs)@[i].trigger_type is Spikes,
            r.trap == exists|i: int|
                0 <= i < old(objs)@.len() && boxes_intersect((#[trigger] old(objs)@[i]).coll, *other)
                    && old(objs)@[i].trigger_type is Trap,
            final(objs)@ == spec_triggers_touched(old(objs)@, *other),
            r == (TriggerScan {
                fly: spec_scan_fly(old(objs)@, *other),
                spikes: spec_scan_spikes(old(objs)@, *other),
                trap: spec_scan_trap(old(objs)@, *other),
            }),
    {
        let mut scan = TriggerScan { fly: false, spikes: false, trap: false };
        let mut i: usize = 0;
        while i < objs.len()
            invariant
                0 <= i <= objs@.len(),
                objs@.len() == old(objs)@.len(),
                other.wf(),
                forall|k: int| i <= k < objs@.len() ==> objs@[k] == old(objs)@[k],
                forall|k: int| i <= k < objs@.len() ==> (#[trigger] objs@[k]).wf(),
                forall|k: int|
                    0 <= k < i ==> #[trigger] objs@[k] == (Trigger {
                        coll: old(objs)@[k].coll,
                        trigger_type: if boxes_intersect(old(objs)@[k].coll, *other) {
                            spec_trigger_touch(old(objs)@[k].trigger_type)
                        } else {
                            old(objs)@[k].trigger_type
                        },
                    }),
                forall|k: int| 0 <= k < i ==> (#[trigger] objs@[k]).wf(),
                scan.fly == exists|k: int|
                    0 <= k < i && boxes_intersect((#[trigger] old(objs)@[k]).coll, *other)
                        && old(objs)@[k].trigger_type is FlyBox,
                scan.spikes == exists|k: int|
                    0 <= k < i && boxes_intersect((#[trigger] old(objs)@[k]).coll, *other)
                        && old(objs)@[k].trigger_type is Spikes,
                scan.trap == exists|k: int|
                    0 <= k < i && boxes_intersect((#[trigger] old(objs)@[k]).coll, *other)
                        && old(objs)@[k].trigger_type is Trap,
            decreases objs@.len() - i,
        {
            let hit = objs[i].coll.check_intersection(other);
            if hit {
                let tr = &mut objs[i];
                match tr.trigger_type {
                    TriggerType::FlyBox => {
                        scan.fly = true;
                    },
                    TriggerType::Spikes => {
                        scan.spikes = true;
                    },
                    TriggerType::Trap(time) => {
                        scan.trap = true;
                        if time < TRAP_REARM_EPSILON {
                            tr.trigger_type = TriggerType::Trap(TRAP_ANIM_TIME);
                        }
                    },
                }
            }
            i += 1;
        }
        proof {
            assert(objs@ =~= spec_triggers_touched(old(objs)@, *other));
        }
        scan
    }
}


/// The triggers after a scan against `other`: overlapped, fully decayed
/// traps re-arm, everything else is unchanged.
pub open spec fn spec_triggers_touched(ts: Seq<Trigger>, other: CollBox) -> Seq<Trigger> {
    Seq::new(
        ts.len(),
        |i: int|
            Trigger {
                coll: ts[i].coll,
                trigger_type: if boxes_intersect(ts[i].coll, other) {
                    spec_trigger_touch(ts[i].trigger_type)
                } else {
                    ts[i].trigger_type
                },
            },
    )
}

/// A fly zone overlaps the box.
pub open spec fn spec_scan_fly(ts: Seq<Trigger>, other: CollBox) -> bool {
    exists|i: int|
        0 <= i < ts.len() && boxes_intersect((#[trigger] ts[i]).coll, other) && ts[i].trigger_type
            is FlyBox
}

/// A spike region overlaps the box.
pub open spec fn spec_scan_spikes(ts: Seq<Trigger>, other: CollBox) -> bool {
    exists|i: int|
        0 <= i < ts.len() && boxes_intersect((#[trigger] ts[i]).coll, other) && ts[i].trigger_type
            is Spikes
}

/// A trap overlaps the box.
pub open spec fn spec_scan_trap(ts: Seq<Trigger>, other: CollBox) -> bool {
    exists|i: int|
        0 <= i < ts.len() && boxes_intersect((#[trigger] ts[i]).coll, other) && ts[i].trigger_type
            is Trap
}

/// The three solidity phases of the ghost blocks.
#[derive(Clone, Copy, PartialEq, Eq, Structural, Debug)]
pub enum GhostBlockEffect {
    Collide,
    Kill,
    PassThrough,
}

/// How long after a trap trip the blocks stay faded.
pub const BLOCK_TIME: i64 = 1200;

/// Fade-in/out span of the block animation clock.
pub const BLOCK_FADE: i64 = 300;

/// Below this clock value, while fading back in, the blocks are lethal.
pub const BLOCK_KILL_TIME: i64 = 100;

/// A group of obstacle blocks sharing one animation clock and one hit timer.
#[derive(Clone, Debug)]
pub struct GhostBlocks {
    pub blocks: Vec<CollBox>,
    pub dim: Vec2Fx,
    pub hit_timer: i64,
    pub anim_time: i64,
    pub anim_dir: i64,
}

/// The phase the group is in for the given clock and direction.
pub open spec fn spec_block_effect(anim_time: int, anim_dir: int) -> GhostBlockEffect {
    if anim_time <= 0 {
        GhostBlockEffect::Collide
    } else if anim_dir < 0 && anim_time < BLOCK_KILL_TIME as int {
        GhostBlockEffect::Kill
    } else {
        GhostBlockEffect::PassThrough
    }
}

impl GhostBlocks {
    /// Valid group: valid blocks, timers inside their spans.
    pub open spec fn wf(self) -> bool {
        &&& forall|i: int| 0 <= i < self.blocks@.len() ==> (#[trigger] self.blocks@[i]).wf()
        &&& self.dim.wf()
        &&& self.dim.x >= 0
        &&& self.dim.y >= 0
        &&& 0 <= self.hit_timer <= BLOCK_TIME
        &&& 0 <= self.anim_time <= BLOCK_FADE
        &&& (self.anim_dir == 1 || self.anim_dir == -1)
    }

    pub fn new(block_size: Vec2Fx) -> (r: GhostBlocks)
        requires
            block_size.wf(),
            block_size.x >= 0,
            block_size.y >= 0,
        ensures
            r.blocks@ == Seq::<CollBox>::empty(),
            r.dim == block_size,
            r.hit_timer == 0,
            r.anim_time == 200,
            r.anim_dir == -1,
            r.wf(),
    {
        GhostBlocks { blocks: Vec::new(), dim: block_size, hit_timer: 0, anim_time: 200, anim_dir: -1 }
    }

    pub fn add(&mut self, pos: Vec2Fx)
        requires
            old(self).wf(),
            pos.wf(),
        ensures
            *final(self) == (GhostBlocks {
                blocks: final(self).blocks,
                ..*old(self)
            }),
            final(self).blocks@ == old(self).blocks@.push(
                CollBox { pos, half_dim: old(self).dim },
            ),
            final(self).wf(),
    {
        let b = CollBox { pos, half_dim: self.dim };
        self.blocks.push(b);
    }

    pub fn clear(&mut self)
        requires
            old(self).wf(),
        ensures
            *final(self) == (GhostBlocks { blocks: final(self).blocks, ..*old(self) }),
            final(self).blocks@ == Seq::<CollBox>::empty(),
            final(self).wf(),
    {
        self.blocks.clear();
    }

    /// Advance the group by one frame: a trap trip this frame restarts the
    /// hit timer and fades the blocks out; once the timer runs out they fade
    /// back in.
    pub fn update(&mut self, nm_triggered: bool, dt: i64)
        requires
            old(self).wf(),
            0 <= dt <= FX_MAX,
        ensures
            final(self).anim_dir == (if nm_triggered || old(self).hit_timer > 0 {
                1int
            } else {
                -1int
            }),
            final(self).hit_timer as int == (if (if nm_triggered {
                BLOCK_TIME as int
            } else {
                old(self).hit_timer as int
            }) - dt > 0 {
                (if nm_triggered {
                    BLOCK_TIME as int
                } else {
                    old(self).hit_timer as int
                }) - dt
            } else {
                0
            }),
            final(self).anim_time as int == spec_clamp(
                old(self).anim_time + final(self).anim_dir * dt,
                0,
                BLOCK_FADE as int,
            ),
            final(self).blocks == old(self).blocks,
            final(self).dim == old(self).dim,
            final(self).wf(),
    {
        let dir: i64 = if nm_triggered {
            self.hit_timer = BLOCK_TIME;
            1
        } else if self.hit_timer > 0 {
            1
        } else {
            -1
        };
        self.anim_dir = dir;
        self.hit_timer = if self.hit_timer - dt > 0 {
            self.hit_timer - dt
        } else {
            0
        };
        let stepped: i64 = if dir == 1 {
            self.anim_time + dt
        } else {
            self.anim_time - dt
        };
        proof {
            let ghost at0 = old(self).anim_time as int;
            assert(stepped as int == at0 + dir as int * dt as int) by (nonlinear_arith)
                requires
                    dir as int == 1 || dir as int == -1,
                    stepped as int == (if dir as int == 1 {
                        at0 + dt as int
                    } else {
                        at0 - dt as int
                    }),
            ;
        }
        self.anim_time = if stepped < 0 {
            0
        } else if stepped > BLOCK_FADE {
            BLOCK_FADE
        } else {
            stepped
        };
    }

    pub fn get_block_effect(&self) -> (r: GhostBlockEffect)
        ensures
            r == spec_block_effect(self.anim_time as int, self.anim_dir as int),
    {
        if self.anim_time <= 0 {
            return GhostBlockEffect::Collide;
        }
        if self.anim_dir < 0 && self.anim_time < BLOCK_KILL_TIME {
            return GhostBlockEffect::Kill;
        }
        GhostBlockEffect::PassThrough
    }

    pub fn get_block_slice(&self) -> (r: &[CollBox])
        ensures
            r@ == self.blocks@,
    {
        self.blocks.as_slice()
    }
}

} // verus!
