//! The world: level state, the blueprint scan that builds it, and the fixed
//! per-frame tick order between player, triggers, enemies, ghost blocks,
//! projectiles, breakable walls and the exit door.
use vstd::prelude::*;

use crate::collision::{
    boxes_intersect, circle_box_intersect, spec_collide_fold, spec_grid_hit,
    spec_mc_collide_fold, check_circle_box_intersection, generate_multi_col_grid, CollBox,
    CollCircle, MultiCollider,
};
use crate::enemy::{
    spec_enemy_death_burst, spec_enemy_update, create_enemy_death_particals, new_angry_ghost,
    new_stalker, new_turret, Bullet, Enemy,
};
use crate::fx::{
    fx_add, fx_clamp, fx_max, fx_min, fx_mul, fx_sat, fx_sub, spec_clamp, spec_decay_toward_2d,
    spec_fx_add, spec_fx_mul, vec_decay_toward, Vec2Fx, FX_MAX,
};
use crate::particles::{ParticleKind, ParticleRequest};
use crate::player::{Player, PlayerInput, PlayerState, spec_death_burst, PLAYER_GRAVITY};
use crate::staticobj::{
    spec_block_effect, spec_trigger_tick, GhostBlockEffect, GhostBlocks,
    Trigger, TriggerScan, TriggerType,
};
use crate::wall_man::{spec_tile_for, TileTag, WallMan};

verus! {

/// One world tile, in thousandths of a unit.
pub const TILE_SIZE: i64 = 16000;

/// Half the camera's visible extent.
pub const CAM_W: i64 = 112000;

/// Half the camera's visible extent, vertically.
pub const CAM_H: i64 = 64000;

/// Camera easing rate.
pub const CAM_SPEED: i64 = 8000;

/// Upper bound kept on the world's extent.
pub const WORLD_MAX: i64 = 60_000_000;

/// Time-scale multipliers are clamped into `[0, TIME_SPEED_MAX]`.
pub const TIME_SPEED_MAX: i64 = 5000;

/// The delay between a queued reset or exit and its taking effect.
pub const SWITCH_DELAY: i64 = 250;

/// Whether the tick is running or paused.
#[derive(Clone, Copy, PartialEq, Eq, Structural, Debug)]
pub enum GameState {
    Paused,
    Unpaused,
    ForcePaused,
}

/// What the caller should do about levels after a frame.
#[derive(Clone, Copy, PartialEq, Eq, Structural, Debug)]
pub enum LevelAction {
    Hold,
    Advance,
    Reset,
}

/// One placement read from a level layout.
#[derive(Clone, Copy, PartialEq, Eq, Structural, Debug)]
pub struct LevTile {
    pub pos: Vec2Fx,
    pub ty: char,
}

/// Everything a blueprint scan produces.
pub struct BlueprintScan {
    pub player_pos: Option<Vec2Fx>,
    pub walls: Seq<Vec2Fx>,
    pub enemies: Seq<Enemy>,
    pub lights: Seq<Vec2Fx>,
    pub ghost_cells: Seq<Vec2Fx>,
    pub triggers: Seq<Trigger>,
    pub breakable: Seq<CollBox>,
    pub exit: Option<CollBox>,
    pub note: Option<Vec2Fx>,
}

/// The scan of a blueprint: each symbol appends its entity in order; the
/// player start, exit and note keep the last occurrence.
pub open spec fn spec_blueprint_scan(bp: Seq<LevTile>) -> BlueprintScan
    decreases bp.len(),
{
    if bp.len() == 0 {
        BlueprintScan {
            player_pos: Option::None,
            walls: Seq::empty(),
            enemies: Seq::empty(),
            lights: Seq::empty(),
            ghost_cells: Seq::empty(),
            triggers: Seq::empty(),
            breakable: Seq::empty(),
            exit: Option::None,
            note: Option::None,
        }
    } else {
        let acc = spec_blueprint_scan(bp.drop_last());
        let t = bp.last();
        if t.ty == 'p' {
            BlueprintScan { player_pos: Option::Some(t.pos), ..acc }
        } else if t.ty == '#' {
            BlueprintScan { walls: acc.walls.push(t.pos), ..acc }
        } else if t.ty == 'E' {
            BlueprintScan {
                enemies: acc.enemies.push(
                    Enemy {
                        cbox: CollBox { pos: t.pos, half_dim: Vec2Fx { x: 4000, y: 4000 } },
                        enemy_type: crate::enemy::EnemyType::AngryGhosts(0, false),
                    },
                ),
                ..acc
            }
        } else if t.ty == 'T' {
            BlueprintScan {
                enemies: acc.enemies.push(
                    Enemy {
                        cbox: CollBox { pos: t.pos, half_dim: Vec2Fx { x: 4000, y: 4000 } },
                        enemy_type: crate::enemy::EnemyType::Turret(0),
                    },
                ),
                ..acc
            }
        } else if t.ty == 'S' {
            BlueprintScan {
                enemies: acc.enemies.push(
                    Enemy {
                        cbox: CollBox { pos: t.pos, half_dim: Vec2Fx { x: 6000, y: 6000 } },
                        enemy_type: crate::enemy::EnemyType::StalkingGhost(
                            Vec2Fx { x: 0, y: 0 },
                            0,
                            false,
                        ),
                    },
                ),
                ..acc
            }
        } else if t.ty == 'l' {
            BlueprintScan { lights: acc.lights.push(t.pos), ..acc }
        } else if t.ty == 'g' {
            BlueprintScan { ghost_cells: acc.ghost_cells.push(t.pos), ..acc }
        } else if t.ty == '^' {
            BlueprintScan {
                triggers: acc.triggers.push(
                    Trigger {
                        coll: CollBox { pos: t.pos, half_dim: Vec2Fx { x: 7000, y: 7000 } },
                        trigger_type: TriggerType::Trap(0),
                    },
                ),
                ..acc
            }
        } else if t.ty == 'f' {
            BlueprintScan {
                triggers: acc.triggers.push(
                    Trigger {
                        coll: CollBox { pos: t.pos, half_dim: Vec2Fx { x: 23000, y: 23000 } },
                        trigger_type: TriggerType::FlyBox,
                    },
                ),
                ..acc
            }
        } else if t.ty == '*' {
            BlueprintScan {
                triggers: acc.triggers.push(
                    Trigger {
                        coll: CollBox { pos: t.pos, half_dim: Vec2Fx { x: 6000, y: 6000 } },
                        trigger_type: TriggerType::Spikes,
                    },
                ),
                ..acc
            }
        } else if t.ty == '/' {
            BlueprintScan {
                breakable: acc.breakable.push(
                    CollBox { pos: t.pos, half_dim: Vec2Fx { x: 8000, y: 8000 } },
                ),
                ..acc
            }
        } else if t.ty == 'X' {
            BlueprintScan {
                exit: Option::Some(
                    CollBox {
                        pos: Vec2Fx { x: t.pos.x, y: fx_sat(t.pos.y + 4000) as i64 },
                        half_dim: Vec2Fx { x: 4000, y: 4000 },
                    },
                ),
                ..acc
            }
        } else if t.ty == 'N' {
            BlueprintScan { note: Option::Some(t.pos), ..acc }
        } else {
            acc
        }
    }
}

/// Triggers reordered so that fly zones come first, traps next and spikes
/// last (a stable partition), so a spike reaction is never shadowed.
pub open spec fn spec_sort_triggers(ts: Seq<Trigger>) -> Seq<Trigger> {
    ts.filter(|t: Trigger| t.trigger_type is FlyBox) + ts.filter(
        |t: Trigger| t.trigger_type is Trap,
    ) + ts.filter(|t: Trigger| t.trigger_type is Spikes)
}

/// The layout-reader accumulator: tiles so far and the pen position.
pub open spec fn spec_read_level_acc(layout: Seq<char>, grid_size: int) -> (Seq<LevTile>, int, int)
    decreases layout.len(),
{
    if layout.len() == 0 {
        (Seq::empty(), 0, 0)
    } else {
        let (tiles, x, y) = spec_read_level_acc(layout.drop_last(), grid_size);
        let c = layout.last();
        if c == ' ' {
            (tiles, fx_sat(x + grid_size), y)
        } else if c == '\n' || c == '\r' {
            (tiles, 0, fx_sat(y + grid_size))
        } else {
            (
                tiles.push(LevTile { pos: Vec2Fx { x: x as i64, y: y as i64 }, ty: c }),
                fx_sat(x + grid_size),
                y,
            )
        }
    }
}

/// The placements read from a layout string: the pen advances one tile per
/// symbol, line breaks return it, spaces skip a column, anything else
/// places itself.
pub open spec fn spec_read_level(layout: Seq<char>, grid_size: int) -> Seq<LevTile> {
    spec_read_level_acc(layout, grid_size).0
}

/// Read a layout string into placements.
pub fn read_level(layout: &str, grid_size: i64) -> (tiles: Vec<LevTile>)
    requires
        0 <= grid_size <= FX_MAX,
    ensures
        tiles@ == spec_read_level(layout@, grid_size as int),
        forall|i: int| 0 <= i < tiles@.len() ==> (#[trigger] tiles@[i]).pos.wf(),
{
    let n = layout.unicode_len();
    let mut tiles: Vec<LevTile> = Vec::new();
    let mut x: i64 = 0;
    let mut y: i64 = 0;
    let mut i: usize = 0;
    proof {
        assert(layout@.subrange(0, 0) =~= Seq::<char>::empty());
    }
    while i < n
        invariant
            0 <= i <= n,
            n == layout@.len(),
            0 <= grid_size <= FX_MAX,
            spec_read_level_acc(layout@.subrange(0, i as int), grid_size as int) == (
                tiles@,
                x as int,
                y as int,
            ),
            -FX_MAX <= x <= FX_MAX,
            -FX_MAX <= y <= FX_MAX,
            forall|k: int| 0 <= k < tiles@.len() ==> (#[trigger] tiles@[k]).pos.wf(),
        decreases n - i,
    {
        let ghost pre = layout@.subrange(0, i as int);
        let c = layout.get_char(i);
        if c == ' ' {
            x = fx_add(x, grid_size);
        } else if c == '\n' || c == '\r' {
            x = 0;
            y = fx_add(y, grid_size);
        } else {
            tiles.push(LevTile { pos: Vec2Fx { x, y }, ty: c });
            x = fx_add(x, grid_size);
        }
        i += 1;
        proof {
            assert(layout@.subrange(0, i as int).drop_last() =~= pre);
            assert(layout@.subrange(0, i as int).last() == c);
        }
    }
    proof {
        assert(layout@.subrange(0, n as int) =~= layout@);
    }
    tiles
}

/// The level-size accumulator: widest row so far, current row, row count.
pub open spec fn spec_level_size_acc(layout: Seq<char>) -> (int, int, int)
    decreases layout.len(),
{
    if layout.len() == 0 {
        (0, 0, 1)
    } else {
        let (mx, cur, rows) = spec_level_size_acc(layout.drop_last());
        let c = layout.last();
        if c == '\n' {
            (mx, 0, if rows < 1_000_000 {
                rows + 1
            } else {
                rows
            })
        } else {
            let cur2 = if cur < 1_000_000 {
                cur + 1
            } else {
                cur
            };
            (if cur2 > mx {
                cur2
            } else {
                mx
            }, cur2, rows)
        }
    }
}

/// The rectangular extent of a layout: its widest row and its row count.
pub fn get_level_size(layout: &str) -> (r: (u64, u64))
    ensures
        r.0 as int == spec_level_size_acc(layout@).0,
        r.1 as int == spec_level_size_acc(layout@).2,
        r.0 <= 1_000_000,
        r.1 <= 1_000_000,
{
    let n = layout.unicode_len();
    let mut mx: u64 = 0;
    let mut cur: u64 = 0;
    let mut rows: u64 = 1;

    let mut i: usize = 0;
    proof {
        assert(layout@.subrange(0, 0) =~= Seq::<char>::empty());
    }
    while i < n
        invariant
            0 <= i <= n,
            n == layout@.len(),
            spec_level_size_acc(layout@.subrange(0, i as int)) == (mx as int, cur as int, rows as int),
            mx <= 1_000_000,
            cur <= 1_000_000,
            rows <= 1_000_000,
        decreases n - i,
    {
        let ghost pre = layout@.subrange(0, i as int);
        let c = layout.get_char(i);
        if c == '\n' {
            cur = 0;
            if rows < 1_000_000 {
                rows = rows + 1;
            }
        } else {
            if cur < 1_000_000 {
                cur = cur + 1;
            }
            if cur > mx {
                mx = cur;
            }
        }
        i += 1;
        proof {
            assert(layout@.subrange(0, i as int).drop_last() =~= pre);
            assert(layout@.subrange(0, i as int).last() == c);
        }
    }
    proof {
        assert(layout@.subrange(0, n as int) =~= layout@);
    }
    (mx, rows)
}

/// The collapse of doubled line breaks: pairs of `\n` become one, left to
/// right.
pub open spec fn spec_collapse_acc(s: Seq<char>) -> (Seq<char>, bool)
    decreases s.len(),
{
    if s.len() == 0 {
        (Seq::empty(), false)
    } else {
        let (out, pending) = spec_collapse_acc(s.drop_last());
        let c = s.last();
        if c == '\n' {
            if pending {
                (out.push('\n'), false)
            } else {
                (out, true)
            }
        } else {
            if pending {
                (out.push('\n').push(c), false)
            } else {
                (out.push(c), false)
            }
        }
    }
}

/// The string with each doubled line break collapsed to one.
pub open spec fn spec_collapse_newlines(s: Seq<char>) -> Seq<char> {
    let (out, pending) = spec_collapse_acc(s);
    if pending {
        out.push('\n')
    } else {
        out
    }
}

/// Collapse doubled line breaks.
fn collapse_newlines(s: &str) -> (res: String)
    ensures
        res@ == spec_collapse_newlines(s@),
{
    let n = s.unicode_len();
    let mut res = String::new();
    let mut pending: bool = false;
    let mut i: usize = 0;
    proof {
        assert(s@.subrange(0, 0) =~= Seq::<char>::empty());
    }
    while i < n
        invariant
            0 <= i <= n,
            n == s@.len(),
            spec_collapse_acc(s@.subrange(0, i as int)) == (res@, pending),
        decreases n - i,
    {
        let ghost pre = s@.subrange(0, i as int);
        let c = s.get_char(i);
        if c == '\n' {
            if pending {
                crate::parser::push_char(&mut res, '\n');
                pending = false;
            } else {
                pending = true;
            }
        } else {
            if pending {
                crate::parser::push_char(&mut res, '\n');
                pending = false;
            }
            crate::parser::push_char(&mut res, c);
        }
        i += 1;
        proof {
            assert(s@.subrange(0, i as int).drop_last() =~= pre);
            assert(s@.subrange(0, i as int).last() == c);
        }
    }
    proof {
        assert(s@.subrange(0, n as int) =~= s@);
    }
    if pending {
        crate::parser::push_char(&mut res, '\n');
    }
    res
}


/// The world: every entity container, the camera, and the level's
/// bookkeeping.
pub struct GameWorld {
    pub anim_timer: i64,
    pub lights: Vec<(Vec2Fx, char)>,
    pub triggers: Vec<Trigger>,
    pub breakable_walls: Vec<CollBox>,
    pub ghost_blocks: GhostBlocks,
    pub enemies: Vec<Enemy>,
    pub bullets: Vec<Bullet>,
    pub player: Player,
    pub cam_position: Vec2Fx,
    pub world_size: Vec2Fx,
    pub level_exit: Option<(CollBox, i64)>,
    pub note: Option<Vec2Fx>,
    pub time_speed: i64,
    pub tileset: u32,
    pub level_index: i32,
    pub load_new_level: bool,
    pub level_blueprint: Vec<LevTile>,
    pub time_until_level_switch: Option<(i64, bool)>,
    pub game_state: GameState,
    pub wall_man: WallMan,
    pub effects: Vec<ParticleRequest>,
}

impl GameWorld {
    /// Valid world: every entity is valid and every scalar is in its range.
    pub open spec fn wf(self) -> bool {
        &&& 0 <= self.anim_timer < 4000
        &&& forall|i: int| 0 <= i < self.lights@.len() ==> (#[trigger] self.lights@[i]).0.wf()
        &&& forall|i: int| 0 <= i < self.triggers@.len() ==> (#[trigger] self.triggers@[i]).wf()
        &&& forall|i: int|
            0 <= i < self.breakable_walls@.len() ==> (#[trigger] self.breakable_walls@[i]).wf()
        &&& self.ghost_blocks.wf()
        &&& forall|i: int| 0 <= i < self.enemies@.len() ==> (#[trigger] self.enemies@[i]).wf()
        &&& forall|i: int| 0 <= i < self.bullets@.len() ==> (#[trigger] self.bullets@[i]).wf()
        &&& self.player.wf()
        &&& self.cam_position.wf()
        &&& self.world_size.wf()
        &&& 0 <= self.world_size.x <= WORLD_MAX
        &&& 0 <= self.world_size.y <= WORLD_MAX
        &&& match self.level_exit {
            Option::Some((b, vy)) => b.wf() && -FX_MAX <= vy <= FX_MAX,
            Option::None => true,
        }
        &&& match self.note {
            Option::Some(p) => p.wf(),
            Option::None => true,
        }
        &&& 0 <= self.time_speed <= TIME_SPEED_MAX
        &&& 0 <= self.level_index <= 100000
        &&& forall|i: int|
            0 <= i < self.level_blueprint@.len() ==> (#[trigger] self.level_blueprint@[i]).pos.wf()
        &&& match self.time_until_level_switch {
            Option::Some((t, _)) => -FX_MAX <= t <= FX_MAX,
            Option::None => true,
        }
        &&& self.wall_man.wf()
    }

    /// A fresh world: empty containers, a small default grid, camera-sized
    /// world, running state.
    pub fn new() -> (r: GameWorld)
        ensures
            r.anim_timer == 0,
            r.lights@.len() == 0,
            r.triggers@.len() == 0,
            r.breakable_walls@.len() == 0,
            r.enemies@.len() == 0,
            r.bullets@.len() == 0,
            r.player == crate::player::spec_new_player(),
            r.cam_position == (Vec2Fx { x: 0, y: 0 }),
            r.world_size == (Vec2Fx { x: CAM_W, y: CAM_H }),
            r.level_exit is None,
            r.note is None,
            r.time_speed == 1000,
            r.tileset == 0,
            r.level_index == 0,
            r.load_new_level == false,
            r.level_blueprint@.len() == 0,
            r.time_until_level_switch is None,
            r.game_state == GameState::Unpaused,
            r.effects@.len() == 0,
            r.wf(),
    {
        let grid = generate_multi_col_grid(
            Vec2Fx { x: 0, y: 0 },
            Vec2Fx { x: 128000, y: 128000 },
            5,
            3,
        );
        GameWorld {
            anim_timer: 0,
            lights: Vec::new(),
            triggers: Vec::new(),
            breakable_walls: Vec::new(),
            ghost_blocks: GhostBlocks::new(Vec2Fx { x: 8000, y: 8000 }),
            enemies: Vec::new(),
            bullets: Vec::new(),
            player: Player::new(),
            cam_position: Vec2Fx { x: 0, y: 0 },
            world_size: Vec2Fx { x: CAM_W, y: CAM_H },
            level_exit: Option::None,
            note: Option::None,
            time_speed: 1000,
            tileset: 0,
            level_index: 0,
            load_new_level: false,
            level_blueprint: Vec::new(),
            time_until_level_switch: Option::None,
            game_state: GameState::Unpaused,
            wall_man: WallMan::new(grid, TileTag { tx: 0, ty: 3 }),
            effects: Vec::new(),
        }
    }

    /// Read level metadata and layout out of a level file's text: the time
    /// scale (clamped to a sane band), the tileset, the blueprint, and the
    /// world extent (clamped to the working band). The layout string has
    /// doubled line breaks collapsed and its first character dropped.
    pub fn load_level_from_str(&mut self, level_file: &str)
        requires
            old(self).wf(),
        ensures
            final(self).time_speed as int == spec_clamp(
                spec_level_time_scale(level_file@),
                0,
                TIME_SPEED_MAX as int,
            ),
            final(self).tileset as int == spec_level_tileset(level_file@),
            final(self).level_blueprint@ == spec_read_level(
                spec_level_layout(level_file@),
                TILE_SIZE as int,
            ),
            final(self).world_size.x as int == spec_clamp(
                spec_level_size_acc(spec_level_layout(level_file@)).0 * TILE_SIZE
                    - TILE_SIZE,
                0,
                WORLD_MAX as int,
            ),
            final(self).world_size.y as int == spec_clamp(
                spec_level_size_acc(spec_level_layout(level_file@)).2 * TILE_SIZE
                    - TILE_SIZE,
                0,
                WORLD_MAX as int,
            ),
            *final(self) == (GameWorld {
                time_speed: final(self).time_speed,
                tileset: final(self).tileset,
                level_blueprint: final(self).level_blueprint,
                world_size: final(self).world_size,
                ..*old(self)
            }),
            final(self).wf(),
    {
        let parser = crate::parser::StringParser::new(level_file);
        let ts = parser.get_fixed_or_def("timeScale", 1000);
        self.time_speed = fx_clamp(ts, 0, TIME_SPEED_MAX);
        let raw_layout = parser.get_as_string_literal_or_def("layout", "P\n\n#");
        let collapsed = collapse_newlines(raw_layout.as_str());
        let m = collapsed.as_str().unicode_len();
        let level_string = if m > 0 {
            collapsed.as_str().substring_char(1, m)
        } else {
            collapsed.as_str()
        };
        let ti = parser.get_int_or_def("tileset", 0);
        self.tileset = if ti < 0 {
            if ti == -2147483648 {
                2147483648u32
            } else {
                (-ti) as u32
            }
        } else {
            ti as u32
        };
        self.level_blueprint = read_level(level_string, TILE_SIZE);
        let (cols, rows) = get_level_size(level_string);
        let colsc: i64 = if cols > 4000 {
            4000
        } else {
            cols as i64
        };
        let rowsc: i64 = if rows > 4000 {
            4000
        } else {
            rows as i64
        };
        let wx: i64 = fx_clamp(colsc * TILE_SIZE - TILE_SIZE, 0, WORLD_MAX);
        let wy: i64 = fx_clamp(rowsc * TILE_SIZE - TILE_SIZE, 0, WORLD_MAX);
        proof {
            let c0 = spec_level_size_acc(spec_level_layout(level_file@)).0;
            let r0 = spec_level_size_acc(spec_level_layout(level_file@)).2;
            assert(wx as int == spec_clamp(c0 * TILE_SIZE - TILE_SIZE, 0, WORLD_MAX as int)
                && wy as int == spec_clamp(r0 * TILE_SIZE - TILE_SIZE, 0, WORLD_MAX as int))
                by (nonlinear_arith)
                requires
                    0 <= c0,
                    0 <= r0,
                    colsc as int == (if c0 > 4000 { 4000int } else { c0 }),
                    rowsc as int == (if r0 > 4000 { 4000int } else { r0 }),
                    wx as int == spec_clamp(
                        colsc as int * TILE_SIZE - TILE_SIZE,
                        0,
                        WORLD_MAX as int,
                    ),
                    wy as int == spec_clamp(
                        rowsc as int * TILE_SIZE - TILE_SIZE,
                        0,
                        WORLD_MAX as int,
                    ),
                    TILE_SIZE == 16000,
                    WORLD_MAX == 60_000_000,
            ;
        }
        self.world_size = Vec2Fx { x: wx, y: wy };
    }

    /// Queue a delayed reset or level switch, unless one is already queued.
    pub fn queue_level_load(&mut self, load_next_level: bool)
        requires
            old(self).wf(),
        ensures
            *final(self) == (GameWorld {
                time_until_level_switch: match old(self).time_until_level_switch {
                    Option::None => Option::Some((SWITCH_DELAY, load_next_level)),
                    Option::Some(q) => Option::Some(q),
                },
                ..*old(self)
            }),
            final(self).wf(),
    {
        match self.time_until_level_switch {
            Option::None => {
                self.time_until_level_switch = Option::Some((SWITCH_DELAY, load_next_level));
            },
            _ => {},
        }
    }

    /// Ease the camera toward its clamped band inside the world.
    pub fn constrain_cam(&mut self)
        requires
            old(self).wf(),
        ensures
            *final(self) == (GameWorld { cam_position: final(self).cam_position, ..*old(self) }),
            final(self).cam_position.x as int == spec_cam_clamp(
                old(self).cam_position.x as int,
                CAM_W as int,
                old(self).world_size.x as int,
            ),
            final(self).cam_position.y as int == spec_cam_clamp(
                old(self).cam_position.y as int,
                CAM_H as int,
                old(self).world_size.y as int,
            ),
            final(self).wf(),
    {
        self.cam_position.x = fx_max(fx_min(self.cam_position.x, self.world_size.x - CAM_W), CAM_W);
        self.cam_position.y = fx_max(fx_min(self.cam_position.y, self.world_size.y - CAM_H), CAM_H);
    }

    /// Whether the player stands close enough to the note to read it.
    pub fn player_reading_note(&self) -> (r: bool)
        requires
            self.wf(),
        ensures
            r == (match self.note {
                Option::Some(p) => boxes_intersect(
                    self.player.cbox,
                    CollBox { pos: p, half_dim: Vec2Fx { x: 24000, y: 32000 } },
                ),
                Option::None => false,
            }),
    {
        match self.note {
            Option::Some(p) => {
                let nb = CollBox { pos: p, half_dim: Vec2Fx { x: 24000, y: 32000 } };
                self.player.cbox.check_intersection(&nb)
            },
            Option::None => false,
        }
    }

    /// Level housekeeping after a frame: entering the exit queues the switch
    /// and retires the player; an elapsed queue orders the caller to advance
    /// (wrapping the level index) or to reset.
    #[verifier::rlimit(100)]
    pub fn handle_levels(&mut self, n_levels: i32) -> (r: LevelAction)
        requires
            old(self).wf(),
            1 <= n_levels <= 100000,
        ensures
            ({
                let w = *old(self);
                let touched = match w.level_exit {
                    Option::Some((eb, _)) => boxes_intersect(w.player.cbox, eb),
                    Option::None => false,
                };
                let p1 = if touched {
                    Player { player_state: PlayerState::Dead, ..w.player }
                } else {
                    w.player
                };
                let tus1 = if touched {
                    spec_queue_load(w.time_until_level_switch, true)
                } else {
                    w.time_until_level_switch
                };
                let fired = match tus1 {
                    Option::Some((t, _)) => t < 0,
                    Option::None => false,
                };
                let advance = fired && (match tus1 {
                    Option::Some((_, nl)) => nl,
                    Option::None => false,
                });
                &&& r == (if !fired {
                    LevelAction::Hold
                } else if advance {
                    LevelAction::Advance
                } else {
                    LevelAction::Reset
                })
                &&& final(self).player == p1
                &&& final(self).time_until_level_switch == (if fired {
                    Option::<(i64, bool)>::None
                } else {
                    tus1
                })
                &&& final(self).level_index as int == (if advance {
                    (w.level_index as int + 1) % (n_levels as int)
                } else {
                    w.level_index as int
                })
                &&& *final(self) == (GameWorld {
                    player: final(self).player,
                    time_until_level_switch: final(self).time_until_level_switch,
                    level_index: final(self).level_index,
                    ..w
                })
            }),
            final(self).wf(),
    {
        let ghost w = *old(self);
        match self.level_exit {
            Option::Some((ebox, _)) => {
                if self.player.cbox.check_intersection(&ebox) {
                    self.queue_level_load(true);
                    self.player.disable_player();
                }
            },
            Option::None => {},
        }
        proof {
            let touched = match w.level_exit {
                Option::Some((eb, _)) => boxes_intersect(w.player.cbox, eb),
                Option::None => false,
            };
            assert(self.player == (if touched {
                Player { player_state: PlayerState::Dead, ..w.player }
            } else {
                w.player
            }));
            assert(self.time_until_level_switch == (if touched {
                spec_queue_load(w.time_until_level_switch, true)
            } else {
                w.time_until_level_switch
            }));
        }
        match self.time_until_level_switch {
            Option::Some((t, next_level)) => {
                if t < 0 {
                    self.time_until_level_switch = Option::None;
                    if next_level {
                        self.level_index = (self.level_index + 1) % n_levels;
                        return LevelAction::Advance;
                    } else {
                        return LevelAction::Reset;
                    }
                }
                LevelAction::Hold
            },
            Option::None => LevelAction::Hold,
        }
    }
}

/// The camera clamp: pulled inside `[half, world - half]`, preferring the
/// lower bound when the world is narrower than the view.
pub open spec fn spec_cam_clamp(v: int, half: int, world: int) -> int {
    let upper = if v <= world - half {
        v
    } else {
        world - half
    };
    if upper >= half {
        upper
    } else {
        half
    }
}

/// The time scale recorded in a level file, in thousandths, defaulting to
/// one.
pub open spec fn spec_level_time_scale(file: Seq<char>) -> int {
    let (names, values) = crate::parser::spec_parser_state(file);
    let k = crate::parser::spec_lookup_idx(names, "timeScale"@, 0, 0);
    if 0 <= k < values.len() {
        crate::parser::spec_parse_fixed(crate::parser::spec_first_field(values[k]))
    } else {
        1000
    }
}

/// The tileset index recorded in a level file: the absolute value of the
/// parsed field, zero when the name is absent.
pub open spec fn spec_level_tileset(file: Seq<char>) -> int {
    let (names, values) = crate::parser::spec_parser_state(file);
    let k = crate::parser::spec_lookup_idx(names, "tileset"@, 0, 0);
    let v = if 0 <= k < values.len() {
        crate::parser::spec_parse_int(crate::parser::spec_first_field(values[k]))
    } else {
        0int
    };
    if v >= 0 {
        v
    } else {
        -v
    }
}

/// The value recorded for a name in a level file, or the default.
pub open spec fn spec_level_value(file: Seq<char>, name: Seq<char>, def: Seq<char>) -> Seq<char> {
    let (names, values) = crate::parser::spec_parser_state(file);
    let k = crate::parser::spec_lookup_idx(names, name, 0, 0);
    if 0 <= k < values.len() {
        values[k]
    } else {
        def
    }
}

/// The layout a level file carries: the `layout` value with doubled line
/// breaks collapsed and the first character dropped.
pub open spec fn spec_level_layout(file: Seq<char>) -> Seq<char> {
    let raw = spec_level_value(file, "layout"@, "P\n\n#"@);
    let collapsed = spec_collapse_newlines(raw);
    if collapsed.len() > 0 {
        collapsed.subrange(1, collapsed.len() as int)
    } else {
        collapsed
    }
}


/// The wall box standing on a wall tile's position.
pub open spec fn spec_wall_box(p: Vec2Fx) -> CollBox {
    CollBox { pos: p, half_dim: Vec2Fx { x: 8000, y: 8000 } }
}

/// The boxes of a wall position list.
pub open spec fn spec_wall_boxes(ps: Seq<Vec2Fx>) -> Seq<CollBox> {
    ps.map_values(|p: Vec2Fx| spec_wall_box(p))
}

/// The player spawned by a scan: a fresh player standing at the last start
/// tile, or at the origin.
pub open spec fn spec_scan_player(scan: BlueprintScan) -> Player {
    Player {
        cbox: CollBox {
            pos: match scan.player_pos {
                Option::Some(p) => p,
                Option::None => Vec2Fx { x: 0, y: 0 },
            },
            half_dim: Vec2Fx { x: 4000, y: 6000 },
        },
        ..crate::player::spec_new_player()
    }
}

impl GameWorld {
    /// Rebuild the level from its blueprint: reset the player to the start
    /// tile, refill every entity container in blueprint order, bucket the
    /// walls into a fresh sector grid sized to the world, order the triggers
    /// so spikes scan last, drop empty sectors, assign every wall its tile
    /// variant and every light its kind, and snap the camera to the player.
    pub fn setup(&mut self)
        requires
            old(self).wf(),
        ensures
            ({
                let scan = spec_blueprint_scan(old(self).level_blueprint@);
                let wboxes = spec_wall_boxes(scan.walls);
                let grid = final(self).wall_man.wall_colliders@;
                &&& final(self).player == spec_scan_player(scan)
                &&& final(self).triggers@ == spec_sort_triggers(scan.triggers)
                &&& final(self).breakable_walls@ == scan.breakable
                &&& final(self).enemies@ == scan.enemies
                &&& final(self).bullets@.len() == 0
                &&& final(self).ghost_blocks.blocks@ == scan.ghost_cells.map_values(
                    |p: Vec2Fx| CollBox { pos: p, half_dim: old(self).ghost_blocks.dim },
                )
                &&& final(self).ghost_blocks.dim == old(self).ghost_blocks.dim
                &&& final(self).ghost_blocks.hit_timer == old(self).ghost_blocks.hit_timer
                &&& final(self).ghost_blocks.anim_time == old(self).ghost_blocks.anim_time
                &&& final(self).ghost_blocks.anim_dir == old(self).ghost_blocks.anim_dir
                &&& final(self).level_exit == (match scan.exit {
                    Option::Some(b) => Option::Some((b, 0i64)),
                    Option::None => Option::<(CollBox, i64)>::None,
                })
                &&& final(self).note == scan.note
                &&& final(self).cam_position.x as int == spec_cam_clamp(
                    final(self).player.cbox.pos.x as int,
                    CAM_W as int,
                    old(self).world_size.x as int,
                )
                &&& final(self).cam_position.y as int == spec_cam_clamp(
                    final(self).player.cbox.pos.y as int,
                    CAM_H as int,
                    old(self).world_size.y as int,
                )
                &&& crate::collision::members_sound(grid, wboxes)
                &&& crate::collision::members_complete(grid, wboxes)
                &&& forall|k: int| 0 <= k < grid.len() ==> (#[trigger] grid[k]).members().len() > 0
                &&& exists|pre: Seq<MultiCollider>|
                    {
                        &&& grid == crate::collision::spec_cull(pre)
                        &&& crate::collision::grid_mains(
                            pre,
                            -8000,
                            -8000,
                            32000,
                            32000,
                            1 + old(self).world_size.x as int / 64000,
                            1 + old(self).world_size.y as int / 64000,
                        )
                        &&& crate::collision::members_sound(pre, wboxes)
                        &&& crate::collision::members_complete(pre, wboxes)
                    }
                &&& final(self).wall_man.wall_sprites@.len() == scan.walls.len()
                &&& forall|i: int|
                    0 <= i < scan.walls.len() ==> #[trigger] final(self).wall_man.wall_sprites@[i]
                        == (
                        scan.walls[i],
                        spec_tile_for(
                            grid,
                            scan.walls[i],
                            Vec2Fx { x: 8500, y: 8500 },
                            Vec2Fx { x: 100, y: 100 },
                            Option::Some(old(self).world_size),
                        ),
                    )
                &&& final(self).lights@.len() == scan.lights.len()
                &&& forall|i: int|
                    0 <= i < scan.lights.len() ==> #[trigger] final(self).lights@[i] == (
                        scan.lights[i],
                        if spec_grid_hit(
                            grid,
                            crate::light_sources::spec_light_probe(scan.lights[i]),
                        ) {
                            'c'
                        } else {
                            'w'
                        },
                    )
                &&& final(self).world_size == old(self).world_size
                &&& final(self).time_speed == old(self).time_speed
                &&& final(self).tileset == old(self).tileset
                &&& final(self).level_index == old(self).level_index
                &&& final(self).level_blueprint == old(self).level_blueprint
                &&& final(self).game_state == old(self).game_state
                &&& final(self).time_until_level_switch == old(self).time_until_level_switch
                &&& final(self).effects == old(self).effects
                &&& final(self).anim_timer == old(self).anim_timer
            }),
            final(self).wf(),
    {
        self.player = Player::new();
        self.lights.clear();
        self.triggers.clear();
        self.breakable_walls.clear();
        self.enemies.clear();
        self.bullets.clear();
        self.ghost_blocks.clear();
        self.level_exit = Option::None;
        self.note = Option::None;

        let nx: u32 = 1 + ((self.world_size.x as u64) / 64000) as u32;
        let ny: u32 = 1 + ((self.world_size.y as u64) / 64000) as u32;
        proof {
            let wsx = old(self).world_size.x as int;
            let wsy = old(self).world_size.y as int;
            assert(1 <= nx <= 1000 && 1 <= ny <= 1000
                && (-8000) + nx as int * 64000 <= 1_000_000_000
                && (-8000) + ny as int * 64000 <= 1_000_000_000) by (nonlinear_arith)
                requires
                    nx as int == 1 + wsx / 64000,
                    ny as int == 1 + wsy / 64000,
                    0 <= wsx <= 60_000_000,
                    0 <= wsy <= 60_000_000,
            ;
        }
        let grid = generate_multi_col_grid(
            Vec2Fx { x: -8000, y: -8000 },
            Vec2Fx { x: 64000, y: 64000 },
            nx,
            ny,
        );
        let ghost init_grid = grid@;
        self.wall_man = WallMan::new(grid, TileTag { tx: 0, ty: 3 });

        let ghost n_bp = self.level_blueprint@.len() as int;
        let mut i: usize = 0;
        proof {
            assert(self.level_blueprint@.subrange(0, 0) =~= Seq::<LevTile>::empty());
            assert(spec_wall_boxes(Seq::<Vec2Fx>::empty()) =~= Seq::<CollBox>::empty());
            assert(Seq::<Vec2Fx>::empty().map_values(
                |p: Vec2Fx| CollBox { pos: p, half_dim: old(self).ghost_blocks.dim },
            ) =~= Seq::<CollBox>::empty());
        }
        while i < self.level_blueprint.len()
            invariant
                0 <= i <= self.level_blueprint@.len(),
                self.level_blueprint == old(self).level_blueprint,
                old(self).wf(),
                ({
                    let scan = spec_blueprint_scan(self.level_blueprint@.subrange(0, i as int));
                    let wboxes = spec_wall_boxes(scan.walls);
                    &&& self.player == spec_scan_player(scan)
                    &&& self.triggers@ == scan.triggers
                    &&& self.breakable_walls@ == scan.breakable
                    &&& self.enemies@ == scan.enemies
                    &&& self.bullets@.len() == 0
                    &&& self.ghost_blocks.blocks@ == scan.ghost_cells.map_values(
                        |p: Vec2Fx| CollBox { pos: p, half_dim: old(self).ghost_blocks.dim },
                    )
                    &&& self.ghost_blocks.dim == old(self).ghost_blocks.dim
                    &&& self.ghost_blocks.hit_timer == old(self).ghost_blocks.hit_timer
                    &&& self.ghost_blocks.anim_time == old(self).ghost_blocks.anim_time
                    &&& self.ghost_blocks.anim_dir == old(self).ghost_blocks.anim_dir
                    &&& self.level_exit == (match scan.exit {
                        Option::Some(b) => Option::Some((b, 0i64)),
                        Option::None => Option::<(CollBox, i64)>::None,
                    })
                    &&& self.note == scan.note
                    &&& crate::collision::members_sound(self.wall_man.wall_colliders@, wboxes)
                    &&& crate::collision::members_complete(self.wall_man.wall_colliders@, wboxes)
                    &&& self.wall_man.wall_sprites@.len() == scan.walls.len()
                    &&& forall|k: int|
                        0 <= k < scan.walls.len() ==> #[trigger] self.wall_man.wall_sprites@[k]
                            == (scan.walls[k], TileTag { tx: 0, ty: 3 })
                    &&& self.lights@.len() == scan.lights.len()
                    &&& forall|k: int|
                        0 <= k < scan.lights.len() ==> #[trigger] self.lights@[k] == (
                            scan.lights[k],
                            'c',
                        )
                }),
                self.wall_man.placeholder == (TileTag { tx: 0, ty: 3 }),
                nx as int == 1 + old(self).world_size.x as int / 64000,
                ny as int == 1 + old(self).world_size.y as int / 64000,
                crate::collision::grid_mains(
                    init_grid,
                    -8000,
                    -8000,
                    32000,
                    32000,
                    nx as int,
                    ny as int,
                ),
                self.wall_man.wall_colliders@.len() == init_grid.len(),
                forall|k: int|
                    0 <= k < init_grid.len() ==> (
                    #[trigger] self.wall_man.wall_colliders@[k]).main == init_grid[k].main,
                self.world_size == old(self).world_size,
                self.time_speed == old(self).time_speed,
                self.tileset == old(self).tileset,
                self.level_index == old(self).level_index,
                self.game_state == old(self).game_state,
                self.time_until_level_switch == old(self).time_until_level_switch,
                self.effects == old(self).effects,
                self.anim_timer == old(self).anim_timer,
                self.cam_position == old(self).cam_position,
                self.load_new_level == old(self).load_new_level,
                self.wall_man.wf(),
                self.player.wf(),
                self.ghost_blocks.wf(),
                forall|k: int| 0 <= k < self.triggers@.len() ==> (#[trigger] self.triggers@[k]).wf(),
                forall|k: int|
                    0 <= k < self.breakable_walls@.len() ==> (
                    #[trigger] self.breakable_walls@[k]).wf(),
                forall|k: int| 0 <= k < self.enemies@.len() ==> (#[trigger] self.enemies@[k]).wf(),
                forall|k: int| 0 <= k < self.lights@.len() ==> (#[trigger] self.lights@[k]).0.wf(),
                match self.level_exit {
                    Option::Some((b, vy)) => b.wf() && -FX_MAX <= vy <= FX_MAX,
                    Option::None => true,
                },
                match self.note {
                    Option::Some(pn) => pn.wf(),
                    Option::None => true,
                },
            decreases self.level_blueprint@.len() - i,
        {
            let ghost pre_bp = self.level_blueprint@.subrange(0, i as int);
            let ghost pre_scan = spec_blueprint_scan(pre_bp);
            let ghost pre_walls = spec_wall_boxes(pre_scan.walls);
            let t = self.level_blueprint[i];
            let ghost pre_grid = self.wall_man.wall_colliders@;
            if t.ty == 'p' {
                self.player.cbox.pos = t.pos;
            } else if t.ty == '#' {
                let wb = CollBox { pos: t.pos, half_dim: Vec2Fx { x: 8000, y: 8000 } };
                self.wall_man.add_wall(wb);
                proof {
                    assert forall|k: int|
                        0 <= k < init_grid.len() implies (
                    #[trigger] self.wall_man.wall_colliders@[k]).main == init_grid[k].main by {
                        assert(self.wall_man.wall_colliders@[k].main == pre_grid[k].main);
                    };
                    let new_walls = pre_scan.walls.push(t.pos);
                    assert(spec_wall_boxes(new_walls) =~= pre_walls.push(wb));
                    assert forall|k: int, j: int|
                        0 <= k < self.wall_man.wall_colliders@.len() && 0 <= j < (
                        #[trigger] self.wall_man.wall_colliders@[k]).members().len() implies
                        spec_wall_boxes(new_walls).contains(
                            #[trigger] self.wall_man.wall_colliders@[k].members()[j],
                        ) by {
                        let ms = self.wall_man.wall_colliders@[k].members();
                        let oms = pre_grid[k].members();
                        if pre_walls.contains(ms[j]) {
                            let w0 = choose|w0: int|
                                0 <= w0 < pre_walls.len() && pre_walls[w0] == ms[j];
                            assert(spec_wall_boxes(new_walls)[w0] == ms[j]);
                        } else {
                            assert(ms[j] == wb);
                            assert(spec_wall_boxes(new_walls)[new_walls.len() - 1] == wb);
                        }
                    };
                    assert forall|k: int, w: int|
                        0 <= k < self.wall_man.wall_colliders@.len() && 0 <= w < spec_wall_boxes(
                            new_walls,
                        ).len() && boxes_intersect(
                            #[trigger] spec_wall_boxes(new_walls)[w],
                            (#[trigger] self.wall_man.wall_colliders@[k]).main,
                        ) implies self.wall_man.wall_colliders@[k].members().contains(
                        spec_wall_boxes(new_walls)[w],
                    ) by {
                        let ms = self.wall_man.wall_colliders@[k].members();
                        let oms = pre_grid[k].members();
                        if w < pre_walls.len() {
                            assert(spec_wall_boxes(new_walls)[w] == pre_walls[w]);
                            assert(oms.contains(pre_walls[w]));
                            let j0 = choose|j0: int| 0 <= j0 < oms.len() && oms[j0] == pre_walls[w];
                            assert(ms[j0] == pre_walls[w]);
                        } else {
                            assert(spec_wall_boxes(new_walls)[w] == wb);
                            assert(ms[ms.len() - 1] == wb);
                        }
                    };
                }
            } else if t.ty == 'E' {
                self.enemies.push(new_angry_ghost(t.pos));
            } else if t.ty == 'T' {
                self.enemies.push(new_turret(t.pos));
            } else if t.ty == 'S' {
                self.enemies.push(new_stalker(t.pos));
            } else if t.ty == 'l' {
                self.lights.push((t.pos, 'c'));
            } else if t.ty == 'g' {
                self.ghost_blocks.add(t.pos);
            } else if t.ty == '^' {
                self.triggers.push(
                    Trigger {
                        coll: CollBox { pos: t.pos, half_dim: Vec2Fx { x: 7000, y: 7000 } },
                        trigger_type: TriggerType::Trap(0),
                    },
                );
            } else if t.ty == 'f' {
                self.triggers.push(
                    Trigger {
                        coll: CollBox { pos: t.pos, half_dim: Vec2Fx { x: 23000, y: 23000 } },
                        trigger_type: TriggerType::FlyBox,
                    },
                );
            } else if t.ty == '*' {
                self.triggers.push(
                    Trigger {
                        coll: CollBox { pos: t.pos, half_dim: Vec2Fx { x: 6000, y: 6000 } },
                        trigger_type: TriggerType::Spikes,
                    },
                );
            } else if t.ty == '/' {
                self.breakable_walls.push(
                    CollBox { pos: t.pos, half_dim: Vec2Fx { x: 8000, y: 8000 } },
                );
            } else if t.ty == 'X' {
                let eb = CollBox {
                    pos: Vec2Fx { x: t.pos.x, y: fx_add(t.pos.y, 4000) },
                    half_dim: Vec2Fx { x: 4000, y: 4000 },
                };
                self.level_exit = Option::Some((eb, 0));
            } else if t.ty == 'N' {
                self.note = Option::Some(t.pos);
            }
            i += 1;
            proof {
                assert(self.level_blueprint@.subrange(0, i as int).drop_last() =~= pre_bp);
                assert(self.level_blueprint@.subrange(0, i as int).last() == t);
                let scan2 = spec_blueprint_scan(self.level_blueprint@.subrange(0, i as int));
                if t.ty == 'g' {
                    assert(scan2.ghost_cells.map_values(
                        |p: Vec2Fx| CollBox { pos: p, half_dim: old(self).ghost_blocks.dim },
                    ) =~= pre_scan.ghost_cells.map_values(
                        |p: Vec2Fx| CollBox { pos: p, half_dim: old(self).ghost_blocks.dim },
                    ).push(CollBox { pos: t.pos, half_dim: old(self).ghost_blocks.dim }));
                }
            }
        }
        proof {
            assert(self.level_blueprint@.subrange(0, n_bp) =~= self.level_blueprint@);
        }

        self.cam_position = self.player.cbox.pos;
        self.constrain_cam();
        self.sort_triggers();
        let ghost pre_cull = self.wall_man.wall_colliders@;
        proof {
            assert forall|ix: int, iy: int|
                0 <= ix < nx as int && 0 <= iy < ny as int implies (#[trigger] pre_cull[ix * (
            ny as int) + iy]).main == crate::collision::cell_main(
                -8000,
                -8000,
                32000,
                32000,
                ix,
                iy,
            ) by {
                crate::collision::lemma_cell_index_bounds(ix, iy, nx as int, ny as int);
                assert(init_grid[ix * (ny as int) + iy].main == crate::collision::cell_main(
                    -8000,
                    -8000,
                    32000,
                    32000,
                    ix,
                    iy,
                ));
            };
            assert(crate::collision::grid_mains(
                pre_cull,
                -8000,
                -8000,
                32000,
                32000,
                nx as int,
                ny as int,
            ));
        }
        self.wall_man.cull();
        proof {
            let scan = spec_blueprint_scan(old(self).level_blueprint@);
            crate::collision::lemma_cull_members(pre_cull, spec_wall_boxes(scan.walls));
            crate::collision::lemma_cull_nonempty(pre_cull);
            assert(self.wall_man.wall_colliders@ == crate::collision::spec_cull(pre_cull)
                && crate::collision::grid_mains(
                pre_cull,
                -8000,
                -8000,
                32000,
                32000,
                1 + old(self).world_size.x as int / 64000,
                1 + old(self).world_size.y as int / 64000,
            ) && crate::collision::members_sound(pre_cull, spec_wall_boxes(scan.walls))
                && crate::collision::members_complete(pre_cull, spec_wall_boxes(scan.walls)));
        }
        self.wall_man.assign_tile_types(
            Vec2Fx { x: 8500, y: 8500 },
            Vec2Fx { x: 100, y: 100 },
            Option::Some(self.world_size),
        );
        self.assign_all_lights();
    }

    /// Stable-partition the triggers: fly zones first, traps next, spikes
    /// last.
    fn sort_triggers(&mut self)
        requires
            old(self).wf(),
        ensures
            *final(self) == (GameWorld { triggers: final(self).triggers, ..*old(self) }),
            final(self).triggers@ == spec_sort_triggers(old(self).triggers@),
            final(self).wf(),
    {
        let mut out: Vec<Trigger> = Vec::new();
        let n = self.triggers.len();
        proof {
            reveal(Seq::filter);
            assert(self.triggers@.subrange(0, 0) =~= Seq::<Trigger>::empty());
        }
        let mut i: usize = 0;
        while i < n
            invariant
                0 <= i <= n,
                n == self.triggers@.len(),
                forall|k: int| 0 <= k < self.triggers@.len() ==> (#[trigger] self.triggers@[k]).wf(),
                out@ == self.triggers@.subrange(0, i as int).filter(
                    |t: Trigger| t.trigger_type is FlyBox,
                ),
            decreases n - i,
        {
            let ghost pre = self.triggers@.subrange(0, i as int);
            let t = self.triggers[i];
            if matches!(t.trigger_type, TriggerType::FlyBox) {
                out.push(t);
            }
            i += 1;
            proof {
                reveal(Seq::filter);
                assert(self.triggers@.subrange(0, i as int).drop_last() =~= pre);
                assert(self.triggers@.subrange(0, i as int).last() == t);
            }
        }
        let mut i2: usize = 0;
        let ghost fly_part = out@;
        while i2 < n
            invariant
                0 <= i2 <= n,
                n == self.triggers@.len(),
                forall|k: int| 0 <= k < self.triggers@.len() ==> (#[trigger] self.triggers@[k]).wf(),
                out@ == fly_part + self.triggers@.subrange(0, i2 as int).filter(
                    |t: Trigger| t.trigger_type is Trap,
                ),
            decreases n - i2,
        {
            let ghost pre = self.triggers@.subrange(0, i2 as int);
            let t = self.triggers[i2];
            if matches!(t.trigger_type, TriggerType::Trap(_)) {
                out.push(t);
            }
            i2 += 1;
            proof {
                reveal(Seq::filter);
                assert(self.triggers@.subrange(0, i2 as int).drop_last() =~= pre);
                assert(self.triggers@.subrange(0, i2 as int).last() == t);
            }
        }
        let mut i3: usize = 0;
        let ghost fly_trap_part = out@;
        while i3 < n
            invariant
                0 <= i3 <= n,
                n == self.triggers@.len(),
                forall|k: int| 0 <= k < self.triggers@.len() ==> (#[trigger] self.triggers@[k]).wf(),
                out@ == fly_trap_part + self.triggers@.subrange(0, i3 as int).filter(
                    |t: Trigger| t.trigger_type is Spikes,
                ),
            decreases n - i3,
        {
            let ghost pre = self.triggers@.subrange(0, i3 as int);
            let t = self.triggers[i3];
            if matches!(t.trigger_type, TriggerType::Spikes) {
                out.push(t);
            }
            i3 += 1;
            proof {
                reveal(Seq::filter);
                assert(self.triggers@.subrange(0, i3 as int).drop_last() =~= pre);
                assert(self.triggers@.subrange(0, i3 as int).last() == t);
            }
        }
        proof {
            assert(self.triggers@.subrange(0, n as int) =~= self.triggers@);
            lemma_filter_triggers_wf(self.triggers@, |t: Trigger| t.trigger_type is FlyBox);
            lemma_filter_triggers_wf(self.triggers@, |t: Trigger| t.trigger_type is Trap);
            lemma_filter_triggers_wf(self.triggers@, |t: Trigger| t.trigger_type is Spikes);
        }
        self.triggers = out;
    }

    /// Recompute each light's kind from the wall grid.
    fn assign_all_lights(&mut self)
        requires
            old(self).wf(),
        ensures
            *final(self) == (GameWorld { lights: final(self).lights, ..*old(self) }),
            final(self).lights@.len() == old(self).lights@.len(),
            forall|i: int|
                0 <= i < old(self).lights@.len() ==> #[trigger] final(self).lights@[i] == (
                    old(self).lights@[i].0,
                    if spec_grid_hit(
                        old(self).wall_man.wall_colliders@,
                        crate::light_sources::spec_light_probe(old(self).lights@[i].0),
                    ) {
                        'c'
                    } else {
                        'w'
                    },
                ),
            final(self).wf(),
    {
        let mut i: usize = 0;
        while i < self.lights.len()
            invariant
                0 <= i <= self.lights@.len(),
                self.lights@.len() == old(self).lights@.len(),
                *self == (GameWorld { lights: self.lights, ..*old(self) }),
                old(self).wf(),
                forall|k: int| i <= k < self.lights@.len() ==> self.lights@[k] == old(self).lights@[k],
                forall|k: int|
                    0 <= k < i ==> #[trigger] self.lights@[k] == (
                        old(self).lights@[k].0,
                        if spec_grid_hit(
                            old(self).wall_man.wall_colliders@,
                            crate::light_sources::spec_light_probe(old(self).lights@[k].0),
                        ) {
                            'c'
                        } else {
                            'w'
                        },
                    ),
            decreases self.lights@.len() - i,
        {
            let pos = self.lights[i].0;
            let c = crate::light_sources::assign_light_type(
                pos,
                self.wall_man.wall_colliders.as_slice(),
            );
            self.lights[i] = (pos, c);
            i += 1;
        }
    }
}


/// Filtering a list of valid triggers leaves only valid triggers.
proof fn lemma_filter_triggers_wf(s: Seq<Trigger>, pred: spec_fn(Trigger) -> bool)
    requires
        forall|i: int| 0 <= i < s.len() ==> (#[trigger] s[i]).wf(),
    ensures
        forall|i: int| 0 <= i < s.filter(pred).len() ==> (#[trigger] s.filter(pred)[i]).wf(),
    decreases s.len(),
{
    reveal(Seq::filter);
    if s.len() > 0 {
        lemma_filter_triggers_wf(s.drop_last(), pred);
        let out = s.filter(pred);
        let sub = s.drop_last().filter(pred);
        assert forall|i: int| 0 <= i < out.len() implies (#[trigger] out[i]).wf() by {
            if pred(s.last()) {
                if i < out.len() - 1 {
                    assert(out[i] == sub[i]);
                } else {
                    assert(out[i] == s.last());
                }
            } else {
                assert(out[i] == sub[i]);
            }
        };
    }
}


/// A bullet advanced by its motion.
pub open spec fn spec_bullet_moved(b: Bullet, dt: int) -> Bullet {
    Bullet {
        coll: CollCircle {
            pos: Vec2Fx {
                x: spec_fx_add(b.coll.pos.x as int, spec_fx_mul(b.motion.x as int, dt)) as i64,
                y: spec_fx_add(b.coll.pos.y as int, spec_fx_mul(b.motion.y as int, dt)) as i64,
            },
            radius: b.coll.radius,
        },
        ..b
    }
}

/// A bullet's lifetime ticked down, and whether it expired.
pub open spec fn spec_bullet_life_tick(b: Bullet, dt: int) -> (Bullet, bool) {
    match b.life_time {
        Option::Some(lt) => (
            Bullet { life_time: Option::Some(crate::fx::fx_sat(lt - dt) as i64), ..b },
            crate::fx::fx_sat(lt - dt) < 0,
        ),
        Option::None => (b, false),
    }
}

/// The burst emitted where a bullet strikes a wall.
pub open spec fn spec_impact_burst(b: Bullet) -> ParticleRequest {
    ParticleRequest {
        count: 4,
        from: b.coll.pos,
        from_rad: 1000,
        to: Vec2Fx {
            x: spec_fx_add(b.coll.pos.x as int, -spec_fx_mul(b.motion.x as int, 100)) as i64,
            y: spec_fx_add(b.coll.pos.y as int, -spec_fx_mul(b.motion.y as int, 100)) as i64,
        },
        to_rad: 5000,
        lifetime: 1000,
        color_fade: 1,
        renderer: ParticleKind::Circle,
    }
}

/// The burst emitted where a breakable wall shatters.
pub open spec fn spec_break_burst(pos: Vec2Fx) -> ParticleRequest {
    ParticleRequest {
        count: 15,
        from: pos,
        from_rad: 8000,
        to: Vec2Fx { x: pos.x, y: spec_fx_add(pos.y as int, -16000) as i64 },
        to_rad: 16000,
        lifetime: 1000,
        color_fade: 2,
        renderer: ParticleKind::Dust,
    }
}

/// A bullet overlaps some solid ghost block.
pub open spec fn spec_bullet_hits_blocks(b: Bullet, blocks: Seq<CollBox>) -> bool {
    exists|j: int| 0 <= j < blocks.len() && circle_box_intersect(b.coll, #[trigger] blocks[j])
}

/// The enemy pass, walked from index `i` down to zero: each enemy is
/// scanned against the triggers (dying on spikes, boosted in fly zones,
/// noting traps), behaves for one frame, and is removed if it died; the
/// last component reports whether any enemy stood in a trap.
pub open spec fn spec_enemy_pass(
    enemies: Seq<Enemy>,
    triggers: Seq<Trigger>,
    bullets: Seq<Bullet>,
    effects: Seq<ParticleRequest>,
    pbox: CollBox,
    p_trap: bool,
    sdt: int,
    i: int,
) -> (Seq<Enemy>, Seq<Trigger>, Seq<Bullet>, Seq<ParticleRequest>, bool)
    decreases i + 1,
{
    if i < 0 || i >= enemies.len() {
        (enemies, triggers, bullets, effects, false)
    } else {
        let ebox = enemies[i].cbox;
        let fly = crate::staticobj::spec_scan_fly(triggers, ebox);
        let spikes = crate::staticobj::spec_scan_spikes(triggers, ebox);
        let trap = crate::staticobj::spec_scan_trap(triggers, ebox);
        let triggers2 = crate::staticobj::spec_triggers_touched(triggers, ebox);
        let effects2 = if spikes {
            effects.push(spec_enemy_death_burst(ebox.pos))
        } else {
            effects
        };
        let stepped = spec_enemy_update(enemies[i], pbox, fly, p_trap, sdt);
        let bullets2 = match stepped.1 {
            Option::Some(sb) => bullets.push(sb),
            Option::None => bullets,
        };
        let enemies2 = enemies.update(i, stepped.0);
        let enemies3 = if spikes {
            enemies2.remove(i)
        } else {
            enemies2
        };
        let rec = spec_enemy_pass(enemies3, triggers2, bullets2, effects2, pbox, p_trap, sdt, i - 1);
        (rec.0, rec.1, rec.2, rec.3, rec.4 || trap)
    }
}

/// The bullet pass, walked from index `i` down to zero: each bullet moves,
/// bursts and disappears on walls or solid ghost blocks, and otherwise
/// ticks its lifetime away.
pub open spec fn spec_bullet_pass(
    bullets: Seq<Bullet>,
    effects: Seq<ParticleRequest>,
    walls: Seq<MultiCollider>,
    blocks: Seq<CollBox>,
    solid: bool,
    dt: int,
    i: int,
) -> (Seq<Bullet>, Seq<ParticleRequest>)
    decreases i + 1,
{
    if i < 0 || i >= bullets.len() {
        (bullets, effects)
    } else {
        let b2 = spec_bullet_moved(bullets[i], dt);
        let hit = spec_grid_hit(
            walls,
            CollBox {
                pos: b2.coll.pos,
                half_dim: Vec2Fx { x: b2.coll.radius, y: b2.coll.radius },
            },
        ) || (solid && spec_bullet_hits_blocks(b2, blocks));
        if hit {
            spec_bullet_pass(
                bullets.update(i, b2).remove(i),
                effects.push(spec_impact_burst(b2)),
                walls,
                blocks,
                solid,
                dt,
                i - 1,
            )
        } else {
            let ticked = spec_bullet_life_tick(b2, dt);
            let bullets2 = bullets.update(i, ticked.0);
            let bullets3 = if ticked.1 {
                bullets2.remove(i)
            } else {
                bullets2
            };
            spec_bullet_pass(bullets3, effects, walls, blocks, solid, dt, i - 1)
        }
    }
}

/// One enemy's sweep over the bullets, from index `j` down: every bullet
/// overlapping the enemy box is removed, and the flag says whether any was.
pub open spec fn spec_shot_scan(bullets: Seq<Bullet>, ebox: CollBox, j: int) -> (Seq<Bullet>, bool)
    decreases j + 1,
{
    if j < 0 || j >= bullets.len() {
        (bullets, false)
    } else {
        if circle_box_intersect(bullets[j].coll, ebox) {
            let rec = spec_shot_scan(bullets.remove(j), ebox, j - 1);
            (rec.0, true)
        } else {
            spec_shot_scan(bullets, ebox, j - 1)
        }
    }
}

/// The enemy-versus-bullet pass, from enemy index `e` down: each enemy open
/// to friendly fire trades itself for every bullet that strikes it.
pub open spec fn spec_enemy_bullet_pass(enemies: Seq<Enemy>, bullets: Seq<Bullet>, e: int) -> (
    Seq<Enemy>,
    Seq<Bullet>,
)
    decreases e + 1,
{
    if e < 0 || e >= enemies.len() {
        (enemies, bullets)
    } else {
        if enemies[e].enemy_type is AngryGhosts {
            let scan = spec_shot_scan(bullets, enemies[e].cbox, bullets.len() - 1);
            let enemies2 = if scan.1 {
                enemies.remove(e)
            } else {
                enemies
            };
            spec_enemy_bullet_pass(enemies2, scan.0, e - 1)
        } else {
            spec_enemy_bullet_pass(enemies, bullets, e - 1)
        }
    }
}

/// The breakable-wall pass, from index `i` down: a wall struck by any
/// bullet shatters into dust.
pub open spec fn spec_breakable_pass(
    breakable: Seq<CollBox>,
    bullets: Seq<Bullet>,
    effects: Seq<ParticleRequest>,
    i: int,
) -> (Seq<CollBox>, Seq<ParticleRequest>)
    decreases i + 1,
{
    if i < 0 || i >= breakable.len() {
        (breakable, effects)
    } else {
        let destroyed = exists|j: int|
            0 <= j < bullets.len() && circle_box_intersect(
                (#[trigger] bullets[j]).coll,
                breakable[i],
            );
        if destroyed {
            spec_breakable_pass(
                breakable.remove(i),
                bullets,
                effects.push(spec_break_burst(breakable[i].pos)),
                i - 1,
            )
        } else {
            spec_breakable_pass(breakable, bullets, effects, i - 1)
        }
    }
}

/// A circle overlaps some box of the slice.
fn circle_hits_any(c: &CollCircle, boxes: &[CollBox]) -> (r: bool)
    requires
        c.wf(),
        forall|i: int| 0 <= i < boxes@.len() ==> (#[trigger] boxes@[i]).wf(),
    ensures
        r == exists|i: int| 0 <= i < boxes@.len() && circle_box_intersect(*c, #[trigger] boxes@[i]),
{
    let mut i: usize = 0;
    while i < boxes.len()
        invariant
            0 <= i <= boxes@.len(),
            c.wf(),
            forall|k: int| 0 <= k < boxes@.len() ==> (#[trigger] boxes@[k]).wf(),
            forall|k: int| 0 <= k < i ==> !circle_box_intersect(*c, #[trigger] boxes@[k]),
        decreases boxes@.len() - i,
    {
        if check_circle_box_intersection(c, &boxes[i]) {
            return true;
        }
        i += 1;
    }
    false
}


impl GameWorld {
    /// Run every enemy for one frame, in reverse order, against the triggers
    /// and the player; report whether any enemy stood in a trap.
    #[verifier::rlimit(100)]
    fn enemy_phase(&mut self, player_in_trap: bool, sdt: i64) -> (nm: bool)
        requires
            old(self).wf(),
            0 <= sdt <= 1000,
        ensures
            ({
                let r = spec_enemy_pass(
                    old(self).enemies@,
                    old(self).triggers@,
                    old(self).bullets@,
                    old(self).effects@,
                    old(self).player.cbox,
                    player_in_trap,
                    sdt as int,
                    old(self).enemies@.len() - 1,
                );
                &&& final(self).enemies@ == r.0
                &&& final(self).triggers@ == r.1
                &&& final(self).bullets@ == r.2
                &&& final(self).effects@ == r.3
                &&& nm == r.4
            }),
            *final(self) == (GameWorld {
                enemies: final(self).enemies,
                triggers: final(self).triggers,
                bullets: final(self).bullets,
                effects: final(self).effects,
                ..*old(self)
            }),
            final(self).wf(),
    {
        let ghost e0 = self.enemies@;
        let ghost t0 = self.triggers@;
        let ghost b0 = self.bullets@;
        let ghost f0 = self.effects@;
        let ghost pbox = self.player.cbox;
        let ghost hi = self.enemies@.len() as int - 1;
        let mut nm = false;
        let mut i: usize = self.enemies.len();
        while i > 0
            invariant
                0 <= i <= self.enemies@.len(),
                old(self).wf(),
                0 <= sdt <= 1000,
                pbox == old(self).player.cbox,
                *self == (GameWorld {
                    enemies: self.enemies,
                    triggers: self.triggers,
                    bullets: self.bullets,
                    effects: self.effects,
                    ..*old(self)
                }),
                forall|k: int| 0 <= k < self.enemies@.len() ==> (#[trigger] self.enemies@[k]).wf(),
                forall|k: int| 0 <= k < self.triggers@.len() ==> (#[trigger] self.triggers@[k]).wf(),
                forall|k: int| 0 <= k < self.bullets@.len() ==> (#[trigger] self.bullets@[k]).wf(),
                spec_enemy_pass(e0, t0, b0, f0, pbox, player_in_trap, sdt as int, hi) == ({
                    let r = spec_enemy_pass(
                        self.enemies@,
                        self.triggers@,
                        self.bullets@,
                        self.effects@,
                        pbox,
                        player_in_trap,
                        sdt as int,
                        i as int - 1,
                    );
                    (r.0, r.1, r.2, r.3, r.4 || nm)
                }),
            decreases i,
        {
            i -= 1;
            let ghost pre_e = self.enemies@;
            let ghost pre_t = self.triggers@;
            let ghost pre_b = self.bullets@;
            let ghost pre_f = self.effects@;
            let ghost pre_nm = nm;
            let ebox = self.enemies[i].cbox;
            let scan = Trigger::coll_check(&mut self.triggers, &ebox);
            if scan.spikes {
                create_enemy_death_particals(&mut self.effects, ebox.pos);
            }
            let pb = self.player.cbox;
            proof {
                assert(pb == pbox);
            }
            let em = &mut self.enemies[i];
            em.update(&pb, &mut self.bullets, scan.fly, player_in_trap, sdt);
            if scan.spikes {
                self.enemies.remove(i);
            }
            nm = nm || scan.trap;
            proof {
                let r_pre = spec_enemy_pass(
                    pre_e,
                    pre_t,
                    pre_b,
                    pre_f,
                    pbox,
                    player_in_trap,
                    sdt as int,
                    i as int,
                );
                let r_now = spec_enemy_pass(
                    self.enemies@,
                    self.triggers@,
                    self.bullets@,
                    self.effects@,
                    pbox,
                    player_in_trap,
                    sdt as int,
                    i as int - 1,
                );
                assert((r_pre.0, r_pre.1, r_pre.2, r_pre.3, r_pre.4) == (
                    r_now.0,
                    r_now.1,
                    r_now.2,
                    r_now.3,
                    r_now.4 || crate::staticobj::spec_scan_trap(pre_t, pre_e[i as int].cbox),
                ));
            }
        }
        nm
    }

    /// Move every bullet, in reverse order: wall or solid-block strikes burst
    /// and remove it, and spent lifetimes expire it.
    #[verifier::rlimit(100)]
    fn bullet_phase(&mut self, dt: i64)
        requires
            old(self).wf(),
            0 <= dt <= 1000,
        ensures
            ({
                let solid = spec_block_effect(
                    old(self).ghost_blocks.anim_time as int,
                    old(self).ghost_blocks.anim_dir as int,
                ) == GhostBlockEffect::Collide;
                let r = spec_bullet_pass(
                    old(self).bullets@,
                    old(self).effects@,
                    old(self).wall_man.wall_colliders@,
                    old(self).ghost_blocks.blocks@,
                    solid,
                    dt as int,
                    old(self).bullets@.len() - 1,
                );
                &&& final(self).bullets@ == r.0
                &&& final(self).effects@ == r.1
            }),
            *final(self) == (GameWorld {
                bullets: final(self).bullets,
                effects: final(self).effects,
                ..*old(self)
            }),
            final(self).wf(),
    {
        let ghost b0 = self.bullets@;
        let ghost f0 = self.effects@;
        let ghost hi = self.bullets@.len() as int - 1;
        let solid = {
            let e = self.ghost_blocks.get_block_effect();
            matches!(e, GhostBlockEffect::Collide)
        };
        let mut i: usize = self.bullets.len();
        while i > 0
            invariant
                0 <= i <= self.bullets@.len(),
                old(self).wf(),
                0 <= dt <= 1000,
                solid == (spec_block_effect(
                    old(self).ghost_blocks.anim_time as int,
                    old(self).ghost_blocks.anim_dir as int,
                ) == GhostBlockEffect::Collide),
                *self == (GameWorld {
                    bullets: self.bullets,
                    effects: self.effects,
                    ..*old(self)
                }),
                forall|k: int| 0 <= k < self.bullets@.len() ==> (#[trigger] self.bullets@[k]).wf(),
                spec_bullet_pass(
                    b0,
                    f0,
                    old(self).wall_man.wall_colliders@,
                    old(self).ghost_blocks.blocks@,
                    solid,
                    dt as int,
                    hi,
                ) == spec_bullet_pass(
                    self.bullets@,
                    self.effects@,
                    old(self).wall_man.wall_colliders@,
                    old(self).ghost_blocks.blocks@,
                    solid,
                    dt as int,
                    i as int - 1,
                ),
            decreases i,
        {
            i -= 1;
            let ghost pre_b = self.bullets@;
            let ghost pre_f = self.effects@;
            {
                let bm = &mut self.bullets[i];
                bm.update(dt);
            }
            let bb = self.bullets[i];
            proof {
                assert(bb == spec_bullet_moved(pre_b[i as int], dt as int));
                assert(self.bullets@ =~= pre_b.update(
                    i as int,
                    spec_bullet_moved(pre_b[i as int], dt as int),
                ));
            }
            let bbox = CollBox {
                pos: bb.coll.pos,
                half_dim: Vec2Fx { x: bb.coll.radius, y: bb.coll.radius },
            };
            let wall_hit = MultiCollider::check_intersection_slice(
                self.wall_man.wall_colliders.as_slice(),
                &bbox,
            );
            let block_hit = solid && circle_hits_any(
                &bb.coll,
                self.ghost_blocks.get_block_slice(),
            );
            if wall_hit || block_hit {
                self.effects.push(
                    ParticleRequest {
                        count: 4,
                        from: bb.coll.pos,
                        from_rad: 1000,
                        to: Vec2Fx {
                            x: fx_sub(bb.coll.pos.x, fx_mul(bb.motion.x, 100)),
                            y: fx_sub(bb.coll.pos.y, fx_mul(bb.motion.y, 100)),
                        },
                        to_rad: 5000,
                        lifetime: 1000,
                        color_fade: 1,
                        renderer: ParticleKind::Circle,
                    },
                );
                self.bullets.remove(i);
                proof {
                    let b2 = spec_bullet_moved(pre_b[i as int], dt as int);
                    assert(self.bullets@ =~= pre_b.update(i as int, b2).remove(i as int));
                }
            } else {
                let expired = {
                    let bm = &mut self.bullets[i];
                    bm.life_time_update(dt)
                };
                proof {
                    let b2 = spec_bullet_moved(pre_b[i as int], dt as int);
                    let ticked = spec_bullet_life_tick(b2, dt as int);
                    assert(self.bullets@ =~= pre_b.update(i as int, ticked.0));
                }
                if expired {
                    self.bullets.remove(i);
                }
            }
            proof {
                assert(spec_bullet_pass(
                    pre_b,
                    pre_f,
                    old(self).wall_man.wall_colliders@,
                    old(self).ghost_blocks.blocks@,
                    solid,
                    dt as int,
                    i as int,
                ) == spec_bullet_pass(
                    self.bullets@,
                    self.effects@,
                    old(self).wall_man.wall_colliders@,
                    old(self).ghost_blocks.blocks@,
                    solid,
                    dt as int,
                    i as int - 1,
                ));
            }
        }
    }

    /// Resolve friendly-fire enemies against the bullets, in reverse order.
    #[verifier::rlimit(100)]
    fn enemy_bullet_phase(&mut self)
        requires
            old(self).wf(),
        ensures
            ({
                let r = spec_enemy_bullet_pass(
                    old(self).enemies@,
                    old(self).bullets@,
                    old(self).enemies@.len() - 1,
                );
                &&& final(self).enemies@ == r.0
                &&& final(self).bullets@ == r.1
            }),
            *final(self) == (GameWorld {
                enemies: final(self).enemies,
                bullets: final(self).bullets,
                ..*old(self)
            }),
            final(self).wf(),
    {
        let ghost e0 = self.enemies@;
        let ghost b0 = self.bullets@;
        let ghost hi = self.enemies@.len() as int - 1;
        let mut e: usize = self.enemies.len();
        while e > 0
            invariant
                0 <= e <= self.enemies@.len(),
                old(self).wf(),
                *self == (GameWorld {
                    enemies: self.enemies,
                    bullets: self.bullets,
                    ..*old(self)
                }),
                forall|k: int| 0 <= k < self.enemies@.len() ==> (#[trigger] self.enemies@[k]).wf(),
                forall|k: int| 0 <= k < self.bullets@.len() ==> (#[trigger] self.bullets@[k]).wf(),
                spec_enemy_bullet_pass(e0, b0, hi) == spec_enemy_bullet_pass(
                    self.enemies@,
                    self.bullets@,
                    e as int - 1,
                ),
            decreases e,
        {
            e -= 1;
            let ghost pre_e = self.enemies@;
            let ghost pre_b = self.bullets@;
            if self.enemies[e].get_friendly_fire() {
                let ebox = self.enemies[e].cbox;
                let mut remove_enemy = false;
                let ghost ib0 = self.bullets@;
                let mut b: usize = self.bullets.len();
                while b > 0
                    invariant
                        0 <= b <= self.bullets@.len(),
                        ebox.wf(),
                        e < self.enemies@.len(),
                        self.enemies@ == pre_e,
                        ebox == pre_e[e as int].cbox,
                        *self == (GameWorld {
                            enemies: self.enemies,
                            bullets: self.bullets,
                            ..*old(self)
                        }),
                        forall|k: int|
                            0 <= k < self.enemies@.len() ==> (#[trigger] self.enemies@[k]).wf(),
                        forall|k: int|
                            0 <= k < self.bullets@.len() ==> (#[trigger] self.bullets@[k]).wf(),
                        spec_shot_scan(ib0, ebox, ib0.len() - 1) == ({
                            let r = spec_shot_scan(self.bullets@, ebox, b as int - 1);
                            (r.0, r.1 || remove_enemy)
                        }),
                    decreases b,
                {
                    b -= 1;
                    let ghost ipre_b = self.bullets@;
                    let ghost ipre_r = remove_enemy;
                    if check_circle_box_intersection(&self.bullets[b].coll, &ebox) {
                        remove_enemy = true;
                        self.bullets.remove(b);
                    }
                    proof {
                        let r_pre = spec_shot_scan(ipre_b, ebox, b as int);
                        let r_now = spec_shot_scan(self.bullets@, ebox, b as int - 1);
                        assert(r_pre == (
                            r_now.0,
                            r_now.1 || circle_box_intersect(ipre_b[b as int].coll, ebox),
                        ));
                    }
                }
                if remove_enemy {
                    self.enemies.remove(e);
                }
            }
            proof {
                assert(spec_enemy_bullet_pass(pre_e, pre_b, e as int) == spec_enemy_bullet_pass(
                    self.enemies@,
                    self.bullets@,
                    e as int - 1,
                ));
            }
        }
    }

    /// Shatter every breakable wall a bullet stands in, in reverse order.
    #[verifier::rlimit(100)]
    fn breakable_phase(&mut self)
        requires
            old(self).wf(),
        ensures
            ({
                let r = spec_breakable_pass(
                    old(self).breakable_walls@,
                    old(self).bullets@,
                    old(self).effects@,
                    old(self).breakable_walls@.len() - 1,
                );
                &&& final(self).breakable_walls@ == r.0
                &&& final(self).effects@ == r.1
            }),
            *final(self) == (GameWorld {
                breakable_walls: final(self).breakable_walls,
                effects: final(self).effects,
                ..*old(self)
            }),
            final(self).wf(),
    {
        let ghost br0 = self.breakable_walls@;
        let ghost f0 = self.effects@;
        let ghost hi = self.breakable_walls@.len() as int - 1;
        let mut i: usize = self.breakable_walls.len();
        while i > 0
            invariant
                0 <= i <= self.breakable_walls@.len(),
                old(self).wf(),
                *self == (GameWorld {
                    breakable_walls: self.breakable_walls,
                    effects: self.effects,
                    ..*old(self)
                }),
                forall|k: int|
                    0 <= k < self.breakable_walls@.len() ==> (
                    #[trigger] self.breakable_walls@[k]).wf(),
                spec_breakable_pass(br0, b0_bullets(*old(self)), f0, hi) == spec_breakable_pass(
                    self.breakable_walls@,
                    b0_bullets(*old(self)),
                    self.effects@,
                    i as int - 1,
                ),
            decreases i,
        {
            i -= 1;
            let ghost pre_br = self.breakable_walls@;
            let ghost pre_f = self.effects@;
            let brbox = self.breakable_walls[i];
            let mut destroyed = false;
            let mut j: usize = 0;
            while j < self.bullets.len()
                invariant
                    0 <= j <= self.bullets@.len(),
                    brbox.wf(),
                    forall|k: int|
                        0 <= k < self.bullets@.len() ==> (#[trigger] self.bullets@[k]).wf(),
                    destroyed == exists|k: int|
                        0 <= k < j && circle_box_intersect(
                            (#[trigger] self.bullets@[k]).coll,
                            brbox,
                        ),
                decreases self.bullets@.len() - j,
            {
                if check_circle_box_intersection(&self.bullets[j].coll, &brbox) {
                    destroyed = true;
                }
                j += 1;
            }
            if destroyed {
                self.effects.push(
                    ParticleRequest {
                        count: 15,
                        from: brbox.pos,
                        from_rad: 8000,
                        to: Vec2Fx { x: brbox.pos.x, y: fx_sub(brbox.pos.y, 16000) },
                        to_rad: 16000,
                        lifetime: 1000,
                        color_fade: 2,
                        renderer: ParticleKind::Dust,
                    },
                );
                self.breakable_walls.remove(i);
            }
            proof {
                assert(spec_breakable_pass(pre_br, b0_bullets(*old(self)), pre_f, i as int)
                    == spec_breakable_pass(
                    self.breakable_walls@,
                    b0_bullets(*old(self)),
                    self.effects@,
                    i as int - 1,
                ));
            }
        }
    }
}

/// The bullet list of a world, as a sequence.
pub open spec fn b0_bullets(w: GameWorld) -> Seq<Bullet> {
    w.bullets@
}


/// The queued switch state after a request: a fresh delay with the given
/// destination is queued unless one is already pending.
pub open spec fn spec_queue_load(tus: Option<(i64, bool)>, load_next: bool) -> Option<(i64, bool)> {
    match tus {
        Option::None => Option::Some((SWITCH_DELAY, load_next)),
        Option::Some(q) => Option::Some(q),
    }
}

/// The queued switch state after a kill: a fresh reset is queued unless one
/// is pending.
pub open spec fn spec_queue(tus: Option<(i64, bool)>) -> Option<(i64, bool)> {
    match tus {
        Option::None => Option::Some((SWITCH_DELAY, false)),
        Option::Some(q) => Option::Some(q),
    }
}

impl GameWorld {
    /// Kill the player (with its burst) and queue the delayed reset.
    fn kill_player(&mut self)
        requires
            old(self).wf(),
        ensures
            *final(self) == (GameWorld {
                player: Player { player_state: PlayerState::Dead, ..old(self).player },
                effects: final(self).effects,
                time_until_level_switch: spec_queue(old(self).time_until_level_switch),
                ..*old(self)
            }),
            final(self).effects@ == (if old(self).player.player_state is Dead {
                old(self).effects@
            } else {
                old(self).effects@.push(spec_death_burst(old(self).player))
            }),
            final(self).wf(),
    {
        self.player.kill(&mut self.effects);
        self.queue_level_load(false);
    }

    /// Whether any enemy touches the given box.
    fn any_enemy_touch(&self, pb: &CollBox) -> (r: bool)
        requires
            self.wf(),
            pb.wf(),
        ensures
            r == exists|i: int|
                0 <= i < self.enemies@.len() && boxes_intersect(
                    (#[trigger] self.enemies@[i]).cbox,
                    *pb,
                ),
    {
        let mut i: usize = 0;
        while i < self.enemies.len()
            invariant
                0 <= i <= self.enemies@.len(),
                self.wf(),
                pb.wf(),
                forall|k: int|
                    0 <= k < i ==> !boxes_intersect((#[trigger] self.enemies@[k]).cbox, *pb),
            decreases self.enemies@.len() - i,
        {
            if self.enemies[i].cbox.check_intersection(pb) {
                return true;
            }
            i += 1;
        }
        false
    }

    /// Whether any bullet touches the player.
    fn any_bullet_touches_player(&self) -> (r: bool)
        requires
            self.wf(),
        ensures
            r == exists|i: int|
                0 <= i < self.bullets@.len() && circle_box_intersect(
                    (#[trigger] self.bullets@[i]).coll,
                    self.player.cbox,
                ),
    {
        let mut i: usize = 0;
        while i < self.bullets.len()
            invariant
                0 <= i <= self.bullets@.len(),
                self.wf(),
                forall|k: int|
                    0 <= k < i ==> !circle_box_intersect(
                        (#[trigger] self.bullets@[k]).coll,
                        self.player.cbox,
                    ),
            decreases self.bullets@.len() - i,
        {
            if check_circle_box_intersection(&self.bullets[i].coll, &self.player.cbox) {
                return true;
            }
            i += 1;
        }
        false
    }

    /// Drop the exit door under gravity until it rests on a wall or a
    /// breakable.
    fn door_phase(&mut self, dt: i64)
        requires
            old(self).wf(),
            0 <= dt <= 1000,
        ensures
            final(self).level_exit == spec_door_step(
                old(self).level_exit,
                old(self).wall_man.wall_colliders@,
                old(self).breakable_walls@,
                dt as int,
            ),
            *final(self) == (GameWorld { level_exit: final(self).level_exit, ..*old(self) }),
            final(self).wf(),
    {
        match self.level_exit {
            Option::Some((ebox, vy)) => {
                let vy1 = fx_add(vy, fx_mul(dt, PLAYER_GRAVITY));
                let mut nbox = ebox;
                nbox.pos.y = fx_add(nbox.pos.y, fx_mul(vy1, dt));
                let mut hit = MultiCollider::collide_y_slice(
                    &mut nbox,
                    self.wall_man.wall_colliders.as_slice(),
                );
                if !hit {
                    hit = nbox.collide_y_slice(self.breakable_walls.as_slice());
                }
                let vy2: i64 = if hit {
                    0
                } else {
                    vy1
                };
                self.level_exit = Option::Some((nbox, vy2));
            },
            Option::None => {},
        }
    }
}

/// One kinematic step of the exit door.
pub open spec fn spec_door_step(
    exit: Option<(CollBox, i64)>,
    walls: Seq<MultiCollider>,
    breakable: Seq<CollBox>,
    dt: int,
) -> Option<(CollBox, i64)> {
    match exit {
        Option::None => Option::None,
        Option::Some((ebox, vy)) => {
            let vy1 = spec_fx_add(vy as int, spec_fx_mul(dt, PLAYER_GRAVITY as int));
            let nb0 = CollBox {
                pos: Vec2Fx {
                    x: ebox.pos.x,
                    y: spec_fx_add(ebox.pos.y as int, spec_fx_mul(vy1, dt)) as i64,
                },
                half_dim: ebox.half_dim,
            };
            let w = spec_mc_collide_fold(nb0, walls, 0, false, false);
            let b = if w.1 {
                (w.0, false)
            } else {
                spec_collide_fold(w.0, breakable, false)
            };
            Option::Some((b.0, if w.1 || b.1 {
                0i64
            } else {
                vy1 as i64
            }))
        },
    }
}


/// The relation between the world before and after one unpaused frame:
/// the full deterministic resolution order of the tick, stated over the
/// per-phase spec functions. The pause state and the animation clock are
/// outside this relation.
/// The first half of an unpaused frame: player input, physics, the trigger
/// scan, the death checks, the clamp, the camera, the enemy pass, the ghost
/// kill and the ghost-block clock.
pub open spec fn spec_tick_a(w: GameWorld, wm: GameWorld, input: PlayerInput, dt: int) -> bool {
    let sdt = spec_fx_mul(dt, w.time_speed as int);
    let p1 = crate::player::spec_player_update(w.player, input, sdt);
    let p2 = crate::player::spec_physics_update(
        p1,
        w.wall_man.wall_colliders@,
        w.breakable_walls@,
        w.ghost_blocks,
        sdt,
    );
    let trig1 = crate::staticobj::spec_triggers_touched(w.triggers@, p2.cbox);
    let fly = crate::staticobj::spec_scan_fly(w.triggers@, p2.cbox);
    let ptrap = crate::staticobj::spec_scan_trap(w.triggers@, p2.cbox);
    let p3 = if fly {
        crate::player::spec_set_to_flying(p2)
    } else {
        p2
    };
    let dead1 = p3.cbox.pos.y > w.world_size.y || exists|i: int|
        0 <= i < w.enemies@.len() && boxes_intersect((#[trigger] w.enemies@[i]).cbox, p3.cbox);
    let p4 = if dead1 {
        spec_kill(p3)
    } else {
        p3
    };
    let eff1 = if dead1 {
        spec_kill_effects(p3, w.effects@)
    } else {
        w.effects@
    };
    let tus1 = if dead1 {
        spec_queue(w.time_until_level_switch)
    } else {
        w.time_until_level_switch
    };
    let p5 = spec_clamp_player(p4, w.world_size);
    let cam1 = spec_decay_toward_2d(
        w.cam_position,
        p5.cbox.pos,
        spec_fx_mul(dt, CAM_SPEED as int),
    );
    let cam2 = Vec2Fx {
        x: spec_cam_clamp(cam1.x as int, CAM_W as int, w.world_size.x as int) as i64,
        y: spec_cam_clamp(cam1.y as int, CAM_H as int, w.world_size.y as int) as i64,
    };
    let ep = spec_enemy_pass(
        w.enemies@,
        trig1,
        w.bullets@,
        eff1,
        p5.cbox,
        ptrap,
        sdt,
        w.enemies@.len() - 1,
    );
    let gb_kill = spec_block_effect(
        w.ghost_blocks.anim_time as int,
        w.ghost_blocks.anim_dir as int,
    ) == GhostBlockEffect::Kill && exists|i: int|
        0 <= i < w.ghost_blocks.blocks@.len() && boxes_intersect(
            p5.cbox,
            #[trigger] w.ghost_blocks.blocks@[i],
        );
    let p6 = if gb_kill {
        spec_kill(p5)
    } else {
        p5
    };
    let eff2 = if gb_kill {
        spec_kill_effects(p5, ep.3)
    } else {
        ep.3
    };
    let tus2 = if gb_kill {
        spec_queue(tus1)
    } else {
        tus1
    };
    let gb_dir = if ptrap || ep.4 || w.ghost_blocks.hit_timer > 0 {
        1int
    } else {
        -1int
    };
    &&& wm.player == p6
    &&& wm.triggers@ == ep.1
    &&& wm.enemies@ == ep.0
    &&& wm.bullets@ == ep.2
    &&& wm.effects@ == eff2
    &&& wm.cam_position == cam2
    &&& wm.time_until_level_switch == tus2
    &&& wm.ghost_blocks.blocks@ == w.ghost_blocks.blocks@
    &&& wm.ghost_blocks.dim == w.ghost_blocks.dim
    &&& wm.ghost_blocks.anim_dir == gb_dir
    &&& wm.ghost_blocks.hit_timer as int == ({
        let base = if ptrap || ep.4 {
            crate::staticobj::BLOCK_TIME as int
        } else {
            w.ghost_blocks.hit_timer as int
        };
        if base - dt > 0 {
            base - dt
        } else {
            0
        }
    })
    &&& wm.ghost_blocks.anim_time as int == spec_clamp(
        w.ghost_blocks.anim_time + gb_dir * dt,
        0,
        crate::staticobj::BLOCK_FADE as int,
    )
    &&& wm.breakable_walls == w.breakable_walls
    &&& wm.level_exit == w.level_exit
    &&& wm.lights == w.lights
    &&& wm.wall_man == w.wall_man
    &&& wm.world_size == w.world_size
    &&& wm.time_speed == w.time_speed
    &&& wm.tileset == w.tileset
    &&& wm.level_index == w.level_index
    &&& wm.level_blueprint == w.level_blueprint
    &&& wm.note == w.note
    &&& wm.load_new_level == w.load_new_level
}

/// The second half of an unpaused frame: projectiles, their victims, the
/// breakable walls, the exit door, the trigger countdowns, the switch
/// countdown, and the deferred spike death (whose scan happened against the
/// player's resolved box in the first half).
pub open spec fn spec_tick_b(
    w: GameWorld,
    wm: GameWorld,
    w2: GameWorld,
    input: PlayerInput,
    dt: int,
) -> bool {
    let sdt = spec_fx_mul(dt, w.time_speed as int);
    let p1 = crate::player::spec_player_update(w.player, input, sdt);
    let p2 = crate::player::spec_physics_update(
        p1,
        w.wall_man.wall_colliders@,
        w.breakable_walls@,
        w.ghost_blocks,
        sdt,
    );
    let queue_reset = crate::staticobj::spec_scan_spikes(w.triggers@, p2.cbox);
    let solid2 = spec_block_effect(
        wm.ghost_blocks.anim_time as int,
        wm.ghost_blocks.anim_dir as int,
    ) == GhostBlockEffect::Collide;
    let bp = spec_bullet_pass(
        wm.bullets@,
        wm.effects@,
        wm.wall_man.wall_colliders@,
        wm.ghost_blocks.blocks@,
        solid2,
        dt,
        wm.bullets@.len() - 1,
    );
    let ebp = spec_enemy_bullet_pass(wm.enemies@, bp.0, wm.enemies@.len() - 1);
    let shot = exists|i: int|
        0 <= i < ebp.1.len() && circle_box_intersect((#[trigger] ebp.1[i]).coll, wm.player.cbox);
    let p7 = if shot {
        spec_kill(wm.player)
    } else {
        wm.player
    };
    let eff3 = if shot {
        spec_kill_effects(wm.player, bp.1)
    } else {
        bp.1
    };
    let tus3 = if shot {
        spec_queue(wm.time_until_level_switch)
    } else {
        wm.time_until_level_switch
    };
    let brp = spec_breakable_pass(
        wm.breakable_walls@,
        ebp.1,
        eff3,
        wm.breakable_walls@.len() - 1,
    );
    let door = spec_door_step(wm.level_exit, wm.wall_man.wall_colliders@, brp.0, dt);
    let tus4 = match tus3 {
        Option::Some((t, nl)) => Option::Some((crate::fx::fx_sat(t - dt) as i64, nl)),
        Option::None => Option::<(i64, bool)>::None,
    };
    let p8 = if queue_reset {
        spec_kill(p7)
    } else {
        p7
    };
    let eff4 = if queue_reset {
        spec_kill_effects(p7, brp.1)
    } else {
        brp.1
    };
    let tus5 = if queue_reset {
        spec_queue(tus4)
    } else {
        tus4
    };
    &&& w2.player == p8
    &&& w2.triggers@.len() == wm.triggers@.len()
    &&& (forall|i: int|
        0 <= i < wm.triggers@.len() ==> #[trigger] w2.triggers@[i] == (Trigger {
            coll: wm.triggers@[i].coll,
            trigger_type: spec_trigger_tick(wm.triggers@[i].trigger_type, dt),
        }))
    &&& w2.enemies@ == ebp.0
    &&& w2.bullets@ == ebp.1
    &&& w2.breakable_walls@ == brp.0
    &&& w2.effects@ == eff4
    &&& w2.cam_position == wm.cam_position
    &&& w2.level_exit == door
    &&& w2.time_until_level_switch == tus5
    &&& w2.ghost_blocks == wm.ghost_blocks
    &&& w2.lights == wm.lights
    &&& w2.wall_man == wm.wall_man
    &&& w2.world_size == wm.world_size
    &&& w2.time_speed == wm.time_speed
    &&& w2.tileset == wm.tileset
    &&& w2.level_index == wm.level_index
    &&& w2.level_blueprint == wm.level_blueprint
    &&& w2.note == wm.note
    &&& w2.load_new_level == wm.load_new_level
}

/// The relation between the world before and after one unpaused frame: the
/// two halves of the fixed resolution order, met at the state between them.
/// The pause state and the animation clock are outside this relation.
pub open spec fn spec_tick_rel(w: GameWorld, w2: GameWorld, input: PlayerInput, dt: int) -> bool {
    exists|wm: GameWorld| #[trigger] spec_tick_a(w, wm, input, dt) && spec_tick_b(w, wm, w2, input, dt)
}

/// The pause state after an escape press.
pub open spec fn spec_next_game_state(gs: GameState, escape_pressed: bool) -> GameState {
    if escape_pressed {
        match gs {
            GameState::Unpaused => GameState::Paused,
            GameState::Paused => GameState::Unpaused,
            GameState::ForcePaused => GameState::ForcePaused,
        }
    } else {
        gs
    }
}

/// The player with its position pulled back inside the world.
pub open spec fn spec_clamp_player(p: Player, world: Vec2Fx) -> Player {
    Player {
        cbox: CollBox {
            pos: Vec2Fx {
                x: spec_clamp(p.cbox.pos.x as int, 0, world.x as int) as i64,
                y: (if p.cbox.pos.y as int >= 0 {
                    p.cbox.pos.y as int
                } else {
                    0
                }) as i64,
            },
            half_dim: p.cbox.half_dim,
        },
        ..p
    }
}

/// A kill applied to a player value.
pub open spec fn spec_kill(p: Player) -> Player {
    Player { player_state: PlayerState::Dead, ..p }
}

/// The effects after a kill of `p`.
pub open spec fn spec_kill_effects(p: Player, effects: Seq<ParticleRequest>) -> Seq<
    ParticleRequest,
> {
    if p.player_state is Dead {
        effects
    } else {
        effects.push(spec_death_burst(p))
    }
}

impl GameWorld {
    /// One frame of the world, in the fixed order: pause handling, player
    /// input and physics, the trigger scan on the player, the death checks,
    /// the camera, the enemies, the ghost blocks, the projectiles and their
    /// victims, the breakable walls, the exit door, the trigger countdowns,
    /// the switch countdown, and finally the deferred spike death.
    #[verifier::rlimit(100)]
    pub fn update(&mut self, input: &PlayerInput, escape_pressed: bool, dt: i64)
        requires
            old(self).wf(),
            input.wf(),
            0 <= dt <= 150,
        ensures
            ({
                let w = *old(self);
                let gs2 = spec_next_game_state(w.game_state, escape_pressed);
                let at2 = (w.anim_timer + dt) % 4000;
                &&& final(self).game_state == gs2
                &&& final(self).anim_timer == at2
                &&& (gs2 != GameState::Unpaused ==> *final(self) == (GameWorld {
                    game_state: gs2,
                    anim_timer: at2 as i64,
                    ..w
                }))
                &&& (gs2 == GameState::Unpaused ==> spec_tick_rel(
                    GameWorld { game_state: gs2, anim_timer: at2 as i64, ..w },
                    *final(self),
                    *input,
                    dt as int,
                ))
            }),
            final(self).wf(),
    {
        if escape_pressed {
            self.game_state = match self.game_state {
                GameState::Unpaused => GameState::Paused,
                GameState::Paused => GameState::Unpaused,
                GameState::ForcePaused => GameState::ForcePaused,
            };
        }
        let at: u64 = (self.anim_timer + dt) as u64 % 4000;
        self.anim_timer = at as i64;
        if !matches!(self.game_state, GameState::Unpaused) {
            return;
        }
        self.tick_unpaused(input, dt);
    }

    /// The body of one running frame: the two halves in order.
    fn tick_unpaused(&mut self, input: &PlayerInput, dt: i64)
        requires
            old(self).wf(),
            input.wf(),
            0 <= dt <= 150,
        ensures
            spec_tick_rel(*old(self), *final(self), *input, dt as int),
            final(self).game_state == old(self).game_state,
            final(self).anim_timer == old(self).anim_timer,
            final(self).wf(),
    {
        let ghost w0 = *old(self);
        let spike_hit = self.tick_a(input, dt);
        let ghost mid = *self;
        self.tick_b(input, dt, spike_hit, Ghost(w0), Ghost(mid));
        proof {
            assert(spec_tick_a(w0, mid, *input, dt as int)
                && spec_tick_b(w0, mid, *self, *input, dt as int));
        }
    }

    /// The first half of a frame; see `spec_tick_a`.
    #[verifier::rlimit(100)]
    fn tick_a(&mut self, input: &PlayerInput, dt: i64) -> (spike_hit: bool)
        requires
            old(self).wf(),
            input.wf(),
            0 <= dt <= 150,
        ensures
            spec_tick_a(*old(self), *final(self), *input, dt as int),
            spike_hit == crate::staticobj::spec_scan_spikes(
                old(self).triggers@,
                crate::player::spec_physics_update(
                    crate::player::spec_player_update(
                        old(self).player,
                        *input,
                        spec_fx_mul(dt as int, old(self).time_speed as int),
                    ),
                    old(self).wall_man.wall_colliders@,
                    old(self).breakable_walls@,
                    old(self).ghost_blocks,
                    spec_fx_mul(dt as int, old(self).time_speed as int),
                ).cbox,
            ),
            final(self).game_state == old(self).game_state,
            final(self).anim_timer == old(self).anim_timer,
            final(self).wf(),
    {
        let ghost w = *old(self);
        let sdt = fx_mul(dt, self.time_speed);
        proof {
            let ts = w.time_speed as int;
            assert(0 <= spec_fx_mul(dt as int, ts) <= 750) by (nonlinear_arith)
                requires
                    0 <= dt as int <= 150,
                    0 <= ts <= 5000,
                    spec_fx_mul(dt as int, ts) == crate::fx::fx_sat(
                        crate::fx::div_trunc(dt as int * ts, 1000),
                    ),
            ;
        }
        let ghost sdt_s = sdt as int;
        self.player.update(input, sdt);
        proof {
            assert(self.player == crate::player::spec_player_update(w.player, *input, sdt_s));
        }
        self.player.physics_update_mc(
            self.wall_man.wall_colliders.as_slice(),
            self.breakable_walls.as_slice(),
            &self.ghost_blocks,
            sdt,
        );
        let ghost p2 = crate::player::spec_physics_update(
            crate::player::spec_player_update(w.player, *input, sdt_s),
            w.wall_man.wall_colliders@,
            w.breakable_walls@,
            w.ghost_blocks,
            sdt_s,
        );
        proof {
            assert(self.player == p2);
        }
        let pbox = self.player.cbox;
        let scan = Trigger::coll_check(&mut self.triggers, &pbox);
        if scan.fly {
            self.player.set_to_flying();
        }
        let ghost p3 = if crate::staticobj::spec_scan_fly(w.triggers@, p2.cbox) {
            crate::player::spec_set_to_flying(p2)
        } else {
            p2
        };
        proof {
            assert(self.player == p3);
            assert(self.triggers@ == crate::staticobj::spec_triggers_touched(w.triggers@, p2.cbox));
        }
        let queue_reset = scan.spikes;
        let player_in_trap = scan.trap;
        let fell = self.player.cbox.pos.y > self.world_size.y;
        let touched = self.any_enemy_touch(&self.player.cbox);
        if fell || touched {
            self.kill_player();
        }
        let ghost dead1 = p3.cbox.pos.y > w.world_size.y || exists|i: int|
            0 <= i < w.enemies@.len() && boxes_intersect((#[trigger] w.enemies@[i]).cbox, p3.cbox);
        let ghost p4 = if dead1 {
            spec_kill(p3)
        } else {
            p3
        };
        let ghost eff1 = if dead1 {
            spec_kill_effects(p3, w.effects@)
        } else {
            w.effects@
        };
        let ghost tus1 = if dead1 {
            spec_queue(w.time_until_level_switch)
        } else {
            w.time_until_level_switch
        };
        proof {
            assert(self.player == p4);
            assert(self.effects@ == eff1);
            assert(self.time_until_level_switch == tus1);
        }
        if self.player.cbox.pos.y < 0 {
            self.player.cbox.pos.y = 0;
        }
        self.player.cbox.pos.x = fx_clamp(self.player.cbox.pos.x, 0, self.world_size.x);
        let ghost p5 = spec_clamp_player(p4, w.world_size);
        proof {
            assert(self.player == p5);
        }
        self.cam_position = vec_decay_toward(
            self.cam_position,
            self.player.cbox.pos,
            fx_mul(dt, CAM_SPEED),
        );
        self.constrain_cam();
        let ghost cam1 = spec_decay_toward_2d(
            w.cam_position,
            p5.cbox.pos,
            spec_fx_mul(dt as int, CAM_SPEED as int),
        );
        let ghost cam2 = Vec2Fx {
            x: spec_cam_clamp(cam1.x as int, CAM_W as int, w.world_size.x as int) as i64,
            y: spec_cam_clamp(cam1.y as int, CAM_H as int, w.world_size.y as int) as i64,
        };
        proof {
            assert(self.cam_position == cam2);
        }
        let enemy_in_nm = self.enemy_phase(player_in_trap, sdt);
        let ghost ep = spec_enemy_pass(
            w.enemies@,
            crate::staticobj::spec_triggers_touched(w.triggers@, p2.cbox),
            w.bullets@,
            eff1,
            p5.cbox,
            crate::staticobj::spec_scan_trap(w.triggers@, p2.cbox),
            sdt_s,
            w.enemies@.len() - 1,
        );
        proof {
            assert(self.enemies@ == ep.0);
            assert(self.triggers@ == ep.1);
            assert(self.bullets@ == ep.2);
            assert(self.effects@ == ep.3);
            assert(enemy_in_nm == ep.4);
        }
        if self.player.check_ghost_block_kill(&self.ghost_blocks) {
            self.kill_player();
        }
        let ghost gb_kill = spec_block_effect(
            w.ghost_blocks.anim_time as int,
            w.ghost_blocks.anim_dir as int,
        ) == GhostBlockEffect::Kill && exists|i: int|
            0 <= i < w.ghost_blocks.blocks@.len() && boxes_intersect(
                p5.cbox,
                #[trigger] w.ghost_blocks.blocks@[i],
            );
        let ghost p6 = if gb_kill {
            spec_kill(p5)
        } else {
            p5
        };
        let ghost eff2 = if gb_kill {
            spec_kill_effects(p5, ep.3)
        } else {
            ep.3
        };
        let ghost tus2 = if gb_kill {
            spec_queue(tus1)
        } else {
            tus1
        };
        proof {
            assert(self.player == p6);
            assert(self.effects@ == eff2);
            assert(self.time_until_level_switch == tus2);
        }
        self.ghost_blocks.update(player_in_trap || enemy_in_nm, dt);
        queue_reset
    }

    /// The second half of a frame; see `spec_tick_b`.
    #[verifier::rlimit(100)]
    fn tick_b(
        &mut self,
        input: &PlayerInput,
        dt: i64,
        spike_hit: bool,
        Ghost(w0): Ghost<GameWorld>,
        Ghost(mid): Ghost<GameWorld>,
    )
        requires
            old(self).wf(),
            input.wf(),
            0 <= dt <= 150,
            w0.wf(),
            spec_tick_a(w0, mid, *input, dt as int),
            mid == *old(self),
            spike_hit == crate::staticobj::spec_scan_spikes(
                w0.triggers@,
                crate::player::spec_physics_update(
                    crate::player::spec_player_update(
                        w0.player,
                        *input,
                        spec_fx_mul(dt as int, w0.time_speed as int),
                    ),
                    w0.wall_man.wall_colliders@,
                    w0.breakable_walls@,
                    w0.ghost_blocks,
                    spec_fx_mul(dt as int, w0.time_speed as int),
                ).cbox,
            ),
        ensures
            spec_tick_b(w0, mid, *final(self), *input, dt as int),
            final(self).game_state == old(self).game_state,
            final(self).anim_timer == old(self).anim_timer,
            final(self).wf(),
    {
        let queue_reset = spike_hit;
        self.bullet_phase(dt);
        let ghost solid2 = spec_block_effect(
            mid.ghost_blocks.anim_time as int,
            mid.ghost_blocks.anim_dir as int,
        ) == GhostBlockEffect::Collide;
        let ghost bp = spec_bullet_pass(
            mid.bullets@,
            mid.effects@,
            mid.wall_man.wall_colliders@,
            mid.ghost_blocks.blocks@,
            solid2,
            dt as int,
            mid.bullets@.len() - 1,
        );
        proof {
            assert(self.bullets@ == bp.0);
            assert(self.effects@ == bp.1);
        }
        self.enemy_bullet_phase();
        let ghost ebp = spec_enemy_bullet_pass(mid.enemies@, bp.0, mid.enemies@.len() - 1);
        proof {
            assert(self.enemies@ == ebp.0);
            assert(self.bullets@ == ebp.1);
        }
        if self.any_bullet_touches_player() {
            self.kill_player();
        }
        let ghost shot = exists|i: int|
            0 <= i < ebp.1.len() && circle_box_intersect(
                (#[trigger] ebp.1[i]).coll,
                mid.player.cbox,
            );
        let ghost p7 = if shot {
            spec_kill(mid.player)
        } else {
            mid.player
        };
        let ghost eff3 = if shot {
            spec_kill_effects(mid.player, bp.1)
        } else {
            bp.1
        };
        let ghost tus3 = if shot {
            spec_queue(mid.time_until_level_switch)
        } else {
            mid.time_until_level_switch
        };
        proof {
            assert(self.player == p7);
            assert(self.effects@ == eff3);
            assert(self.time_until_level_switch == tus3);
        }
        self.breakable_phase();
        let ghost brp = spec_breakable_pass(
            mid.breakable_walls@,
            ebp.1,
            eff3,
            mid.breakable_walls@.len() - 1,
        );
        proof {
            assert(self.breakable_walls@ == brp.0);
            assert(self.effects@ == brp.1);
        }
        self.door_phase(dt);
        proof {
            assert(self.level_exit == spec_door_step(
                mid.level_exit,
                mid.wall_man.wall_colliders@,
                brp.0,
                dt as int,
            ));
        }
        Trigger::update(&mut self.triggers, dt);
        match self.time_until_level_switch {
            Option::Some((t, nl)) => {
                self.time_until_level_switch = Option::Some((fx_sub(t, dt), nl));
            },
            Option::None => {},
        }
        if queue_reset {
            self.kill_player();
        }
    }
}




} // verus!
