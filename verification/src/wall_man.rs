//! Wall manager: owns the sector grid and a flat log of wall sprites, culls
//! empty sectors after a level is built, and assigns each wall a visual tile
//! variant from a four-probe exposure analysis of its neighbourhood.
use vstd::prelude::*;

use crate::collision::{
    spec_cull, spec_grid_hit, CollBox, MultiCollider, cull_sectors,
};
use crate::fx::{fx_add, fx_sat, spec_fx_add, Vec2Fx};

verus! {

/// A visual tile variant: coordinates into the tile sheet.
#[derive(Clone, Copy, PartialEq, Eq, Structural, Debug)]
pub struct TileTag {
    pub tx: i64,
    pub ty: i64,
}

/// The default (fully buried) tile variant.
pub open spec fn spec_def_tile() -> TileTag {
    TileTag { tx: 0, ty: 3 }
}

/// The tile variant for a wall with the given exposure vector and collision
/// flags: a wall with neighbours on both axes picks a sheet cell from its
/// exposure, a wall exposed on one axis picks an edge tile, anything else is
/// the plain tile.
pub open spec fn spec_classify_tile(ex: int, ey: int, cx: bool, cy: bool) -> TileTag {
    if cx && cy {
        TileTag { tx: (1 - ex) as i64, ty: (1 - ey) as i64 }
    } else if cx {
        if ex == 0 {
            TileTag { tx: 2, ty: 3 }
        } else {
            spec_def_tile()
        }
    } else if cy {
        if ey == 0 {
            TileTag { tx: 1, ty: 3 }
        } else {
            spec_def_tile()
        }
    } else {
        spec_def_tile()
    }
}

pub fn classify_tile(ex: i64, ey: i64, cx: bool, cy: bool) -> (r: TileTag)
    requires
        -1 <= ex <= 1,
        -1 <= ey <= 1,
    ensures
        r == spec_classify_tile(ex as int, ey as int, cx, cy),
{
    if cx && cy {
        TileTag { tx: 1 - ex, ty: 1 - ey }
    } else if cx {
        if ex == 0 {
            TileTag { tx: 2, ty: 3 }
        } else {
            TileTag { tx: 0, ty: 3 }
        }
    } else if cy {
        if ey == 0 {
            TileTag { tx: 1, ty: 3 }
        } else {
            TileTag { tx: 0, ty: 3 }
        }
    } else {
        TileTag { tx: 0, ty: 3 }
    }
}

/// The probe box offset from `pos` by `(offx, offy)`, with half-extents
/// `cdim`.
pub open spec fn spec_probe_box(pos: Vec2Fx, offx: int, offy: int, cdim: Vec2Fx) -> CollBox {
    CollBox {
        pos: Vec2Fx { x: fx_sat(pos.x + offx) as i64, y: fx_sat(pos.y + offy) as i64 },
        half_dim: cdim,
    }
}

/// Whether an x probe at `px` leaves the world on the x axis.
pub open spec fn spec_out_of_world_x(px: int, world_dim: Option<Vec2Fx>) -> bool {
    match world_dim {
        Option::Some(dim) => !(0 <= px <= dim.x),
        Option::None => false,
    }
}

/// Whether a y probe at `py` leaves the world on the y axis.
pub open spec fn spec_out_of_world_y(py: int, world_dim: Option<Vec2Fx>) -> bool {
    match world_dim {
        Option::Some(dim) => !(0 <= py <= dim.y),
        Option::None => false,
    }
}

/// One directional probe on the x axis: hit when the probe box touches a
/// wall or leaves the world.
pub open spec fn spec_probe_x(
    grid: Seq<MultiCollider>,
    pos: Vec2Fx,
    check_dist: Vec2Fx,
    cdim: Vec2Fx,
    world_dim: Option<Vec2Fx>,
    sign: int,
) -> bool {
    let b = spec_probe_box(pos, sign * check_dist.x, 0, cdim);
    spec_grid_hit(grid, b) || spec_out_of_world_x(b.pos.x as int, world_dim)
}

/// One directional probe on the y axis.
pub open spec fn spec_probe_y(
    grid: Seq<MultiCollider>,
    pos: Vec2Fx,
    check_dist: Vec2Fx,
    cdim: Vec2Fx,
    world_dim: Option<Vec2Fx>,
    sign: int,
) -> bool {
    let b = spec_probe_box(pos, 0, sign * check_dist.y, cdim);
    spec_grid_hit(grid, b) || spec_out_of_world_y(b.pos.y as int, world_dim)
}

/// The tile variant computed for a wall at `pos` from its four probes.
pub open spec fn spec_tile_for(
    grid: Seq<MultiCollider>,
    pos: Vec2Fx,
    check_dist: Vec2Fx,
    cdim: Vec2Fx,
    world_dim: Option<Vec2Fx>,
) -> TileTag {
    let hxn = spec_probe_x(grid, pos, check_dist, cdim, world_dim, -1);
    let hxp = spec_probe_x(grid, pos, check_dist, cdim, world_dim, 1);
    let hyn = spec_probe_y(grid, pos, check_dist, cdim, world_dim, -1);
    let hyp = spec_probe_y(grid, pos, check_dist, cdim, world_dim, 1);
    let ex = (if hxn {
        -1int
    } else {
        0int
    }) + (if hxp {
        1int
    } else {
        0int
    });
    let ey = (if hyn {
        -1int
    } else {
        0int
    }) + (if hyp {
        1int
    } else {
        0int
    });
    spec_classify_tile(ex, ey, hxn || hxp, hyn || hyp)
}

/// The wall manager: the sector grid plus the flat, positionally ordered log
/// of wall sprites.
pub struct WallMan {
    pub wall_colliders: Vec<MultiCollider>,
    pub wall_sprites: Vec<(Vec2Fx, TileTag)>,
    pub placeholder: TileTag,
}

impl WallMan {
    /// Valid manager: every sector and every sprite position is valid.
    pub open spec fn wf(self) -> bool {
        &&& forall|k: int|
            0 <= k < self.wall_colliders@.len() ==> (#[trigger] self.wall_colliders@[k]).wf()
        &&& forall|i: int| 0 <= i < self.wall_sprites@.len() ==> (#[trigger] self.wall_sprites@[i]).0.wf()
    }

    pub fn new(wall_mc: Vec<MultiCollider>, tile_placeholder: TileTag) -> (r: WallMan)
        ensures
            r.wall_colliders == wall_mc,
            r.wall_sprites@ == Seq::<(Vec2Fx, TileTag)>::empty(),
            r.placeholder == tile_placeholder,
    {
        WallMan { wall_colliders: wall_mc, wall_sprites: Vec::new(), placeholder: tile_placeholder }
    }

    /// Add a wall: bucket it into every sector whose filter it overlaps and
    /// append one sprite entry for it.
    pub fn add_wall(&mut self, rect: CollBox)
        requires
            old(self).wf(),
            rect.wf(),
        ensures
            final(self).wall_colliders@.len() == old(self).wall_colliders@.len(),
            forall|k: int|
                0 <= k < old(self).wall_colliders@.len() ==> {
                    &&& (#[trigger] final(self).wall_colliders@[k]).main == old(
                        self,
                    ).wall_colliders@[k].main
                    &&& final(self).wall_colliders@[k].members() == (if crate::collision::boxes_intersect(
                        old(self).wall_colliders@[k].main,
                        rect,
                    ) {
                        old(self).wall_colliders@[k].members().push(rect)
                    } else {
                        old(self).wall_colliders@[k].members()
                    })
                },
            final(self).wall_sprites@ == old(self).wall_sprites@.push(
                (rect.pos, old(self).placeholder),
            ),
            final(self).placeholder == old(self).placeholder,
            final(self).wf(),
    {
        MultiCollider::add_if_intersect_slice(&mut self.wall_colliders, &rect);
        self.wall_sprites.push((rect.pos, self.placeholder));
    }

    /// Remove the sectors that hold no walls.
    pub fn cull(&mut self)
        requires
            old(self).wf(),
        ensures
            final(self).wall_colliders@ == spec_cull(old(self).wall_colliders@),
            final(self).wall_sprites == old(self).wall_sprites,
            final(self).placeholder == old(self).placeholder,
            final(self).wf(),
    {
        cull_sectors(&mut self.wall_colliders);
        proof {
            crate::collision::lemma_cull_wf(old(self).wall_colliders@);
        }
    }

    /// Empty every sector and drop all sprites.
    pub fn clear(&mut self)
        requires
            old(self).wf(),
        ensures
            final(self).wall_colliders@.len() == old(self).wall_colliders@.len(),
            forall|k: int|
                0 <= k < old(self).wall_colliders@.len() ==> {
                    &&& (#[trigger] final(self).wall_colliders@[k]).main == old(
                        self,
                    ).wall_colliders@[k].main
                    &&& final(self).wall_colliders@[k].members() == Seq::<CollBox>::empty()
                },
            final(self).wall_sprites@ == Seq::<(Vec2Fx, TileTag)>::empty(),
            final(self).placeholder == old(self).placeholder,
            final(self).wf(),
    {
        let mut k: usize = 0;
        while k < self.wall_colliders.len()
            invariant
                0 <= k <= self.wall_colliders@.len(),
                self.wall_colliders@.len() == old(self).wall_colliders@.len(),
                self.wall_sprites == old(self).wall_sprites,
                self.placeholder == old(self).placeholder,
                forall|m: int|
                    k <= m < self.wall_colliders@.len() ==> #[trigger] self.wall_colliders@[m]
                        == old(self).wall_colliders@[m],
                forall|m: int|
                    0 <= m < k ==> {
                        &&& (#[trigger] self.wall_colliders@[m]).main == old(
                            self,
                        ).wall_colliders@[m].main
                        &&& self.wall_colliders@[m].members() == Seq::<CollBox>::empty()
                    },
                old(self).wf(),
            decreases self.wall_colliders@.len() - k,
        {
            let sector = &mut self.wall_colliders[k];
            sector.clear();
            k += 1;
        }
        self.wall_sprites.clear();
    }

    /// The flat sprite log: one `(position, tile)` pair per wall, in
    /// insertion order.
    pub fn wall_sprites(&self) -> (r: &Vec<(Vec2Fx, TileTag)>)
        ensures
            r@ == self.wall_sprites@,
    {
        &self.wall_sprites
    }

    /// Recompute every wall's tile variant by probing its four neighbours
    /// through the sector grid, treating the world border as solid.
    pub fn assign_tile_types(&mut self, check_dist: Vec2Fx, coll_dim: Vec2Fx, world_dim: Option<
        Vec2Fx,
    >)
        requires
            old(self).wf(),
            check_dist.wf(),
            0 <= check_dist.x,
            0 <= check_dist.y,
            coll_dim.wf(),
            0 <= coll_dim.x,
            0 <= coll_dim.y,
        ensures
            final(self).wall_colliders == old(self).wall_colliders,
            final(self).placeholder == old(self).placeholder,
            final(self).wall_sprites@.len() == old(self).wall_sprites@.len(),
            forall|i: int|
                0 <= i < old(self).wall_sprites@.len() ==> #[trigger] final(self).wall_sprites@[i]
                    == (
                    old(self).wall_sprites@[i].0,
                    spec_tile_for(
                        old(self).wall_colliders@,
                        old(self).wall_sprites@[i].0,
                        check_dist,
                        coll_dim,
                        world_dim,
                    ),
                ),
            final(self).wf(),
    {
        let mut i: usize = 0;
        while i < self.wall_sprites.len()
            invariant
                0 <= i <= self.wall_sprites@.len(),
                self.wall_sprites@.len() == old(self).wall_sprites@.len(),
                self.wall_colliders == old(self).wall_colliders,
                self.placeholder == old(self).placeholder,
                old(self).wf(),
                check_dist.wf(),
                0 <= check_dist.x,
                0 <= check_dist.y,
                coll_dim.wf(),
                0 <= coll_dim.x,
                0 <= coll_dim.y,
                forall|m: int|
                    i <= m < self.wall_sprites@.len() ==> #[trigger] self.wall_sprites@[m] == old(
                        self,
                    ).wall_sprites@[m],
                forall|m: int|
                    0 <= m < i ==> #[trigger] self.wall_sprites@[m] == (
                        old(self).wall_sprites@[m].0,
                        spec_tile_for(
                            old(self).wall_colliders@,
                            old(self).wall_sprites@[m].0,
                            check_dist,
                            coll_dim,
                            world_dim,
                        ),
                    ),
            decreases self.wall_sprites@.len() - i,
        {
            let pos = self.wall_sprites[i].0;
            let hxn = self.probe_x(pos, -1, check_dist, coll_dim, world_dim);
            let hxp = self.probe_x(pos, 1, check_dist, coll_dim, world_dim);
            let hyn = self.probe_y(pos, -1, check_dist, coll_dim, world_dim);
            let hyp = self.probe_y(pos, 1, check_dist, coll_dim, world_dim);
            let ex: i64 = (if hxn {
                -1i64
            } else {
                0i64
            }) + (if hxp {
                1i64
            } else {
                0i64
            });
            let ey: i64 = (if hyn {
                -1i64
            } else {
                0i64
            }) + (if hyp {
                1i64
            } else {
                0i64
            });
            let tile = classify_tile(ex, ey, hxn || hxp, hyn || hyp);
            self.wall_sprites[i] = (pos, tile);
            i += 1;
        }
    }

    /// One directional probe on the x axis against the wall grid.
    fn probe_x(&self, pos: Vec2Fx, sign: i64, check_dist: Vec2Fx, coll_dim: Vec2Fx, world_dim: Option<
        Vec2Fx,
    >) -> (r: bool)
        requires
            self.wf(),
            pos.wf(),
            check_dist.wf(),
            0 <= check_dist.x,
            coll_dim.wf(),
            0 <= coll_dim.x,
            0 <= coll_dim.y,
            sign == 1 || sign == -1,
        ensures
            r == spec_probe_x(
                self.wall_colliders@,
                pos,
                check_dist,
                coll_dim,
                world_dim,
                sign as int,
            ),
    {
        let off: i64 = if sign >= 0 {
            check_dist.x
        } else {
            -check_dist.x
        };
        let px = fx_add(pos.x, off);
        let b = CollBox { pos: Vec2Fx { x: px, y: pos.y }, half_dim: coll_dim };
        let in_world = match world_dim {
            Option::Some(dim) => 0 <= px && px <= dim.x,
            Option::None => true,
        };
        MultiCollider::check_intersection_slice(self.wall_colliders.as_slice(), &b) || !in_world
    }

    /// One directional probe on the y axis against the wall grid.
    fn probe_y(&self, pos: Vec2Fx, sign: i64, check_dist: Vec2Fx, coll_dim: Vec2Fx, world_dim: Option<
        Vec2Fx,
    >) -> (r: bool)
        requires
            self.wf(),
            pos.wf(),
            check_dist.wf(),
            0 <= check_dist.y,
            coll_dim.wf(),
            0 <= coll_dim.x,
            0 <= coll_dim.y,
            sign == 1 || sign == -1,
        ensures
            r == spec_probe_y(
                self.wall_colliders@,
                pos,
                check_dist,
                coll_dim,
                world_dim,
                sign as int,
            ),
    {
        let off: i64 = if sign >= 0 {
            check_dist.y
        } else {
            -check_dist.y
        };
        let py = fx_add(pos.y, off);
        let b = CollBox { pos: Vec2Fx { x: pos.x, y: py }, half_dim: coll_dim };
        let in_world = match world_dim {
            Option::Some(dim) => 0 <= py && py <= dim.y,
            Option::None => true,
        };
        MultiCollider::check_intersection_slice(self.wall_colliders.as_slice(), &b) || !in_world
    }
}

} // verus!
