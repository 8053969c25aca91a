//! Light placement: a light probe just above a wall picks the ceiling
//! variant, any other light the window variant.
use vstd::prelude::*;

use crate::collision::{spec_grid_hit, CollBox, MultiCollider};
use crate::fx::{fx_sat, fx_sub, Vec2Fx};

verus! {

/// How far above the light the ceiling probe sits.
pub const LIGHT_PROBE_DIST: i64 = 16000;

/// The zero-extent probe box used to classify a light.
pub open spec fn spec_light_probe(light_pos: Vec2Fx) -> CollBox {
    CollBox {
        pos: Vec2Fx { x: light_pos.x, y: fx_sat(light_pos.y - LIGHT_PROBE_DIST) as i64 },
        half_dim: Vec2Fx { x: 0, y: 0 },
    }
}

/// Classify a light source: `'c'` (ceiling) when the probe above it touches
/// a wall, `'w'` (window) otherwise.
pub fn assign_light_type(light_pos: Vec2Fx, world_man: &[MultiCollider]) -> (r: char)
    requires
        light_pos.wf(),
        forall|k: int| 0 <= k < world_man@.len() ==> (#[trigger] world_man@[k]).wf(),
    ensures
        r == (if spec_grid_hit(world_man@, spec_light_probe(light_pos)) {
            'c'
        } else {
            'w'
        }),
{
    let py = fx_sub(light_pos.y, LIGHT_PROBE_DIST);
    let probe = CollBox {
        pos: Vec2Fx { x: light_pos.x, y: py },
        half_dim: Vec2Fx { x: 0, y: 0 },
    };
    if MultiCollider::check_intersection_slice(world_man, &probe) {
        'c'
    } else {
        'w'
    }
}

} // verus!
