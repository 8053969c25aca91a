//! Declarative particle emission requests. The core only decides what to
//! emit; rendering them is the caller's business.
use vstd::prelude::*;

use crate::fx::Vec2Fx;

verus! {

/// The shape family a particle burst is drawn with.
#[derive(Clone, Copy, PartialEq, Eq, Structural, Debug)]
pub enum ParticleKind {
    Circle,
    Dust,
}

/// One emission request: `count` particles travelling from around `from`
/// (within `from_rad`) to around `to` (within `to_rad`) over `lifetime`,
/// fading along the palette row `color_fade`.
#[derive(Clone, Copy, PartialEq, Eq, Structural, Debug)]
pub struct ParticleRequest {
    pub count: u32,
    pub from: Vec2Fx,
    pub from_rad: i64,
    pub to: Vec2Fx,
    pub to_rad: i64,
    pub lifetime: i64,
    pub color_fade: u8,
    pub renderer: ParticleKind,
}

} // verus!
