//! A falling-sand cellular automaton: a fixed-size grid of typed cells,
//! advanced one tick at a time by per-material rules (gravity, liquid flow,
//! quenching, melting, explosions), plus two deterministic procedural
//! texture generators for rendering.

pub mod circle;
pub mod grid;
pub mod material;
pub mod rng;
pub mod rules;
pub mod session;
pub mod sim;
pub mod texture;
