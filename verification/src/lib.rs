//! Verified core of the XastGE game engine: the archetype-based entity
//! component storage, keyboard and mouse button state, and the engine's
//! small data types and helpers.

pub mod ecs;
pub mod game;
pub mod gamepad;
pub mod input;
pub mod render;
pub mod scene;
pub mod ui;
pub mod utils;
pub mod window;

use vstd::prelude::*;

verus! {

/// Label of the systems that run once before the first frame.
pub struct Setup;

/// Label of the systems that run on every fixed update.
pub struct Update;

/// Label of the systems that run on every frame.
pub struct Render;

/// A random number shared with plugins.
pub struct RandomNumber {
    pub value: u16,
}

/// All three values, or none when any is missing.
pub fn zip3<A, B, C>(a: Option<A>, b: Option<B>, c: Option<C>) -> (r: Option<(A, B, C)>)
    ensures
        r == match (a, b, c) {
            (Some(x), Some(y), Some(z)) => Some((x, y, z)),
            _ => None,
        },
{
    match (a, b, c) {
        (Some(x), Some(y), Some(z)) => Some((x, y, z)),
        _ => None,
    }
}

} // verus!
