use vstd::prelude::*;

use crate::ecs::world::World;

verus! {

/// Logic that runs over the whole world.
pub trait System {
    fn execute(&self, world: &mut World);
}

} // verus!
