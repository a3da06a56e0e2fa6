pub mod archetype;
pub mod component;
pub mod world;
pub mod laws;
pub mod tuple_laws;
pub mod system;
