pub mod atlas;
pub mod components;
pub mod key;
