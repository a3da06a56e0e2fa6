use vstd::prelude::*;

verus! {

/// The screens of the game's user interface.
#[derive(Debug, Clone, Copy, PartialEq, Eq, Structural, PartialOrd, Ord, Hash)]
pub enum Screen {
    MainMenu,
}

} // verus!
