use vstd::prelude::*;

verus! {

/// Handle of a scene.
#[derive(Clone, Copy, PartialEq, Eq, PartialOrd, Ord)]
pub struct SceneHandle(pub slotmap::KeyData);

/// A level of the game: the scene it is made of.
pub struct Level(pub SceneHandle);

/// What the main menu shows.
pub enum MainMenuData {
    Home { heading: String, buttons: Vec<MainMenuButton>, hovered_button: isize },
    ChapterSelect {},
    SaveSelect,
    Settings,
}

/// A button of the main menu.
pub struct MainMenuButton {
    pub text: String,
}

} // verus!
