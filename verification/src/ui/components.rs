use vstd::prelude::*;

verus! {

/// A text element of the user interface.
pub struct KirText {
    pub value: String,
}

/// Insets, in pixels, of the stretchable middle of a nine-patch image.
pub struct NinePatchConfig {
    pub left: u16,
    pub right: u16,
    pub top: u16,
    pub bottom: u16,
}

} // verus!
