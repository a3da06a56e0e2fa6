use vstd::prelude::*;

verus! {

/// Side length in pixels of the glyph atlas for a font size: 1024 above 28,
/// 512 for other positive sizes, none for size zero.
pub fn atlas_size(font_size: u32) -> (size: Option<usize>)
    ensures
        size == if font_size > 28 {
            Some(1024usize)
        } else if font_size > 0 {
            Some(512usize)
        } else {
            None::<usize>
        },
{
    if font_size > 28 {
        Some(1024)
    } else if font_size > 0 {
        Some(512)
    } else {
        None
    }
}

/// What registering a glyph atlas for a font size does.
#[derive(Debug, Clone, Copy, PartialEq, Eq, Structural)]
pub enum AtlasRegistration {
    /// The font already has an atlas for this size, which is kept.
    AlreadyExists,
    /// No atlas can be made for this size.
    InvalidSize,
    /// An atlas of this side length is rasterised and registered.
    Build { atlas_size: usize },
}

/// The registration decision for `font_size`, given whether the font
/// already has an atlas for it: an existing atlas is kept, size zero gets
/// none, and any other size gets an atlas of [`atlas_size`].
pub fn atlas_registration(already_registered: bool, font_size: u32) -> (r: AtlasRegistration)
    ensures
        r == if already_registered {
            AtlasRegistration::AlreadyExists
        } else if font_size == 0 {
            AtlasRegistration::InvalidSize
        } else {
            AtlasRegistration::Build { atlas_size: if font_size > 28 { 1024usize } else { 512usize } }
        },
{
    if already_registered {
        return AtlasRegistration::AlreadyExists;
    }
    match atlas_size(font_size) {
        Some(size) => AtlasRegistration::Build { atlas_size: size },
        None => AtlasRegistration::InvalidSize,
    }
}

} // verus!
