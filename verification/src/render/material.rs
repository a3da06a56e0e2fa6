use vstd::prelude::*;

use crate::render::texture::TextureHandle;

verus! {

/// Material that draws a cube map around the scene.
#[derive(Clone)]
pub struct SkyboxMaterial {
    pub cubemap: TextureHandle,
}

impl SkyboxMaterial {
    pub fn new(cubemap: TextureHandle) -> (m: SkyboxMaterial)
        ensures
            m.cubemap == cubemap,
    {
        SkyboxMaterial { cubemap }
    }
}

} // verus!
