use vstd::prelude::*;

use crate::render::buffer::BufferHandle;

verus! {

/// Vertices and triangle indices, with the GPU buffers they are uploaded to
/// once set up.
pub struct Mesh<V: Send + Sync + 'static> {
    pub vertices: Vec<V>,
    pub indices: Vec<u32>,
    pub vertex_buffer: Option<BufferHandle>,
    pub index_buffer: Option<BufferHandle>,
}

impl<V: Send + Sync + 'static> Mesh<V> {
    /// A mesh that is not uploaded yet.
    pub fn new(vertices: Vec<V>, indices: Vec<u32>) -> (m: Mesh<V>)
        ensures
            m.vertices@ == vertices@,
            m.indices@ == indices@,
            m.vertex_buffer is None,
            m.index_buffer is None,
    {
        Mesh { vertices, indices, vertex_buffer: None, index_buffer: None }
    }
}

impl<V: Send + Sync + 'static> Default for Mesh<V> {
    fn default() -> (m: Mesh<V>)
        ensures
            m.vertices@ == Seq::<V>::empty(),
            m.indices@ == Seq::<u32>::empty(),
            m.vertex_buffer is None,
            m.index_buffer is None,
    {
        Mesh { vertices: Vec::new(), indices: Vec::new(), vertex_buffer: None, index_buffer: None }
    }
}

} // verus!
