use vstd::prelude::*;

verus! {

/// The index range of one primitive: how many indices to draw, of which
/// type, and where they start in the bound index buffer.
#[derive(Clone, Copy, Debug, PartialEq, Eq, Structural)]
pub struct ElementBuffer {
    pub num_elements: usize,
    pub buffer_offset: usize,
    pub element_type: u32,
}

/// How one vertex attribute is laid out in buffer memory.
#[derive(Clone, Copy, Debug, PartialEq, Eq, Structural)]
pub struct VertexAttribute {
    /// The attribute slot that the shader reads.
    pub location: u32,
    /// Index of the buffer that holds the data.
    pub buffer: usize,
    pub num_components: usize,
    /// The graphics API's enumerant for the component type.
    pub data_type: u32,
    /// Distance between consecutive elements in bytes; 0 where they are
    /// tightly packed.
    pub stride: usize,
    /// Offset of the first element within the buffer, in bytes.
    pub offset: usize,
}

/// The vertex layout of one primitive: its attribute bindings in the order
/// in which they are to be made.
#[derive(Clone, Debug, PartialEq, Eq)]
pub struct VertexArray {
    pub attributes: Vec<VertexAttribute>,
}

} // verus!
