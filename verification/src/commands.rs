use vstd::prelude::*;

use crate::matrix::Mat4;

verus! {

/// The drawing mode of an indexed triangle list.
pub const TRIANGLES: u32 = 0x0004;

/// One operation for the graphics API to carry out. A renderer hands its
/// commands out in the order in which they are to be issued.
#[derive(Clone, Copy, Debug, PartialEq, Eq)]
pub enum Command {
    /// Makes a program the active one.
    UseProgram { program: u32 },
    /// Uploads an integer uniform.
    Uniform1i { location: i32, value: i32 },
    /// Uploads a single-precision uniform, given by its encoding.
    Uniform1fv { location: i32, bits: u32 },
    /// Uploads a three-component vector uniform, given by its encodings.
    Uniform3fv { location: i32, vector: [u32; 3] },
    /// Uploads a 4x4 matrix uniform in column-major order.
    UniformMatrix4fv { location: i32, matrix: Mat4 },
    /// Binds the vertex layout of a primitive, named by its mesh and its
    /// place within the mesh.
    BindVertexArray { mesh: usize, primitive: usize },
    /// Draws indexed geometry from the bound vertex layout.
    DrawElements { mode: u32, count: usize, element_type: u32, offset: usize },
}

} // verus!
