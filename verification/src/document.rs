use vstd::prelude::*;

use crate::matrix::{canonical, Mat4};

verus! {

/// The type of the components of an accessor's elements.
#[derive(Clone, Copy, Debug, PartialEq, Eq, Structural)]
pub enum DataType {
    I8,
    U8,
    I16,
    U16,
    U32,
    F32,
}

/// The shape of an accessor's elements.
#[derive(Clone, Copy, Debug, PartialEq, Eq, Structural)]
pub enum Dimensions {
    Scalar,
    Vec2,
    Vec3,
    Vec4,
    Mat2,
    Mat3,
    Mat4,
}

/// The role that a vertex attribute plays.
#[derive(Clone, Copy, Debug, PartialEq, Eq, Structural)]
pub enum Semantic {
    Positions,
    Normals,
    Tangents,
    Colors(u32),
    TexCoords(u32),
    Joints(u32),
    Weights(u32),
}

/// A window into one of the document's buffers.
#[derive(Clone, Copy, Debug, PartialEq, Eq, Structural)]
pub struct BufferView {
    /// Index of the buffer that the view looks into.
    pub buffer: usize,
    /// Offset of the view within its buffer, in bytes.
    pub offset: usize,
    /// Distance between consecutive elements in bytes, where the document
    /// gives one.
    pub stride: Option<usize>,
}

/// A typed sequence of elements stored in a buffer view.
#[derive(Clone, Copy, Debug, PartialEq, Eq, Structural)]
pub struct Accessor {
    /// Number of elements.
    pub count: usize,
    pub data_type: DataType,
    pub dimensions: Dimensions,
    /// Offset of the first element within the view, in bytes.
    pub offset: usize,
    /// The view that holds the elements; a sparse accessor may have none.
    pub view: Option<BufferView>,
}

/// One vertex attribute of a primitive.
#[derive(Clone, Copy, Debug, PartialEq, Eq, Structural)]
pub struct Attribute {
    pub semantic: Semantic,
    pub accessor: Accessor,
}

/// One drawable unit of a mesh as the document describes it.
#[derive(Clone, Debug, PartialEq, Eq)]
pub struct Primitive {
    pub indices: Option<Accessor>,
    pub attributes: Vec<Attribute>,
}

/// A mesh as the document describes it: its primitives in their order.
#[derive(Clone, Debug, PartialEq, Eq)]
pub struct Mesh {
    pub primitives: Vec<Primitive>,
}

/// How a node is placed relative to its parent.
#[derive(Clone, Copy, Debug, PartialEq, Eq)]
pub enum Transform {
    /// A 4x4 matrix.
    Matrix { matrix: Mat4 },
    /// Translation `[x, y, z]`, rotation quaternion `[x, y, z, w]` and scale
    /// `[x, y, z]`, each component an IEEE-754 single-precision encoding.
    Decomposed { translation: [u32; 3], rotation: [u32; 4], scale: [u32; 3] },
}

/// A node of the hierarchy as the document describes it.
#[derive(Clone, Debug, PartialEq, Eq)]
pub struct Node {
    pub mesh: Option<usize>,
    pub children: Vec<usize>,
    pub transform: Transform,
}

/// An imported scene description: nodes and meshes by index, and the roots
/// of the default scene.
#[derive(Clone, Debug, PartialEq, Eq)]
pub struct Document {
    pub nodes: Vec<Node>,
    pub meshes: Vec<Mesh>,
    /// The root nodes of the default scene.
    pub default_scene: Vec<usize>,
}

impl Accessor {
    /// Whether the accessor's elements can be located: it has a buffer
    /// view, and the byte offset of its first element within the buffer
    /// fits the machine's word.
    pub open spec fn addressable(self) -> bool {
        &&& self.view is Some
        &&& self.view.unwrap().offset + self.offset <= usize::MAX
    }
}

impl DataType {
    /// The graphics API's enumerant for the component type.
    pub open spec fn spec_as_gl_enum(self) -> u32 {
        match self {
            DataType::I8 => 5120,
            DataType::U8 => 5121,
            DataType::I16 => 5122,
            DataType::U16 => 5123,
            DataType::U32 => 5125,
            DataType::F32 => 5126,
        }
    }

    /// Calls `gltf::accessor::DataType::as_gl_enum` on the variant of the
    /// same name. The contract states the table that the method's source
    /// holds: `GL_BYTE`, `GL_UNSIGNED_BYTE`, `GL_SHORT`, `GL_UNSIGNED_SHORT`,
    /// `GL_UNSIGNED_INT`, `GL_FLOAT`.
    #[verifier::external_body]
    pub(crate) fn as_gl_enum(self) -> (r: u32)
        ensures
            r == self.spec_as_gl_enum(),
    {
        let outside = match self {
            DataType::I8 => gltf::accessor::DataType::I8,
            DataType::U8 => gltf::accessor::DataType::U8,
            DataType::I16 => gltf::accessor::DataType::I16,
            DataType::U16 => gltf::accessor::DataType::U16,
            DataType::U32 => gltf::accessor::DataType::U32,
            DataType::F32 => gltf::accessor::DataType::F32,
        };
        outside.as_gl_enum()
    }
}

impl Dimensions {
    /// The number of scalar components of one element.
    pub open spec fn spec_multiplicity(self) -> usize {
        match self {
            Dimensions::Scalar => 1,
            Dimensions::Vec2 => 2,
            Dimensions::Vec3 => 3,
            Dimensions::Vec4 => 4,
            Dimensions::Mat2 => 4,
            Dimensions::Mat3 => 9,
            Dimensions::Mat4 => 16,
        }
    }

    /// Calls `gltf::accessor::Dimensions::multiplicity` on the variant of
    /// the same name. The contract states the table that the method's
    /// source holds.
    #[verifier::external_body]
    pub(crate) fn multiplicity(self) -> (r: usize)
        ensures
            r == self.spec_multiplicity(),
    {
        let outside = match self {
            Dimensions::Scalar => gltf::accessor::Dimensions::Scalar,
            Dimensions::Vec2 => gltf::accessor::Dimensions::Vec2,
            Dimensions::Vec3 => gltf::accessor::Dimensions::Vec3,
            Dimensions::Vec4 => gltf::accessor::Dimensions::Vec4,
            Dimensions::Mat2 => gltf::accessor::Dimensions::Mat2,
            Dimensions::Mat3 => gltf::accessor::Dimensions::Mat3,
            Dimensions::Mat4 => gltf::accessor::Dimensions::Mat4,
        };
        outside.multiplicity()
    }
}

/// The canonical encodings of the matrix `translation * rotation * scale`
/// that a decomposed transform stands for, as single-precision arithmetic
/// computes it from the canonical encodings of the three parts.
pub uninterp spec fn decomposed_matrix(
    translation: Seq<u32>,
    rotation: Seq<u32>,
    scale: Seq<u32>,
) -> Seq<u32>;

/// The canonical encodings of a sequence of single-precision encodings.
pub open spec fn canonical_seq(bits: Seq<u32>) -> Seq<u32> {
    bits.map_values(|b: u32| canonical(b))
}

impl Transform {
    /// The matrix that the transform stands for, by its canonical
    /// encodings in column-major order.
    pub open spec fn spec_matrix(self) -> Seq<u32> {
        match self {
            Transform::Matrix { matrix } => matrix@,
            Transform::Decomposed { translation, rotation, scale } => decomposed_matrix(
                canonical_seq(translation@),
                canonical_seq(rotation@),
                canonical_seq(scale@),
            ),
        }
    }

    /// Calls `gltf::scene::Transform::matrix`. The contract claims that a
    /// matrix comes back as it is, and that the matrix of a decomposed
    /// transform, NaNs taken as one value, depends only on the three parts,
    /// NaNs taken as one value: the method builds it with single-precision
    /// multiplications, additions and subtractions alone.
    #[verifier::external_body]
    pub(crate) fn matrix(&self) -> (r: Mat4)
        ensures
            match *self {
                Transform::Matrix { matrix } => r@ == matrix@,
                Transform::Decomposed { translation, rotation, scale } => r@ == decomposed_matrix(
                    canonical_seq(translation@),
                    canonical_seq(rotation@),
                    canonical_seq(scale@),
                ),
            },
    {
        let outside = match *self {
            Transform::Matrix { matrix } => gltf::scene::Transform::Matrix {
                matrix: matrix.columns.map(|c| c.map(nalgebra_glm::uint_bits_to_float_scalar)),
            },
            Transform::Decomposed { translation, rotation, scale } => gltf::scene::Transform::Decomposed {
                translation: translation.map(nalgebra_glm::uint_bits_to_float_scalar),
                rotation: rotation.map(nalgebra_glm::uint_bits_to_float_scalar),
                scale: scale.map(nalgebra_glm::uint_bits_to_float_scalar),
            },
        };
        Mat4 { columns: outside.matrix().map(|c| c.map(nalgebra_glm::float_bits_to_uint)) }
    }
}

} // verus!
