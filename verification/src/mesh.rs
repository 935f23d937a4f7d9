//! What a mesh of the document becomes when it is loaded: for each
//! primitive its index range and the bindings of the vertex attributes that
//! the renderer reads, or the error that refuses it.

use vstd::prelude::*;

use crate::buffers::{ElementBuffer, VertexArray, VertexAttribute};
use crate::commands::{Command, TRIANGLES};
use crate::document;
use crate::document::{Accessor, Attribute, DataType, Semantic};
use crate::scene::SceneError;

verus! {

/// One drawable unit: its vertex layout and its index range.
#[derive(Clone, Debug, PartialEq, Eq)]
pub struct Primitive {
    pub vao: VertexArray,
    pub ebo: ElementBuffer,
}

/// A mesh described for drawing: its primitives in document order.
#[derive(Clone, Debug, PartialEq, Eq)]
pub struct Mesh {
    pub primitives: Vec<Primitive>,
}

/// The attribute slot of a semantic that the renderer reads: positions in
/// slot 0, normals in slot 1, colors of any set in slot 2.
pub open spec fn attribute_location(semantic: Semantic) -> Option<u32> {
    match semantic {
        Semantic::Positions => Some(0u32),
        Semantic::Normals => Some(1u32),
        Semantic::Colors(_) => Some(2u32),
        _ => None,
    }
}

/// Whether an attribute is one that the renderer skips, or has the format
/// that its slot asks for: three single-precision components for positions
/// and normals, four for colors.
pub open spec fn format_accepted(attribute: Attribute) -> bool {
    match attribute_location(attribute.semantic) {
        Some(location) => expected_format(location, attribute.accessor),
        None => true,
    }
}

/// The attribute slot of a semantic that the renderer reads, if it reads
/// it.
pub fn attribute_slot(semantic: Semantic) -> (r: Option<u32>)
    ensures
        r == attribute_location(semantic),
{
    match semantic {
        Semantic::Positions => Some(0),
        Semantic::Normals => Some(1),
        Semantic::Colors(_) => Some(2),
        _ => None,
    }
}

/// Whether an accessor has the format that attribute slot `location` asks
/// for.
pub open spec fn expected_format(location: u32, accessor: Accessor) -> bool {
    &&& accessor.data_type == DataType::F32
    &&& accessor.dimensions.spec_multiplicity() == (if location == 2 {
        4usize
    } else {
        3usize
    })
}

/// Tests whether an accessor has the format that attribute slot `location`
/// asks for.
pub fn has_expected_format(location: u32, accessor: &Accessor) -> (b: bool)
    ensures
        b == expected_format(location, *accessor),
{
    let expected: usize = if location == 2 {
        4
    } else {
        3
    };
    accessor.data_type == DataType::F32 && accessor.dimensions.multiplicity() == expected
}

/// The byte offset of an accessor's first element within its buffer.
pub open spec fn byte_offset(accessor: Accessor) -> int {
    accessor.view.unwrap().offset + accessor.offset
}

/// The binding that a recognized attribute is given in slot `location`.
pub open spec fn binding_of(location: u32, accessor: Accessor) -> VertexAttribute {
    VertexAttribute {
        location,
        buffer: accessor.view.unwrap().buffer,
        num_components: accessor.dimensions.spec_multiplicity(),
        data_type: accessor.data_type.spec_as_gl_enum(),
        stride: match accessor.view.unwrap().stride {
            Some(stride) => stride,
            None => 0,
        },
        offset: byte_offset(accessor) as usize,
    }
}

/// The bindings of the recognized attributes among `attributes`, in their
/// order; the others are passed over.
pub open spec fn bindings_of(attributes: Seq<Attribute>) -> Seq<VertexAttribute>
    decreases attributes.len(),
{
    if attributes.len() == 0 {
        Seq::empty()
    } else {
        let before = bindings_of(attributes.drop_last());
        match attribute_location(attributes.last().semantic) {
            Some(location) => before.push(binding_of(location, attributes.last().accessor)),
            None => before,
        }
    }
}

/// The index range that an index accessor describes.
pub open spec fn element_buffer_of(indices: Accessor) -> ElementBuffer {
    ElementBuffer {
        num_elements: indices.count,
        element_type: indices.data_type.spec_as_gl_enum(),
        buffer_offset: byte_offset(indices) as usize,
    }
}

/// The error that keeps a primitive from being loaded, if there is one.
pub open spec fn primitive_error(primitive: document::Primitive) -> Option<SceneError> {
    if primitive.indices is None {
        Some(SceneError::UnsupportedPrimitive)
    } else if exists|i: int|
        0 <= i < primitive.attributes.len() && !format_accepted(#[trigger] primitive.attributes[i]) {
        Some(SceneError::UnexpectedAttributeFormat)
    } else {
        None
    }
}

/// The error of the first primitive in `primitives` that has one.
pub open spec fn mesh_error(primitives: Seq<document::Primitive>) -> Option<SceneError>
    decreases primitives.len(),
{
    if primitives.len() == 0 {
        None
    } else {
        match mesh_error(primitives.drop_last()) {
            Some(e) => Some(e),
            None => primitive_error(primitives.last()),
        }
    }
}

/// An error found among the first primitives of a mesh is the error of the
/// mesh.
pub proof fn lemma_mesh_error_stays(primitives: Seq<document::Primitive>, n: int)
    requires
        0 <= n <= primitives.len(),
        mesh_error(primitives.take(n)) is Some,
    ensures
        mesh_error(primitives) == mesh_error(primitives.take(n)),
    decreases primitives.len() - n,
{
    if n < primitives.len() {
        assert(primitives.take(n + 1).drop_last() == primitives.take(n));
        lemma_mesh_error_stays(primitives, n + 1);
    } else {
        assert(primitives.take(n) == primitives);
    }
}

/// The error of the first mesh in `meshes` that has one.
pub open spec fn document_error(meshes: Seq<document::Mesh>) -> Option<SceneError>
    decreases meshes.len(),
{
    if meshes.len() == 0 {
        None
    } else {
        match document_error(meshes.drop_last()) {
            Some(e) => Some(e),
            None => mesh_error(meshes.last().primitives@),
        }
    }
}

/// An error found among the first meshes of a document is the error of the
/// document.
pub proof fn lemma_document_error_stays(meshes: Seq<document::Mesh>, n: int)
    requires
        0 <= n <= meshes.len(),
        document_error(meshes.take(n)) is Some,
    ensures
        document_error(meshes) == document_error(meshes.take(n)),
    decreases meshes.len() - n,
{
    if n < meshes.len() {
        assert(meshes.take(n + 1).drop_last() == meshes.take(n));
        lemma_document_error_stays(meshes, n + 1);
    } else {
        assert(meshes.take(n) == meshes);
    }
}

/// The commands that draw `primitives`, the primitives of mesh `mesh`, one
/// after the other.
pub open spec fn mesh_commands(primitives: Seq<Primitive>, mesh: usize) -> Seq<Command>
    decreases primitives.len(),
{
    if primitives.len() == 0 {
        Seq::empty()
    } else {
        mesh_commands(primitives.drop_last(), mesh) + primitives.last().draw_commands(
            mesh,
            (primitives.len() - 1) as usize,
        )
    }
}

impl Primitive {
    /// The commands that draw this primitive, the `primitive`-th of mesh
    /// `mesh`: its vertex layout is bound, and its index range is drawn as
    /// a triangle list.
    pub open spec fn draw_commands(&self, mesh: usize, primitive: usize) -> Seq<Command> {
        seq![
            Command::BindVertexArray { mesh, primitive },
            Command::DrawElements {
                mode: TRIANGLES,
                count: self.ebo.num_elements,
                element_type: self.ebo.element_type,
                offset: self.ebo.buffer_offset,
            },
        ]
    }

    /// Appends the commands that draw this primitive.
    pub fn draw(&self, mesh: usize, primitive: usize, commands: &mut Vec<Command>)
        ensures
            final(commands)@ == old(commands)@ + self.draw_commands(mesh, primitive),
    {
        commands.push(Command::BindVertexArray { mesh, primitive });
        commands.push(
            Command::DrawElements {
                mode: TRIANGLES,
                count: self.ebo.num_elements,
                element_type: self.ebo.element_type,
                offset: self.ebo.buffer_offset,
            },
        );
    }

    /// Whether this primitive is what loads from `source`: the index range
    /// of its index accessor and the bindings of its recognized attributes.
    pub open spec fn loaded_from(&self, source: document::Primitive) -> bool {
        &&& source.indices is Some
        &&& self.ebo == element_buffer_of(source.indices.unwrap())
        &&& self.vao.attributes@ == bindings_of(source.attributes@)
    }

    /// Describes a primitive of the document for drawing. A primitive
    /// without indices is refused, and so is one with a position, normal or
    /// color attribute of an unexpected format.
    pub fn from_gltf(primitive: &document::Primitive) -> (r: Result<Primitive, SceneError>)
        requires
            primitive.well_formed(),
        ensures
            match r {
                Ok(p) => primitive_error(*primitive) is None && p.loaded_from(*primitive),
                Err(e) => primitive_error(*primitive) == Some(e),
            },
    {
        let indices = match primitive.indices {
            Some(indices) => indices,
            None => {
                return Err(SceneError::UnsupportedPrimitive);
            },
        };
        let indices_view = indices.view.unwrap();
        let ebo = ElementBuffer {
            num_elements: indices.count,
            element_type: indices.data_type.as_gl_enum(),
            buffer_offset: indices.offset + indices_view.offset,
        };

        let mut attributes: Vec<VertexAttribute> = Vec::new();
        let mut i: usize = 0;
        while i < primitive.attributes.len()
            invariant
                i <= primitive.attributes.len(),
                primitive.well_formed(),
                primitive.indices is Some,
                attributes@ == bindings_of(primitive.attributes@.take(i as int)),
                forall|j: int| 0 <= j < i ==> format_accepted(#[trigger] primitive.attributes[j]),
            decreases primitive.attributes.len() - i,
        {
            let attribute = primitive.attributes[i];
            assert(primitive.attributes@.take(i + 1).drop_last() == primitive.attributes@.take(
                i as int,
            ));
            if let Some(location) = attribute_slot(attribute.semantic) {
                let accessor = attribute.accessor;
                let buffer_view = accessor.view.unwrap();
                let stride = match buffer_view.stride {
                    Some(stride) => stride,
                    None => 0,
                };
                let offset = buffer_view.offset + accessor.offset;
                if !has_expected_format(location, &accessor) {
                    return Err(SceneError::UnexpectedAttributeFormat);
                }
                attributes.push(
                    VertexAttribute {
                        location,
                        buffer: buffer_view.buffer,
                        num_components: accessor.dimensions.multiplicity(),
                        data_type: accessor.data_type.as_gl_enum(),
                        stride,
                        offset,
                    },
                );
            }
            i += 1;
        }
        assert(primitive.attributes@.take(i as int) == primitive.attributes@);
        Ok(Primitive { vao: VertexArray { attributes }, ebo })
    }
}

impl Mesh {
    /// Whether this mesh is what loads from `source`, primitive by
    /// primitive.
    pub open spec fn loaded_from(&self, source: document::Mesh) -> bool {
        &&& self.primitives.len() == source.primitives.len()
        &&& forall|k: int|
            0 <= k < self.primitives.len() ==> (#[trigger] self.primitives[k]).loaded_from(
                source.primitives[k],
            )
    }

    /// Describes the primitives of a mesh in their order, or fails with the
    /// error of the first that cannot be loaded.
    pub fn from_gltf(mesh: &document::Mesh) -> (r: Result<Mesh, SceneError>)
        requires
            mesh.well_formed(),
        ensures
            match r {
                Ok(m) => mesh_error(mesh.primitives@) is None && m.loaded_from(*mesh),
                Err(e) => mesh_error(mesh.primitives@) == Some(e),
            },
    {
        let mut primitives: Vec<Primitive> = Vec::new();
        let mut k: usize = 0;
        while k < mesh.primitives.len()
            invariant
                k <= mesh.primitives.len(),
                mesh.well_formed(),
                primitives.len() == k,
                mesh_error(mesh.primitives@.take(k as int)) is None,
                forall|j: int|
                    0 <= j < k ==> (#[trigger] primitives[j]).loaded_from(mesh.primitives[j]),
            decreases mesh.primitives.len() - k,
        {
            assert(mesh.primitives@.take(k + 1).drop_last() == mesh.primitives@.take(k as int));
            match Primitive::from_gltf(&mesh.primitives[k]) {
                Ok(primitive) => {
                    primitives.push(primitive);
                },
                Err(e) => {
                    proof {
                        lemma_mesh_error_stays(mesh.primitives@, k + 1);
                    }
                    return Err(e);
                },
            }
            k += 1;
        }
        assert(mesh.primitives@.take(k as int) == mesh.primitives@);
        Ok(Mesh { primitives })
    }
}

} // verus!
