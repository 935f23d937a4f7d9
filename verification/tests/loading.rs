use scene_viewer::buffers::{ElementBuffer, VertexAttribute};
use scene_viewer::document::{
    Accessor, Attribute, BufferView, DataType, Dimensions, Document, Mesh, Node, Primitive, Semantic,
    Transform,
};
use scene_viewer::matrix::Mat4;
use scene_viewer::scene::{Scene, SceneError};

fn mat(columns: [[f32; 4]; 4]) -> Mat4 {
    Mat4 { columns: columns.map(|c| c.map(f32::to_bits)) }
}

fn floats(m: &Mat4) -> [[f32; 4]; 4] {
    m.columns.map(|c| c.map(f32::from_bits))
}

fn identity() -> Mat4 {
    mat([
        [1.0, 0.0, 0.0, 0.0],
        [0.0, 1.0, 0.0, 0.0],
        [0.0, 0.0, 1.0, 0.0],
        [0.0, 0.0, 0.0, 1.0],
    ])
}

fn translation(x: f32, y: f32, z: f32) -> Mat4 {
    mat([
        [1.0, 0.0, 0.0, 0.0],
        [0.0, 1.0, 0.0, 0.0],
        [0.0, 0.0, 1.0, 0.0],
        [x, y, z, 1.0],
    ])
}

fn scaling(s: f32) -> Mat4 {
    mat([
        [s, 0.0, 0.0, 0.0],
        [0.0, s, 0.0, 0.0],
        [0.0, 0.0, s, 0.0],
        [0.0, 0.0, 0.0, 1.0],
    ])
}

fn times(a: &Mat4, b: &Mat4) -> Mat4 {
    let lhs = nalgebra_glm::Mat4x4::from(floats(a));
    let rhs = nalgebra_glm::Mat4x4::from(floats(b));
    let out: [[f32; 4]; 4] = (lhs * rhs).into();
    mat(out)
}

fn node(mesh: Option<usize>, children: Vec<usize>, matrix: Mat4) -> Node {
    Node { mesh, children, transform: Transform::Matrix { matrix } }
}

fn view(buffer: usize, offset: usize, stride: Option<usize>) -> BufferView {
    BufferView { buffer, offset, stride }
}

fn accessor(
    count: usize,
    data_type: DataType,
    dimensions: Dimensions,
    offset: usize,
    view: Option<BufferView>,
) -> Accessor {
    Accessor { count, data_type, dimensions, offset, view }
}

fn indices(count: usize) -> Accessor {
    accessor(count, DataType::U16, Dimensions::Scalar, 0, Some(view(0, 0, None)))
}

fn positions() -> Attribute {
    Attribute {
        semantic: Semantic::Positions,
        accessor: accessor(3, DataType::F32, Dimensions::Vec3, 0, Some(view(0, 64, Some(12)))),
    }
}

fn triangle() -> Primitive {
    Primitive { indices: Some(indices(3)), attributes: vec![positions()] }
}

fn document(nodes: Vec<Node>, meshes: Vec<Mesh>, roots: Vec<usize>) -> Document {
    Document { nodes, meshes, default_scene: roots }
}

fn load(document: &Document) -> Result<Scene, SceneError> {
    assert!(document.is_well_formed());
    Scene::from(document)
}

#[test]
fn root_with_identity_and_no_children_stays_identity() {
    let doc = document(vec![node(None, vec![], identity())], vec![], vec![0]);
    let scene = load(&doc).unwrap();
    assert_eq!(scene.nodes().len(), 1);
    assert_eq!(scene.nodes()[0].transform, identity());
    assert_eq!(floats(&scene.nodes()[0].transform)[0][0], 1.0);
    assert_eq!(floats(&scene.nodes()[0].transform)[1][0], 0.0);
}

#[test]
fn root_keeps_its_local_transform() {
    let local = translation(1.0, 2.0, 3.0);
    let doc = document(vec![node(None, vec![], local)], vec![], vec![0]);
    let scene = load(&doc).unwrap();
    assert_eq!(scene.nodes()[0].transform, local);
}

#[test]
fn child_world_is_parent_world_times_local() {
    let root = translation(1.0, 2.0, 3.0);
    let child = scaling(2.0);
    let doc = document(
        vec![node(None, vec![1], root), node(None, vec![], child)],
        vec![],
        vec![0],
    );
    let scene = load(&doc).unwrap();
    let world = floats(&scene.nodes()[1].transform);
    assert_eq!(
        world,
        [
            [2.0, 0.0, 0.0, 0.0],
            [0.0, 2.0, 0.0, 0.0],
            [0.0, 0.0, 2.0, 0.0],
            [1.0, 2.0, 3.0, 1.0],
        ]
    );
    assert_ne!(scene.nodes()[1].transform, root);
    assert_ne!(scene.nodes()[1].transform, child);
}

#[test]
fn product_is_taken_in_root_to_leaf_order() {
    let root = scaling(2.0);
    let child = translation(1.0, 2.0, 3.0);
    let doc = document(
        vec![node(None, vec![1], root), node(None, vec![], child)],
        vec![],
        vec![0],
    );
    let scene = load(&doc).unwrap();
    let world = floats(&scene.nodes()[1].transform);
    assert_eq!(world[3], [2.0, 4.0, 6.0, 1.0]);
    assert_eq!(scene.nodes()[1].transform, times(&root, &child));
    assert_ne!(scene.nodes()[1].transform, times(&child, &root));
}

#[test]
fn world_is_the_product_along_the_path() {
    // 3 is the root; 3 -> 0 -> 2 and 3 -> 1; 4 is a second root with child 5.
    let l0 = translation(1.0, 0.0, 0.0);
    let l1 = scaling(3.0);
    let l2 = translation(0.0, 5.0, 0.0);
    let l3 = scaling(2.0);
    let l4 = translation(7.0, 7.0, 7.0);
    let l5 = scaling(0.5);
    let doc = document(
        vec![
            node(None, vec![2], l0),
            node(None, vec![], l1),
            node(None, vec![], l2),
            node(None, vec![0, 1], l3),
            node(None, vec![5], l4),
            node(None, vec![], l5),
        ],
        vec![],
        vec![3, 4],
    );
    let scene = load(&doc).unwrap();
    let nodes = scene.nodes();
    assert_eq!(nodes[3].transform, l3);
    assert_eq!(nodes[0].transform, times(&l3, &l0));
    assert_eq!(nodes[2].transform, times(&times(&l3, &l0), &l2));
    assert_eq!(nodes[1].transform, times(&l3, &l1));
    assert_eq!(nodes[4].transform, l4);
    assert_eq!(nodes[5].transform, times(&l4, &l5));
    assert_eq!(floats(&nodes[2].transform)[3], [2.0, 10.0, 0.0, 1.0]);
}

#[test]
fn unreachable_node_keeps_its_local_transform() {
    let orphan = translation(9.0, 8.0, 7.0);
    let orphan_child = scaling(4.0);
    let doc = document(
        vec![
            node(None, vec![], scaling(2.0)),
            node(None, vec![2], orphan),
            node(None, vec![], orphan_child),
        ],
        vec![],
        vec![0],
    );
    let scene = load(&doc).unwrap();
    assert_eq!(scene.nodes()[1].transform, orphan);
    assert_eq!(scene.nodes()[2].transform, orphan_child);
}

#[test]
fn nodes_keep_mesh_and_children() {
    let doc = document(
        vec![node(Some(0), vec![1], identity()), node(None, vec![], identity())],
        vec![Mesh { primitives: vec![triangle()] }],
        vec![0],
    );
    let scene = load(&doc).unwrap();
    assert_eq!(scene.nodes()[0].mesh_id, Some(0));
    assert_eq!(scene.nodes()[0].children_ids, vec![1]);
    assert_eq!(scene.nodes()[1].mesh_id, None);
    assert!(scene.nodes()[1].children_ids.is_empty());
}

#[test]
fn decomposed_transform_becomes_its_matrix() {
    let translation = [1.0f32, 2.0, 3.0];
    let rotation = [0.0f32, 0.0, 0.0, 1.0];
    let scale = [2.0f32, 3.0, 4.0];
    let transform = Transform::Decomposed {
        translation: translation.map(f32::to_bits),
        rotation: rotation.map(f32::to_bits),
        scale: scale.map(f32::to_bits),
    };
    let doc = document(vec![Node { mesh: None, children: vec![], transform }], vec![], vec![0]);
    let scene = load(&doc).unwrap();
    let expected = gltf::scene::Transform::Decomposed { translation, rotation, scale }.matrix();
    assert_eq!(floats(&scene.nodes()[0].transform), expected);
    assert_eq!(
        expected,
        [
            [2.0, 0.0, 0.0, 0.0],
            [0.0, 3.0, 0.0, 0.0],
            [0.0, 0.0, 4.0, 0.0],
            [1.0, 2.0, 3.0, 1.0],
        ]
    );
}

#[test]
fn decomposed_child_is_multiplied_onto_its_parent() {
    let transform = Transform::Decomposed {
        translation: [0.0f32, 1.0, 0.0].map(f32::to_bits),
        rotation: [0.0f32, 0.0, 0.0, 1.0].map(f32::to_bits),
        scale: [1.0f32, 1.0, 1.0].map(f32::to_bits),
    };
    let doc = document(
        vec![
            node(None, vec![1], scaling(2.0)),
            Node { mesh: None, children: vec![], transform },
        ],
        vec![],
        vec![0],
    );
    let scene = load(&doc).unwrap();
    assert_eq!(floats(&scene.nodes()[1].transform)[3], [0.0, 2.0, 0.0, 1.0]);
}

#[test]
fn primitive_without_indices_is_unsupported() {
    let doc = document(
        vec![node(Some(0), vec![], identity())],
        vec![Mesh { primitives: vec![Primitive { indices: None, attributes: vec![positions()] }] }],
        vec![0],
    );
    assert_eq!(load(&doc).unwrap_err(), SceneError::UnsupportedPrimitive);
}

#[test]
fn two_component_position_is_an_unexpected_format() {
    let position = Attribute {
        semantic: Semantic::Positions,
        accessor: accessor(3, DataType::F32, Dimensions::Vec2, 0, Some(view(0, 0, None))),
    };
    let doc = document(
        vec![node(Some(0), vec![], identity())],
        vec![Mesh { primitives: vec![Primitive { indices: Some(indices(3)), attributes: vec![position] }] }],
        vec![0],
    );
    assert_eq!(load(&doc).unwrap_err(), SceneError::UnexpectedAttributeFormat);
}

#[test]
fn position_of_another_component_type_is_an_unexpected_format() {
    let position = Attribute {
        semantic: Semantic::Positions,
        accessor: accessor(3, DataType::U16, Dimensions::Vec3, 0, Some(view(0, 0, None))),
    };
    let primitive = Primitive { indices: Some(indices(3)), attributes: vec![position] };
    assert_eq!(
        scene_viewer::mesh::Primitive::from_gltf(&primitive).unwrap_err(),
        SceneError::UnexpectedAttributeFormat
    );
}

#[test]
fn normal_and_color_formats_are_checked() {
    let normal = Attribute {
        semantic: Semantic::Normals,
        accessor: accessor(3, DataType::F32, Dimensions::Vec4, 0, Some(view(0, 0, None))),
    };
    let primitive = Primitive { indices: Some(indices(3)), attributes: vec![positions(), normal] };
    assert_eq!(
        scene_viewer::mesh::Primitive::from_gltf(&primitive).unwrap_err(),
        SceneError::UnexpectedAttributeFormat
    );
    let color = Attribute {
        semantic: Semantic::Colors(0),
        accessor: accessor(3, DataType::F32, Dimensions::Vec3, 0, Some(view(0, 0, None))),
    };
    let primitive = Primitive { indices: Some(indices(3)), attributes: vec![color] };
    assert_eq!(
        scene_viewer::mesh::Primitive::from_gltf(&primitive).unwrap_err(),
        SceneError::UnexpectedAttributeFormat
    );
}

#[test]
fn first_failing_primitive_decides_the_error() {
    let bad_format = Primitive {
        indices: Some(indices(3)),
        attributes: vec![Attribute {
            semantic: Semantic::Normals,
            accessor: accessor(3, DataType::F32, Dimensions::Scalar, 0, Some(view(0, 0, None))),
        }],
    };
    let no_indices = Primitive { indices: None, attributes: vec![] };
    let doc = document(
        vec![],
        vec![
            Mesh { primitives: vec![triangle(), bad_format.clone()] },
            Mesh { primitives: vec![no_indices.clone()] },
        ],
        vec![],
    );
    assert_eq!(load(&doc).unwrap_err(), SceneError::UnexpectedAttributeFormat);
    let doc = document(
        vec![],
        vec![Mesh { primitives: vec![no_indices, bad_format] }],
        vec![],
    );
    assert_eq!(load(&doc).unwrap_err(), SceneError::UnsupportedPrimitive);
}

#[test]
fn missing_indices_come_before_a_bad_attribute() {
    let primitive = Primitive {
        indices: None,
        attributes: vec![Attribute {
            semantic: Semantic::Positions,
            accessor: accessor(3, DataType::F32, Dimensions::Vec2, 0, Some(view(0, 0, None))),
        }],
    };
    assert_eq!(
        scene_viewer::mesh::Primitive::from_gltf(&primitive).unwrap_err(),
        SceneError::UnsupportedPrimitive
    );
}

#[test]
fn index_range_is_described() {
    let primitive = Primitive {
        indices: Some(accessor(36, DataType::U16, Dimensions::Scalar, 8, Some(view(2, 100, None)))),
        attributes: vec![],
    };
    let loaded = scene_viewer::mesh::Primitive::from_gltf(&primitive).unwrap();
    assert_eq!(
        loaded.ebo,
        ElementBuffer { num_elements: 36, buffer_offset: 108, element_type: 5123 }
    );
    assert!(loaded.vao.attributes.is_empty());
    let primitive = Primitive {
        indices: Some(accessor(6, DataType::U32, Dimensions::Scalar, 0, Some(view(0, 0, None)))),
        attributes: vec![],
    };
    let loaded = scene_viewer::mesh::Primitive::from_gltf(&primitive).unwrap();
    assert_eq!(loaded.ebo.element_type, gl::UNSIGNED_INT);
}

#[test]
fn recognized_attributes_are_bound_in_their_slots() {
    let primitive = Primitive {
        indices: Some(indices(3)),
        attributes: vec![
            Attribute {
                semantic: Semantic::TexCoords(0),
                accessor: accessor(3, DataType::F32, Dimensions::Vec2, 0, None),
            },
            Attribute {
                semantic: Semantic::Colors(1),
                accessor: accessor(3, DataType::F32, Dimensions::Vec4, 4, Some(view(1, 200, Some(16)))),
            },
            Attribute {
                semantic: Semantic::Normals,
                accessor: accessor(3, DataType::F32, Dimensions::Vec3, 12, Some(view(0, 24, Some(24)))),
            },
            Attribute {
                semantic: Semantic::Tangents,
                accessor: accessor(3, DataType::U8, Dimensions::Scalar, 0, None),
            },
            Attribute {
                semantic: Semantic::Positions,
                accessor: accessor(3, DataType::F32, Dimensions::Vec3, 0, Some(view(0, 24, None))),
            },
        ],
    };
    assert!(primitive.is_well_formed());
    let loaded = scene_viewer::mesh::Primitive::from_gltf(&primitive).unwrap();
    assert_eq!(
        loaded.vao.attributes,
        vec![
            VertexAttribute {
                location: 2,
                buffer: 1,
                num_components: 4,
                data_type: gl::FLOAT,
                stride: 16,
                offset: 204,
            },
            VertexAttribute {
                location: 1,
                buffer: 0,
                num_components: 3,
                data_type: 5126,
                stride: 24,
                offset: 36,
            },
            VertexAttribute {
                location: 0,
                buffer: 0,
                num_components: 3,
                data_type: 5126,
                stride: 0,
                offset: 24,
            },
        ]
    );
}

#[test]
fn four_component_matrix_passes_as_a_color() {
    let color = Attribute {
        semantic: Semantic::Colors(0),
        accessor: accessor(3, DataType::F32, Dimensions::Mat2, 0, Some(view(0, 0, None))),
    };
    let primitive = Primitive { indices: Some(indices(3)), attributes: vec![color] };
    let loaded = scene_viewer::mesh::Primitive::from_gltf(&primitive).unwrap();
    assert_eq!(loaded.vao.attributes[0].num_components, 4);
    assert_eq!(loaded.vao.attributes[0].location, 2);
}

#[test]
fn unrecognized_attributes_are_not_checked() {
    let primitive = Primitive {
        indices: Some(indices(3)),
        attributes: vec![
            Attribute {
                semantic: Semantic::Joints(0),
                accessor: accessor(3, DataType::U8, Dimensions::Mat4, 0, None),
            },
            Attribute {
                semantic: Semantic::Weights(2),
                accessor: accessor(3, DataType::I16, Dimensions::Mat3, 0, None),
            },
        ],
    };
    let loaded = scene_viewer::mesh::Primitive::from_gltf(&primitive).unwrap();
    assert!(loaded.vao.attributes.is_empty());
}

#[test]
fn meshes_are_loaded_in_document_order() {
    let doc = document(
        vec![],
        vec![
            Mesh { primitives: vec![triangle()] },
            Mesh { primitives: vec![] },
            Mesh {
                primitives: vec![
                    Primitive { indices: Some(indices(6)), attributes: vec![] },
                    Primitive { indices: Some(indices(9)), attributes: vec![positions()] },
                ],
            },
        ],
        vec![],
    );
    let scene = load(&doc).unwrap();
    let meshes = scene.meshes();
    assert_eq!(meshes.len(), 3);
    assert_eq!(meshes[0].primitives.len(), 1);
    assert_eq!(meshes[0].primitives[0].ebo.num_elements, 3);
    assert_eq!(meshes[0].primitives[0].vao.attributes.len(), 1);
    assert_eq!(meshes[1].primitives.len(), 0);
    assert_eq!(meshes[2].primitives[0].ebo.num_elements, 6);
    assert_eq!(meshes[2].primitives[1].ebo.num_elements, 9);
    assert_eq!(meshes[2].primitives[1].vao.attributes[0].offset, 64);
    assert_eq!(meshes[2].primitives[1].vao.attributes[0].stride, 12);
}

#[test]
fn empty_document_loads_to_an_empty_scene() {
    let doc = document(vec![], vec![], vec![]);
    let scene = load(&doc).unwrap();
    assert!(scene.nodes().is_empty());
    assert!(scene.meshes().is_empty());
}

#[test]
fn a_long_chain_is_resolved_to_its_end() {
    let count = 2000;
    let step = translation(1.0, 0.0, 0.0);
    let nodes: Vec<Node> = (0..count)
        .map(|i| node(None, if i + 1 < count { vec![i + 1] } else { vec![] }, step))
        .collect();
    let doc = document(nodes, vec![], vec![0]);
    let scene = load(&doc).unwrap();
    assert_eq!(floats(&scene.nodes()[0].transform)[3], [1.0, 0.0, 0.0, 1.0]);
    assert_eq!(floats(&scene.nodes()[9].transform)[3], [10.0, 0.0, 0.0, 1.0]);
    assert_eq!(floats(&scene.nodes()[count - 1].transform)[3], [count as f32, 0.0, 0.0, 1.0]);
}

#[test]
fn entries_that_are_not_numbers_stay_so() {
    let mut local = scaling(1.0);
    local.columns[3][0] = f32::NAN.to_bits();
    let doc = document(
        vec![node(None, vec![1], translation(1.0, 1.0, 1.0)), node(None, vec![], local)],
        vec![],
        vec![0],
    );
    let scene = load(&doc).unwrap();
    let world = floats(&scene.nodes()[1].transform);
    assert!(world[3][0].is_nan());
    assert_eq!(world[0], [1.0, 0.0, 0.0, 0.0]);
}

#[test]
fn root_keeps_unusual_entries_bit_for_bit() {
    let local = mat([
        [-0.0, f32::INFINITY, f32::MIN_POSITIVE / 2.0, 1.0e-38],
        [f32::NEG_INFINITY, f32::MAX, f32::MIN, 0.0],
        [1.0, -1.0, 0.5, -0.5],
        [3.25, -7.5, 1.0e30, 1.0],
    ]);
    let doc = document(vec![node(None, vec![], local)], vec![], vec![0]);
    let scene = load(&doc).unwrap();
    assert_eq!(scene.nodes()[0].transform.columns, local.columns);
}
