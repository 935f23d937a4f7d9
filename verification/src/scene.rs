use vstd::prelude::*;

use crate::commands::Command;
use crate::document;
use crate::document::Document;
use crate::matrix::Mat4;
use crate::mesh::{document_error, lemma_document_error_stays, mesh_commands, Mesh};
use crate::shader::{Program, ShaderError};
use crate::transforms::{update_transforms, Node};

verus! {

/// Why a scene could not be loaded or drawn.
#[derive(Clone, Debug, PartialEq, Eq)]
pub enum SceneError {
    /// A primitive has no index accessor; only indexed geometry is drawn.
    UnsupportedPrimitive,
    /// A position, normal or color attribute has another component type or
    /// count than the renderer reads.
    UnexpectedAttributeFormat,
    /// The shader refused a uniform while the scene was drawn.
    ShaderError(ShaderError),
}

/// A loaded scene: its nodes with their world transforms resolved, and its
/// meshes described for drawing. Every mesh that a node names exists.
#[derive(Debug)]
pub struct Scene {
    nodes: Vec<Node>,
    meshes: Vec<Mesh>,
}

/// Whether one of `nodes` has a mesh.
pub open spec fn has_mesh(nodes: Seq<Node>) -> bool {
    exists|n: int| 0 <= n < nodes.len() && (#[trigger] nodes[n]).mesh_id is Some
}

/// The commands that draw one node: nothing for a node without a mesh, else
/// the upload of the node's world transform as the model matrix and then
/// the commands that draw the primitives of its mesh.
pub open spec fn node_commands(node: Node, meshes: Seq<Mesh>, model: i32) -> Seq<Command> {
    match node.mesh_id {
        Some(mesh) => seq![Command::UniformMatrix4fv { location: model, matrix: node.transform }]
            + mesh_commands(meshes[mesh as int].primitives@, mesh),
        None => Seq::empty(),
    }
}

/// The commands that draw `nodes`, one after the other.
pub open spec fn nodes_commands(nodes: Seq<Node>, meshes: Seq<Mesh>, model: i32) -> Seq<Command>
    decreases nodes.len(),
{
    if nodes.len() == 0 {
        Seq::empty()
    } else {
        nodes_commands(nodes.drop_last(), meshes, model) + node_commands(nodes.last(), meshes, model)
    }
}

impl Scene {
    #[verifier::type_invariant]
    spec fn meshes_exist(&self) -> bool {
        forall|n: int|
            0 <= n < self.nodes.len() ==> ((#[trigger] self.nodes[n]).mesh_id matches Some(m) ==> m
                < self.meshes.len())
    }

    /// The nodes of the scene, in document order.
    pub closed spec fn node_seq(&self) -> Seq<Node> {
        self.nodes@
    }

    /// The meshes of the scene, in document order.
    pub closed spec fn mesh_seq(&self) -> Seq<Mesh> {
        self.meshes@
    }

    /// Whether this scene is what loads from `document`: node by node the
    /// document's mesh reference and children with the node's world
    /// transform, and mesh by mesh the description of the document's
    /// primitives.
    pub open spec fn loaded_from(&self, document: Document) -> bool {
        &&& self.node_seq().len() == document.nodes.len()
        &&& forall|n: int|
            0 <= n < document.nodes.len() ==> {
                &&& (#[trigger] self.node_seq()[n]).mesh_id == document.nodes[n].mesh
                &&& self.node_seq()[n].children_ids@ == document.nodes[n].children@
                &&& self.node_seq()[n].transform@ == document.world(n)
            }
        &&& self.mesh_seq().len() == document.meshes.len()
        &&& forall|m: int|
            0 <= m < document.meshes.len() ==> (#[trigger] self.mesh_seq()[m]).loaded_from(
                document.meshes[m],
            )
    }

    /// Loads a scene from an imported document. Every node's world
    /// transform is resolved by a depth-first walk from the roots of the
    /// default scene: a root keeps its local transform, a child's is its
    /// parent's world transform times its own local one, and a node that
    /// the walk does not reach keeps its local transform. Every primitive is
    /// described for drawing; loading fails with the error of the first
    /// primitive, in document order, that cannot be.
    pub fn from(document: &Document) -> (r: Result<Scene, SceneError>)
        requires
            document.well_formed(),
        ensures
            match r {
                Ok(scene) => document_error(document.meshes@) is None && scene.loaded_from(*document),
                Err(e) => document_error(document.meshes@) == Some(e),
            },
    {
        // Create nodes
        let mut nodes: Vec<Node> = Vec::new();
        let mut n: usize = 0;
        while n < document.nodes.len()
            invariant
                n <= document.nodes.len(),
                nodes.len() == n,
                forall|j: int| 0 <= j < n ==> (#[trigger] nodes[j]).copied_from(document.nodes[j]),
            decreases document.nodes.len() - n,
        {
            nodes.push(Node::from_gltf(&document.nodes[n]));
            n += 1;
        }

        // Store final transforms in each node
        update_transforms(document, &mut nodes);

        // Create meshes
        let mut meshes: Vec<Mesh> = Vec::new();
        let mut m: usize = 0;
        while m < document.meshes.len()
            invariant
                m <= document.meshes.len(),
                document.well_formed(),
                meshes.len() == m,
                document_error(document.meshes@.take(m as int)) is None,
                forall|j: int|
                    0 <= j < m ==> (#[trigger] meshes[j]).loaded_from(document.meshes[j]),
            decreases document.meshes.len() - m,
        {
            assert(document.meshes@.take(m + 1).drop_last() == document.meshes@.take(m as int));
            match Mesh::from_gltf(&document.meshes[m]) {
                Ok(mesh) => {
                    meshes.push(mesh);
                },
                Err(e) => {
                    proof {
                        lemma_document_error_stays(document.meshes@, m + 1);
                    }
                    return Err(e);
                },
            }
            m += 1;
        }
        assert(document.meshes@.take(m as int) == document.meshes@);
        Ok(Scene { nodes, meshes })
    }

    /// The commands of one frame: the program is made active, the
    /// projection and the view matrix are uploaded, and then every node is
    /// drawn in document order.
    pub open spec fn frame_commands(&self, proj: Mat4, view: Mat4, shader: Program) -> Seq<Command> {
        seq![
            Command::UseProgram { program: shader.id },
            Command::UniformMatrix4fv { location: shader.location("proj"@), matrix: proj },
            Command::UniformMatrix4fv { location: shader.location("view"@), matrix: view },
        ] + nodes_commands(self.node_seq(), self.mesh_seq(), shader.location("model"@))
    }

    /// The uniform that a frame needs and the shader lacks, if there is
    /// one: the projection matrix first, then the view matrix, then the
    /// model matrix where a node has a mesh.
    pub open spec fn missing_uniform(&self, shader: Program) -> Option<Seq<char>> {
        if shader.location("proj"@) < 0 {
            Some("proj"@)
        } else if shader.location("view"@) < 0 {
            Some("view"@)
        } else if shader.location("model"@) < 0 && has_mesh(self.node_seq()) {
            Some("model"@)
        } else {
            None
        }
    }

    /// What drawing a frame gives: the frame's commands where the shader
    /// has every uniform that the frame needs, else the error that names
    /// the first that is missing.
    pub open spec fn drawn(
        &self,
        proj: Mat4,
        view: Mat4,
        shader: Program,
        r: Result<Vec<Command>, SceneError>,
    ) -> bool {
        match r {
            Ok(commands) => {
                &&& self.missing_uniform(shader) is None
                &&& commands@ == self.frame_commands(proj, view, shader)
            },
            Err(e) => {
                &&& e matches SceneError::ShaderError(
                    ShaderError::UniformLocationNotFound { name },
                )
                &&& self.missing_uniform(shader) == Some(name@)
            },
        }
    }

    /// Draw all nodes in the scene: the commands of one frame, in the order
    /// in which they are to be issued.
    pub fn draw(&self, proj: &Mat4, view: &Mat4, shader: &Program) -> (r: Result<
        Vec<Command>,
        SceneError,
    >)
        ensures
            self.drawn(*proj, *view, *shader, r),
    {
        proof {
            use_type_invariant(self);
        }
        let mut commands: Vec<Command> = Vec::new();
        commands.push(shader.set_used());
        match shader.set_mat4("proj", proj) {
            Ok(command) => commands.push(command),
            Err(e) => {
                return Err(SceneError::ShaderError(e));
            },
        }
        match shader.set_mat4("view", view) {
            Ok(command) => commands.push(command),
            Err(e) => {
                return Err(SceneError::ShaderError(e));
            },
        }
        let ghost start = commands@;
        let ghost model = shader.location("model"@);
        assert(start == seq![
            Command::UseProgram { program: shader.id },
            Command::UniformMatrix4fv { location: shader.location("proj"@), matrix: *proj },
            Command::UniformMatrix4fv { location: shader.location("view"@), matrix: *view },
        ]);
        let mut n: usize = 0;
        while n < self.nodes.len()
            invariant
                n <= self.nodes.len(),
                self.meshes_exist(),
                model == shader.location("model"@),
                shader.location("proj"@) >= 0,
                shader.location("view"@) >= 0,
                model < 0 ==> !has_mesh(self.nodes@.take(n as int)),
                commands@ == start + nodes_commands(self.nodes@.take(n as int), self.meshes@, model),
            decreases self.nodes.len() - n,
        {
            assert(self.nodes@.take(n + 1).drop_last() == self.nodes@.take(n as int));
            let node = &self.nodes[n];
            if let Some(mesh_id) = node.mesh_id {
                match shader.set_mat4("model", &node.transform) {
                    Ok(command) => commands.push(command),
                    Err(e) => {
                        return Err(SceneError::ShaderError(e));
                    },
                }
                let mesh = &self.meshes[mesh_id];
                let ghost upload = commands@;
                let mut k: usize = 0;
                while k < mesh.primitives.len()
                    invariant
                        k <= mesh.primitives.len(),
                        commands@ == upload + mesh_commands(
                            mesh.primitives@.take(k as int),
                            mesh_id,
                        ),
                    decreases mesh.primitives.len() - k,
                {
                    assert(mesh.primitives@.take(k + 1).drop_last() == mesh.primitives@.take(
                        k as int,
                    ));
                    mesh.primitives[k].draw(mesh_id, k, &mut commands);
                    k += 1;
                }
                assert(mesh.primitives@.take(k as int) == mesh.primitives@);
            }
            assert(commands@ == start + nodes_commands(
                self.nodes@.take(n + 1),
                self.meshes@,
                model,
            ));
            n += 1;
        }
        assert(self.nodes@.take(n as int) == self.nodes@);
        Ok(commands)
    }

    /// The nodes of the scene, in document order.
    pub fn nodes(&self) -> (r: &Vec<Node>)
        ensures
            r@ == self.node_seq(),
    {
        &self.nodes
    }

    /// The meshes of the scene, in document order.
    pub fn meshes(&self) -> (r: &Vec<Mesh>)
        ensures
            r@ == self.mesh_seq(),
    {
        &self.meshes
    }
}

/// In a scene loaded from a forest, a node that a path from a root leads to
/// holds the product of the local transforms along that path, the root's
/// first.
pub proof fn world_is_product_along_path(scene: Scene, document: Document, path: Seq<int>)
    requires
        document.hierarchy_well_formed(),
        scene.loaded_from(document),
        document.is_path(path),
    ensures
        0 <= path.last() < scene.node_seq().len(),
        scene.node_seq()[path.last()].transform@ == document.path_product(path),
{
    document.lemma_path_in_range(path, path.len() - 1);
    document.lemma_world_along_path(path);
}

/// In a scene loaded from a forest, a root holds its own local transform.
pub proof fn root_keeps_local_transform(scene: Scene, document: Document, i: int)
    requires
        document.hierarchy_well_formed(),
        scene.loaded_from(document),
        0 <= i < document.roots().len(),
    ensures
        0 <= document.root_at(i) < scene.node_seq().len(),
        scene.node_seq()[document.root_at(i)].transform@ == document.local(document.root_at(i)),
{
    world_is_product_along_path(scene, document, seq![document.root_at(i)]);
}

/// In a loaded scene, a node that no path from a root leads to holds its
/// own local transform.
pub proof fn unreachable_keeps_local_transform(scene: Scene, document: Document, n: int)
    requires
        scene.loaded_from(document),
        0 <= n < document.nodes.len(),
        !document.reachable(n),
    ensures
        scene.node_seq()[n].transform@ == document.local(n),
{
}

/// What a frame binds and draws after its first three commands, which make
/// the program active and upload the camera's two matrices, does not depend
/// on the camera.
pub proof fn draw_calls_ignore_camera(
    scene: Scene,
    shader: Program,
    proj_a: Mat4,
    view_a: Mat4,
    proj_b: Mat4,
    view_b: Mat4,
)
    ensures
        scene.frame_commands(proj_a, view_a, shader).skip(3) == scene.frame_commands(
            proj_b,
            view_b,
            shader,
        ).skip(3),
{
    let rest = nodes_commands(scene.node_seq(), scene.mesh_seq(), shader.location("model"@));
    assert(scene.frame_commands(proj_a, view_a, shader).skip(3) =~= rest);
    assert(scene.frame_commands(proj_b, view_b, shader).skip(3) =~= rest);
}

/// What came of drawing a frame: the commands, or the name of the uniform
/// that the error reports.
pub open spec fn draw_outcome(r: Result<Vec<Command>, SceneError>) -> Result<Seq<Command>, Seq<char>> {
    match r {
        Ok(commands) => Ok(commands@),
        Err(SceneError::ShaderError(ShaderError::UniformLocationNotFound { name })) => Err(name@),
        Err(_) => Err(Seq::empty()),
    }
}

/// Drawing the same scene twice with the same camera and the same shader
/// gives the same commands, uniform values included bit for bit, or twice
/// the error that names the same uniform.
pub proof fn drawing_twice_gives_the_same(
    scene: Scene,
    proj: Mat4,
    view: Mat4,
    shader: Program,
    first: Result<Vec<Command>, SceneError>,
    second: Result<Vec<Command>, SceneError>,
)
    requires
        scene.drawn(proj, view, shader, first),
        scene.drawn(proj, view, shader, second),
    ensures
        draw_outcome(first) == draw_outcome(second),
{
}

} // verus!
