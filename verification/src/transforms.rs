//! The walk that resolves world transforms down the node hierarchy.

use vstd::prelude::*;

use crate::document;
use crate::document::Document;
use crate::matrix::{product, Mat4};

verus! {

/// A node of a scene: the mesh that it shows, its children, and its
/// transform.
#[derive(Clone, Debug, PartialEq, Eq)]
pub struct Node {
    pub mesh_id: Option<usize>,
    pub children_ids: Vec<usize>,
    /// The final transform matrix (including parent transforms).
    pub transform: Mat4,
}

impl Node {
    /// Whether this node is what `source` says before any transform is
    /// resolved: its mesh, its children, and its local transform.
    pub open spec fn copied_from(&self, source: document::Node) -> bool {
        &&& self.mesh_id == source.mesh
        &&& self.children_ids@ == source.children@
        &&& self.transform@ == source.transform.spec_matrix()
    }

    /// Copies a node of the document, its transform as a matrix.
    pub fn from_gltf(node: &document::Node) -> (r: Node)
        ensures
            r.copied_from(*node),
    {
        Node {
            mesh_id: node.mesh,
            children_ids: node.children.clone(),
            transform: node.transform.matrix(),
        }
    }
}

/// Resolves the world transforms of all nodes below `index`, whose own
/// transform is resolved already: each child's transform becomes its
/// parent's resolved transform times its own local transform, children
/// first to last and depth first. `path` is the way from a root to `index`.
/// Every node below `index` comes to hold its world transform, and no other
/// node is touched.
pub(crate) fn recursive_update_transforms(
    document: &Document,
    index: usize,
    nodes: &mut Vec<Node>,
    Ghost(path): Ghost<Seq<int>>,
)
    requires
        document.hierarchy_well_formed(),
        document.is_path(path),
        path.last() == index,
        old(nodes).len() == document.nodes.len(),
        index < old(nodes).len(),
        old(nodes)[index as int].transform@ == document.world(index as int),
        forall|m: int|
            0 <= m < old(nodes).len() && document.below(path, m) && m != index
                ==> (#[trigger] old(nodes)[m]).transform@ == document.local(m),
    ensures
        final(nodes).len() == old(nodes).len(),
        forall|m: int|
            0 <= m < old(nodes).len() ==> {
                &&& (#[trigger] final(nodes)[m]).mesh_id == old(nodes)[m].mesh_id
                &&& final(nodes)[m].children_ids == old(nodes)[m].children_ids
            },
        forall|m: int|
            0 <= m < old(nodes).len() && document.below(path, m)
                ==> (#[trigger] final(nodes)[m]).transform@ == document.world(m),
        forall|m: int|
            0 <= m < old(nodes).len() && !document.below(path, m)
                ==> (#[trigger] final(nodes)[m]).transform == old(nodes)[m].transform,
    decreases document.nodes.len() - path.len(),
{
    proof {
        document.lemma_world_along_path(path);
    }
    let count = document.nodes[index].children.len();
    let mut k: usize = 0;
    while k < count
        invariant
            k <= count,
            count == document.nodes[index as int].children.len(),
            document.hierarchy_well_formed(),
            document.is_path(path),
            path.last() == index,
            index < document.nodes.len(),
            nodes.len() == document.nodes.len(),
            nodes.len() == old(nodes).len(),
            document.world(index as int) == document.path_product(path),
            forall|m: int|
                0 <= m < nodes.len() ==> (#[trigger] nodes[m]).mesh_id == old(nodes)[m].mesh_id
                    && nodes[m].children_ids == old(nodes)[m].children_ids,
            forall|m: int|
                0 <= m < nodes.len() && (m == index || document.below_first(path, k as int, m)) ==> (
                #[trigger] nodes[m]).transform@ == document.world(m),
            forall|m: int|
                0 <= m < nodes.len() && document.below(path, m) && m != index
                    && !document.below_first(path, k as int, m) ==> (#[trigger] nodes[m]).transform@
                    == document.local(m),
            forall|m: int|
                0 <= m < nodes.len() && !document.below(path, m) ==> (#[trigger] nodes[m]).transform
                    == old(nodes)[m].transform,
        decreases count - k,
    {
        let child = document.nodes[index].children[k];
        let ghost longer = path.push(child as int);
        proof {
            document.lemma_push_child(path, k as int);
            document.lemma_path_bounded(longer);
            document.lemma_world_along_path(longer);
            document.lemma_below_self(longer);
            document.lemma_not_below_child(path, child as int);
            assert forall|m: int| document.below(longer, m) implies !document.below_first(
                path,
                k as int,
                m,
            ) by {
                if document.below_first(path, k as int, m) {
                    let j = choose|j: int|
                        0 <= j < k && document.is_slot(path.last(), j) && #[trigger] document.below(
                            path.push(document.child_at(path.last(), j)),
                            m,
                        );
                    document.lemma_children_disjoint(path, j, k as int, m);
                }
            }
            assert forall|m: int| document.below(longer, m) implies document.below(path, m) by {
                document.lemma_below_longer(path, child as int, m);
            }
        }
        let world = product(&nodes[index].transform, &nodes[child].transform);
        nodes[child].transform = world;
        recursive_update_transforms(document, child, nodes, Ghost(longer));
        proof {
            assert forall|m: int|
                0 <= m < nodes.len() && (m == index || document.below_first(
                    path,
                    k as int + 1,
                    m,
                )) implies (#[trigger] nodes[m]).transform@ == document.world(m) by {
                // What lies below an earlier child was resolved before and
                // is untouched since.
                if m != index && !document.below(longer, m) {
                    assert(document.below_first(path, k as int, m));
                }
            }
            assert forall|m: int|
                0 <= m < nodes.len() && document.below(path, m) && m != index
                    && !document.below_first(path, k as int + 1, m) implies (
            #[trigger] nodes[m]).transform@ == document.local(m) by {
                // What lies below a later child is untouched so far.
                assert(!document.below_first(path, k as int, m));
            }
        }
        k += 1;
    }
    proof {
        assert forall|m: int|
            0 <= m < nodes.len() && document.below(path, m) implies (#[trigger] nodes[m]).transform@
            == document.world(m) by {
            if m != index {
                document.lemma_below_splits(path, m);
            }
        }
    }
}

/// Resolves the world transform of every node by a depth-first walk from
/// each root of the default scene in turn. On entry every node holds its
/// local transform.
pub(crate) fn update_transforms(document: &Document, nodes: &mut Vec<Node>)
    requires
        document.hierarchy_well_formed(),
        old(nodes).len() == document.nodes.len(),
        forall|m: int|
            0 <= m < old(nodes).len() ==> (#[trigger] old(nodes)[m]).transform@ == document.local(m),
    ensures
        final(nodes).len() == old(nodes).len(),
        forall|m: int|
            0 <= m < old(nodes).len() ==> {
                &&& (#[trigger] final(nodes)[m]).mesh_id == old(nodes)[m].mesh_id
                &&& final(nodes)[m].children_ids == old(nodes)[m].children_ids
                &&& final(nodes)[m].transform@ == document.world(m)
            },
{
    let roots = &document.default_scene;
    let mut i: usize = 0;
    while i < roots.len()
        invariant
            i <= roots.len(),
            document.hierarchy_well_formed(),
            roots@ == document.roots(),
            nodes.len() == document.nodes.len(),
            forall|m: int|
                0 <= m < nodes.len() ==> {
                    &&& (#[trigger] nodes[m]).mesh_id == old(nodes)[m].mesh_id
                    &&& nodes[m].children_ids == old(nodes)[m].children_ids
                },
            forall|m: int|
                0 <= m < nodes.len() && document.below_roots(i as int, m) ==> (
                #[trigger] nodes[m]).transform@ == document.world(m),
            forall|m: int|
                0 <= m < nodes.len() && !document.below_roots(i as int, m) ==> (
                #[trigger] nodes[m]).transform@ == document.local(m),
        decreases roots.len() - i,
    {
        let root = roots[i];
        let ghost path = seq![root as int];
        proof {
            document.lemma_root_is_path(i as int);
            document.lemma_world_along_path(path);
            assert forall|m: int| document.below(path, m) implies !document.below_roots(
                i as int,
                m,
            ) by {
                if document.below_roots(i as int, m) {
                    let j = choose|j: int|
                        0 <= j < i && j < document.roots().len() && #[trigger] document.below(
                            seq![document.root_at(j)],
                            m,
                        );
                    document.lemma_roots_disjoint(j, i as int, m);
                }
            }
        }
        recursive_update_transforms(document, root, nodes, Ghost(path));
        proof {
            assert forall|m: int|
                0 <= m < nodes.len() && document.below_roots(i as int + 1, m) implies (
            #[trigger] nodes[m]).transform@ == document.world(m) by {
                // What lies below an earlier root was resolved before and
                // is untouched since.
                if !document.below(path, m) {
                    assert(document.below_roots(i as int, m));
                }
            }
            assert forall|m: int|
                0 <= m < nodes.len() && !document.below_roots(i as int + 1, m) implies (
            #[trigger] nodes[m]).transform@ == document.local(m) by {
                // What lies below a later root is untouched so far.
                assert(!document.below_roots(i as int, m));
            }
        }
        i += 1;
    }
    proof {
        assert forall|m: int| 0 <= m < nodes.len() implies (#[trigger] nodes[m]).transform@
            == document.world(m) by {
            if document.reachable(m) {
                document.lemma_reachable_below_root(m);
            } else if document.below_roots(i as int, m) {
                let j = choose|j: int|
                    0 <= j < i && j < document.roots().len() && #[trigger] document.below(
                        seq![document.root_at(j)],
                        m,
                    );
                document.lemma_below_is_reachable(seq![document.root_at(j)], m);
            }
        }
    }
}

} // verus!
