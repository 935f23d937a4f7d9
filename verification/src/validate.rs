//! What a document must be like for the loader to work on it, and the
//! run-time test of it.

use vstd::prelude::*;

use crate::document::{Accessor, Document, Mesh, Primitive};
use crate::mesh::{
    attribute_location, attribute_slot, document_error, format_accepted, has_expected_format,
    lemma_document_error_stays, lemma_mesh_error_stays, mesh_error,
};

verus! {

/// Whether the place `(q, l)` in the child lists comes before `(p, k)`,
/// node by node and child by child.
spec fn slot_before(q: int, l: int, p: int, k: int) -> bool {
    q < p || (q == p && l < k)
}

impl Accessor {
    /// Tests whether the accessor's elements can be located.
    pub fn is_addressable(&self) -> (b: bool)
        ensures
            b == self.addressable(),
    {
        match self.view {
            Some(view) => view.offset.checked_add(self.offset).is_some(),
            None => false,
        }
    }
}

impl Primitive {
    /// Whether the attributes before the `i`-th are all passed over or of
    /// the format that their slot asks for.
    pub open spec fn accepted_before(self, i: int) -> bool {
        forall|j: int| 0 <= j < i ==> format_accepted(#[trigger] self.attributes[j])
    }

    /// Whether every accessor that the loader reads of this primitive can
    /// be located. A primitive without indices is refused before anything is
    /// read; of another the loader reads the index accessor and then, in
    /// their order, the recognized attributes up to the first of an
    /// unexpected format.
    pub open spec fn well_formed(self) -> bool {
        self.indices matches Some(indices) ==> {
            &&& indices.addressable()
            &&& forall|i: int|
                0 <= i < self.attributes.len() && attribute_location(
                    (#[trigger] self.attributes[i]).semantic,
                ) is Some && self.accepted_before(i) ==> self.attributes[i].accessor.addressable()
        }
    }

    /// Tests whether every accessor that the loader reads of this primitive
    /// can be located.
    pub fn is_well_formed(&self) -> (b: bool)
        ensures
            b == self.well_formed(),
    {
        match self.indices {
            None => {
                return true;
            },
            Some(indices) => {
                if !indices.is_addressable() {
                    return false;
                }
            },
        }
        let mut i: usize = 0;
        while i < self.attributes.len()
            invariant
                i <= self.attributes.len(),
                self.indices matches Some(indices) && indices.addressable(),
                self.accepted_before(i as int),
                forall|j: int|
                    0 <= j < i && attribute_location((#[trigger] self.attributes[j]).semantic) is Some
                        ==> self.attributes[j].accessor.addressable(),
            decreases self.attributes.len() - i,
        {
            let attribute = self.attributes[i];
            if let Some(location) = attribute_slot(attribute.semantic) {
                if !attribute.accessor.is_addressable() {
                    return false;
                }
                if !has_expected_format(location, &attribute.accessor) {
                    return true;
                }
            }
            i += 1;
        }
        true
    }
}

impl Mesh {
    /// Whether every accessor that the loader reads of this mesh can be
    /// located: those of each primitive up to the first that cannot be
    /// loaded.
    pub open spec fn well_formed(self) -> bool {
        forall|k: int|
            0 <= k < self.primitives.len() && mesh_error(self.primitives@.take(k)) is None ==> (
            #[trigger] self.primitives[k]).well_formed()
    }

    /// Tests whether every accessor that the loader reads of this mesh can
    /// be located.
    pub fn is_well_formed(&self) -> (b: bool)
        ensures
            b == self.well_formed(),
    {
        let mut k: usize = 0;
        while k < self.primitives.len()
            invariant
                k <= self.primitives.len(),
                mesh_error(self.primitives@.take(k as int)) is None,
                forall|j: int| 0 <= j < k ==> (#[trigger] self.primitives[j]).well_formed(),
            decreases self.primitives.len() - k,
        {
            assert(self.primitives@.take(k + 1).drop_last() == self.primitives@.take(k as int));
            if !self.primitives[k].is_well_formed() {
                return false;
            }
            if crate::mesh::Primitive::from_gltf(&self.primitives[k]).is_err() {
                assert forall|l: int| k < l < self.primitives.len() implies mesh_error(
                    self.primitives@.take(l),
                ) is Some by {
                    lemma_mesh_error_stays(self.primitives@.take(l), k + 1);
                }
                return true;
            }
            k += 1;
        }
        true
    }
}

impl Document {
    /// Whether every accessor that the loader reads can be located: those
    /// of each mesh up to the first that cannot be loaded.
    pub open spec fn meshes_well_formed(&self) -> bool {
        forall|m: int|
            0 <= m < self.meshes.len() && document_error(self.meshes@.take(m)) is None ==> (
            #[trigger] self.meshes[m]).well_formed()
    }

    /// Whether every mesh that a node names exists.
    pub open spec fn meshes_exist(&self) -> bool {
        forall|n: int|
            0 <= n < self.nodes.len() ==> ((#[trigger] self.nodes[n]).mesh matches Some(m) ==> m
                < self.meshes.len())
    }

    /// Whether the document is one that the loader works on: its default
    /// scene is a forest, every mesh that a node names exists, and every
    /// accessor that the loader reads can be located.
    pub open spec fn well_formed(&self) -> bool {
        &&& self.hierarchy_well_formed()
        &&& self.meshes_exist()
        &&& self.meshes_well_formed()
    }

    /// Tests whether the document is one that the loader works on.
    pub fn is_well_formed(&self) -> (b: bool)
        ensures
            b == self.well_formed(),
    {
        if !self.is_forest() {
            return false;
        }
        let mut n: usize = 0;
        while n < self.nodes.len()
            invariant
                n <= self.nodes.len(),
                self.hierarchy_well_formed(),
                forall|j: int|
                    0 <= j < n ==> ((#[trigger] self.nodes[j]).mesh matches Some(m) ==> m
                        < self.meshes.len()),
            decreases self.nodes.len() - n,
        {
            if let Some(mesh) = self.nodes[n].mesh {
                if mesh >= self.meshes.len() {
                    return false;
                }
            }
            n += 1;
        }
        let mut m: usize = 0;
        while m < self.meshes.len()
            invariant
                m <= self.meshes.len(),
                self.hierarchy_well_formed(),
                self.meshes_exist(),
                document_error(self.meshes@.take(m as int)) is None,
                forall|j: int| 0 <= j < m ==> (#[trigger] self.meshes[j]).well_formed(),
            decreases self.meshes.len() - m,
        {
            assert(self.meshes@.take(m + 1).drop_last() == self.meshes@.take(m as int));
            if !self.meshes[m].is_well_formed() {
                return false;
            }
            if crate::mesh::Mesh::from_gltf(&self.meshes[m]).is_err() {
                assert forall|l: int| m < l < self.meshes.len() implies document_error(
                    self.meshes@.take(l),
                ) is Some by {
                    lemma_document_error_stays(self.meshes@.take(l), m + 1);
                }
                return true;
            }
            m += 1;
        }
        true
    }

    /// Whether `v` is among the first `i` roots.
    spec fn root_among(&self, i: int, v: int) -> bool {
        exists|j: int| 0 <= j < i && j < self.roots().len() && #[trigger] self.root_at(j) == v
    }

    /// Whether the first `i` roots are nodes of the document and differ
    /// from each other.
    spec fn roots_distinct(&self, i: int) -> bool {
        &&& forall|j: int| 0 <= j < i ==> 0 <= #[trigger] self.root_at(j) < self.nodes.len()
        &&& forall|a: int, b: int| 0 <= a < b < i ==> #[trigger] self.root_at(a) != #[trigger] self.root_at(b)
    }

    /// Whether `v` is a root or a child in a place before `(p, k)`.
    spec fn referenced_before(&self, p: int, k: int, v: int) -> bool {
        ||| self.is_root(v)
        ||| exists|q: int, l: int|
            self.is_slot(q, l) && slot_before(q, l, p, k) && #[trigger] self.child_at(q, l) == v
    }

    /// Whether the roots and the children in the places before `(p, k)`
    /// are nodes of the document, none of them referenced twice.
    spec fn forest_before(&self, p: int, k: int) -> bool {
        &&& self.roots_distinct(self.roots().len() as int)
        &&& forall|q: int, l: int|
            self.is_slot(q, l) && slot_before(q, l, p, k) ==> 0 <= #[trigger] self.child_at(q, l)
                < self.nodes.len()
        &&& forall|i: int, q: int, l: int|
            0 <= i < self.roots().len() && self.is_slot(q, l) && slot_before(q, l, p, k)
                ==> #[trigger] self.root_at(i) != #[trigger] self.child_at(q, l)
        &&& forall|q: int, l: int, r: int, m: int|
            self.is_slot(q, l) && slot_before(q, l, p, k) && self.is_slot(r, m) && slot_before(
                r,
                m,
                p,
                k,
            ) && (q != r || l != m) ==> #[trigger] self.child_at(q, l) != #[trigger] self.child_at(
                r,
                m,
            )
    }

    /// Tests whether the default scene is a forest over the document's
    /// nodes.
    pub fn is_forest(&self) -> (b: bool)
        ensures
            b == self.hierarchy_well_formed(),
    {
        let roots = &self.default_scene;
        let count = self.nodes.len();
        let mut seen: Vec<bool> = Vec::new();
        let mut n: usize = 0;
        while n < count
            invariant
                n <= count,
                seen.len() == n,
                forall|v: int| 0 <= v < n ==> !seen[v],
            decreases count - n,
        {
            seen.push(false);
            n += 1;
        }

        // The roots: each must be a node that no earlier root is.
        let mut i: usize = 0;
        while i < roots.len()
            invariant
                i <= roots.len(),
                roots@ == self.roots(),
                count == self.nodes.len(),
                seen.len() == count,
                self.roots_distinct(i as int),
                forall|v: int| 0 <= v < count ==> seen[v] == self.root_among(i as int, v),
            decreases roots.len() - i,
        {
            let root = roots[i];
            assert(self.root_at(i as int) == root);
            if root >= count || seen[root] {
                return false;
            }
            seen.set(root, true);
            i += 1;
        }
        assert forall|v: int| 0 <= v < count implies seen[v] == self.referenced_before(0, 0, v) by {
            assert(self.is_root(v) == self.root_among(i as int, v));
        }

        // The children, node by node: each must be a node that is no root
        // and no earlier child.
        let mut p: usize = 0;
        while p < count
            invariant
                p <= count,
                count == self.nodes.len(),
                seen.len() == count,
                self.forest_before(p as int, 0),
                forall|v: int| 0 <= v < count ==> seen[v] == self.referenced_before(p as int, 0, v),
            decreases count - p,
        {
            let children = &self.nodes[p].children;
            let mut k: usize = 0;
            while k < children.len()
                invariant
                    k <= children.len(),
                    p < count,
                    count == self.nodes.len(),
                    children@ == self.nodes[p as int].children@,
                    seen.len() == count,
                    self.forest_before(p as int, k as int),
                    forall|v: int|
                        0 <= v < count ==> seen[v] == self.referenced_before(p as int, k as int, v),
                decreases children.len() - k,
            {
                let child = children[k];
                assert(self.child_at(p as int, k as int) == child);
                if child >= count || seen[child] {
                    return false;
                }
                seen.set(child, true);
                k += 1;
            }
            p += 1;
        }
        true
    }
}

} // verus!
