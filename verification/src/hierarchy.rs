//! The node hierarchy of a document as a forest: paths from the scene's
//! roots, the product of the local transforms along a path, and the facts
//! about paths that the loader's walk rests on.

use vstd::prelude::*;

use crate::document::Document;
use crate::matrix::mat4_product;

verus! {

impl Document {
    /// The root nodes of the default scene.
    pub open spec fn roots(&self) -> Seq<usize> {
        self.default_scene@
    }

    /// The `i`-th root of the default scene.
    pub open spec fn root_at(&self, i: int) -> int {
        self.roots()[i] as int
    }

    /// The `k`-th child of node `p`.
    pub open spec fn child_at(&self, p: int, k: int) -> int {
        self.nodes[p].children[k] as int
    }

    /// Whether `(p, k)` names a place in a child list.
    pub open spec fn is_slot(&self, p: int, k: int) -> bool {
        0 <= p < self.nodes.len() && 0 <= k < self.nodes[p].children.len()
    }

    pub open spec fn is_root(&self, n: int) -> bool {
        exists|i: int| 0 <= i < self.roots().len() && #[trigger] self.root_at(i) == n
    }

    pub open spec fn is_child(&self, p: int, c: int) -> bool {
        exists|k: int| self.is_slot(p, k) && #[trigger] self.child_at(p, k) == c
    }

    /// Whether the default scene is a forest over the document's nodes:
    /// every root and every child is a node of the document, and no node is
    /// referenced twice, be it as a root or as a child.
    pub open spec fn hierarchy_well_formed(&self) -> bool {
        &&& forall|i: int|
            0 <= i < self.roots().len() ==> 0 <= #[trigger] self.root_at(i) < self.nodes.len()
        &&& forall|p: int, k: int|
            self.is_slot(p, k) ==> 0 <= #[trigger] self.child_at(p, k) < self.nodes.len()
        &&& forall|i: int, j: int|
            0 <= i < j < self.roots().len() ==> #[trigger] self.root_at(i) != #[trigger] self.root_at(
                j,
            )
        &&& forall|i: int, p: int, k: int|
            0 <= i < self.roots().len() && self.is_slot(p, k) ==> #[trigger] self.root_at(i)
                != #[trigger] self.child_at(p, k)
        &&& forall|p: int, k: int, q: int, l: int|
            self.is_slot(p, k) && self.is_slot(q, l) && (p != q || k != l) ==> #[trigger] self.child_at(
                p,
                k,
            ) != #[trigger] self.child_at(q, l)
    }

    /// Whether `path[i]` is a child of the node before it.
    pub open spec fn is_step(&self, path: Seq<int>, i: int) -> bool {
        self.is_child(path[i - 1], path[i])
    }

    /// Whether `path` leads from a root of the default scene down the
    /// hierarchy, each node a child of the one before it.
    pub open spec fn is_path(&self, path: Seq<int>) -> bool {
        &&& path.len() > 0
        &&& self.is_root(path[0])
        &&& forall|i: int| 0 < i < path.len() ==> #[trigger] self.is_step(path, i)
    }

    /// Whether a path from a root ends at node `n`.
    pub open spec fn reachable(&self, n: int) -> bool {
        exists|path: Seq<int>| self.is_path(path) && #[trigger] path.last() == n
    }

    /// The local transform of node `n`, by its canonical encodings.
    pub open spec fn local(&self, n: int) -> Seq<u32> {
        self.nodes[n].transform.spec_matrix()
    }

    /// The product `local(path[0]) * local(path[1]) * ... * local(path.last())`,
    /// multiplied from the left.
    pub open spec fn path_product(&self, path: Seq<int>) -> Seq<u32>
        decreases path.len(),
    {
        if path.len() <= 1 {
            self.local(path[0])
        } else {
            mat4_product(self.path_product(path.drop_last()), self.local(path.last()))
        }
    }

    /// A path from a root to node `n`, where `n` is reachable.
    pub open spec fn path_to(&self, n: int) -> Seq<int> {
        choose|path: Seq<int>| self.is_path(path) && #[trigger] path.last() == n
    }

    /// The world transform of node `n`: the product of the local transforms
    /// along a path from a root to `n` where there is one, else the node's
    /// local transform.
    pub open spec fn world(&self, n: int) -> Seq<u32> {
        if self.reachable(n) {
            self.path_product(self.path_to(n))
        } else {
            self.local(n)
        }
    }

    /// Whether `path` continues to a path that ends at node `m`: `m` is the
    /// last node of `path` or lies below it.
    pub open spec fn below(&self, path: Seq<int>, m: int) -> bool {
        exists|full: Seq<int>|
            self.is_path(full) && #[trigger] path.is_prefix_of(full) && full.last() == m
    }

    /// Whether `m` is one of the first `k` children of the last node of
    /// `path`, or lies below one of them.
    pub open spec fn below_first(&self, path: Seq<int>, k: int, m: int) -> bool {
        exists|j: int|
            0 <= j < k && self.is_slot(path.last(), j) && #[trigger] self.below(
                path.push(self.child_at(path.last(), j)),
                m,
            )
    }

    /// Whether `m` is one of the first `i` roots, or lies below one of
    /// them.
    pub open spec fn below_roots(&self, i: int, m: int) -> bool {
        exists|j: int|
            0 <= j < i && j < self.roots().len() && #[trigger] self.below(seq![self.root_at(j)], m)
    }

    pub proof fn lemma_path_in_range(&self, path: Seq<int>, i: int)
        requires
            self.hierarchy_well_formed(),
            self.is_path(path),
            0 <= i < path.len(),
        ensures
            0 <= path[i] < self.nodes.len(),
    {
        if i > 0 {
            assert(self.is_step(path, i));
        }
    }

    pub proof fn lemma_prefix_is_path(&self, path: Seq<int>, n: int)
        requires
            self.is_path(path),
            0 < n <= path.len(),
        ensures
            self.is_path(path.take(n)),
    {
        let prefix = path.take(n);
        assert forall|i: int| 0 < i < prefix.len() implies #[trigger] self.is_step(prefix, i) by {
            assert(self.is_step(path, i));
        }
    }

    /// A path that is continued by a child of its last node is a path, and
    /// its product is the product so far times the child's local transform.
    pub proof fn lemma_push_child(&self, path: Seq<int>, k: int)
        requires
            self.is_path(path),
            self.is_slot(path.last(), k),
        ensures
            self.is_path(path.push(self.child_at(path.last(), k))),
            self.path_product(path.push(self.child_at(path.last(), k))) == mat4_product(
                self.path_product(path),
                self.local(self.child_at(path.last(), k)),
            ),
    {
        let c = self.child_at(path.last(), k);
        let longer = path.push(c);
        assert forall|i: int| 0 < i < longer.len() implies #[trigger] self.is_step(longer, i) by {
            if i < path.len() {
                assert(self.is_step(path, i));
            }
        }
        assert(longer.drop_last() == path);
    }

    /// In a forest, a node is reached by one path at most.
    pub proof fn lemma_path_unique(&self, a: Seq<int>, b: Seq<int>)
        requires
            self.hierarchy_well_formed(),
            self.is_path(a),
            self.is_path(b),
            a.last() == b.last(),
        ensures
            a == b,
        decreases a.len(),
    {
        if a.len() == 1 {
            // A root is nobody's child, so `b` is that root alone as well.
            if b.len() > 1 {
                assert(self.is_step(b, b.len() - 1));
            }
            assert(a =~= b);
        } else {
            // The last node is a child, so `b` is longer than a root alone;
            // it is a child in one place only, so the nodes before it are
            // the same, and the paths up to them are the same by induction.
            assert(self.is_step(a, a.len() - 1));
            assert(self.is_step(b, b.len() - 1));
            self.lemma_prefix_is_path(a, a.len() - 1);
            self.lemma_prefix_is_path(b, b.len() - 1);
            self.lemma_path_unique(a.take(a.len() - 1), b.take(b.len() - 1));
            assert(a =~= a.take(a.len() - 1).push(a.last()));
            assert(b =~= b.take(b.len() - 1).push(b.last()));
        }
    }

    /// In a forest, no path visits a node twice.
    pub proof fn lemma_path_simple(&self, path: Seq<int>)
        requires
            self.hierarchy_well_formed(),
            self.is_path(path),
        ensures
            path.no_duplicates(),
    {
        assert forall|i: int, j: int| 0 <= i < path.len() && 0 <= j < path.len() && i != j implies path[i]
            != path[j] by {
            if path[i] == path[j] {
                self.lemma_prefix_is_path(path, i + 1);
                self.lemma_prefix_is_path(path, j + 1);
                self.lemma_path_unique(path.take(i + 1), path.take(j + 1));
            }
        }
    }

    /// In a forest, a path is no longer than the number of nodes.
    pub proof fn lemma_path_bounded(&self, path: Seq<int>)
        requires
            self.hierarchy_well_formed(),
            self.is_path(path),
        ensures
            path.len() <= self.nodes.len(),
    {
        self.lemma_path_simple(path);
        path.unique_seq_to_set();
        let range = vstd::set_lib::set_int_range(0, self.nodes.len() as int);
        vstd::set_lib::lemma_int_range(0, self.nodes.len() as int);
        assert forall|n: int| path.to_set().contains(n) implies range.contains(n) by {
            let i = choose|i: int| 0 <= i < path.len() && path[i] == n;
            self.lemma_path_in_range(path, i);
        }
        vstd::set_lib::lemma_len_subset(path.to_set(), range);
    }

    /// In a forest, the world transform of the last node of a path is the
    /// product along the path.
    pub proof fn lemma_world_along_path(&self, path: Seq<int>)
        requires
            self.hierarchy_well_formed(),
            self.is_path(path),
        ensures
            self.world(path.last()) == self.path_product(path),
    {
        self.lemma_path_unique(self.path_to(path.last()), path);
    }

    /// What lies below a continued path lies below the path.
    pub proof fn lemma_below_longer(&self, path: Seq<int>, c: int, m: int)
        requires
            self.below(path.push(c), m),
        ensures
            self.below(path, m),
    {
        let full = choose|full: Seq<int>|
            self.is_path(full) && #[trigger] path.push(c).is_prefix_of(full) && full.last() == m;
        assert(path.is_prefix_of(full)) by {
            assert(path.push(c) == full.take(path.len() as int + 1));
        }
    }

    /// The last node of a path lies below the path.
    pub proof fn lemma_below_self(&self, path: Seq<int>)
        requires
            self.is_path(path),
        ensures
            self.below(path, path.last()),
    {
        assert(path.is_prefix_of(path));
    }

    /// In a forest, only the path's own continuation by nothing ends at its
    /// last node: that node does not lie below any child of itself.
    pub proof fn lemma_not_below_child(&self, path: Seq<int>, c: int)
        requires
            self.hierarchy_well_formed(),
            self.is_path(path),
        ensures
            !self.below(path.push(c), path.last()),
    {
        if self.below(path.push(c), path.last()) {
            let full = choose|full: Seq<int>|
                self.is_path(full) && #[trigger] path.push(c).is_prefix_of(full) && full.last()
                    == path.last();
            self.lemma_path_unique(full, path);
        }
    }

    /// In a forest, what lies below one child of a node does not lie below
    /// another.
    pub proof fn lemma_children_disjoint(&self, path: Seq<int>, j: int, k: int, m: int)
        requires
            self.hierarchy_well_formed(),
            self.is_path(path),
            self.is_slot(path.last(), j),
            self.is_slot(path.last(), k),
            j != k,
            self.below(path.push(self.child_at(path.last(), j)), m),
        ensures
            !self.below(path.push(self.child_at(path.last(), k)), m),
    {
        let pj = path.push(self.child_at(path.last(), j));
        let pk = path.push(self.child_at(path.last(), k));
        if self.below(pk, m) {
            let fj = choose|full: Seq<int>|
                self.is_path(full) && #[trigger] pj.is_prefix_of(full) && full.last() == m;
            let fk = choose|full: Seq<int>|
                self.is_path(full) && #[trigger] pk.is_prefix_of(full) && full.last() == m;
            self.lemma_path_unique(fj, fk);
            assert(fj[path.len() as int] == pj[path.len() as int]);
            assert(fk[path.len() as int] == pk[path.len() as int]);
        }
    }

    /// What lies below a path is its last node or lies below one of that
    /// node's children.
    pub proof fn lemma_below_splits(&self, path: Seq<int>, m: int)
        requires
            self.hierarchy_well_formed(),
            self.is_path(path),
            self.below(path, m),
            m != path.last(),
        ensures
            0 <= path.last() < self.nodes.len(),
            self.below_first(path, self.nodes[path.last()].children.len() as int, m),
    {
        let full = choose|full: Seq<int>|
            self.is_path(full) && #[trigger] path.is_prefix_of(full) && full.last() == m;
        let n = path.len() as int;
        // The continuation is longer than the path, and its next node is a
        // child of the path's last.
        if full.len() == n {
            assert(full =~= path);
        }
        assert(self.is_step(full, n));
        let k = choose|k: int| self.is_slot(path.last(), k) && #[trigger] self.child_at(path.last(), k)
            == full[n];
        let longer = path.push(self.child_at(path.last(), k));
        assert(longer.is_prefix_of(full));
        assert(self.below(longer, m));
    }

    /// In a forest, what lies below one root does not lie below another.
    pub proof fn lemma_roots_disjoint(&self, i: int, j: int, m: int)
        requires
            self.hierarchy_well_formed(),
            0 <= i < self.roots().len(),
            0 <= j < self.roots().len(),
            i != j,
            self.below(seq![self.root_at(i)], m),
        ensures
            !self.below(seq![self.root_at(j)], m),
    {
        let pi = seq![self.root_at(i)];
        let pj = seq![self.root_at(j)];
        if self.below(pj, m) {
            let fi = choose|full: Seq<int>|
                self.is_path(full) && #[trigger] pi.is_prefix_of(full) && full.last() == m;
            let fj = choose|full: Seq<int>|
                self.is_path(full) && #[trigger] pj.is_prefix_of(full) && full.last() == m;
            self.lemma_path_unique(fi, fj);
            assert(fi[0] == pi[0]);
            assert(fj[0] == pj[0]);
        }
    }

    /// A reachable node is a root or lies below one.
    pub proof fn lemma_reachable_below_root(&self, m: int)
        requires
            self.reachable(m),
        ensures
            self.below_roots(self.roots().len() as int, m),
    {
        let full = choose|path: Seq<int>| self.is_path(path) && #[trigger] path.last() == m;
        let j = choose|j: int| 0 <= j < self.roots().len() && #[trigger] self.root_at(j) == full[0];
        let start = seq![self.root_at(j)];
        assert(start.is_prefix_of(full));
        assert(self.below(start, m));
    }

    /// What lies below a root is reachable.
    pub proof fn lemma_below_is_reachable(&self, path: Seq<int>, m: int)
        requires
            self.below(path, m),
        ensures
            self.reachable(m),
    {
        let full = choose|full: Seq<int>|
            self.is_path(full) && #[trigger] path.is_prefix_of(full) && full.last() == m;
        assert(self.is_path(full) && full.last() == m);
    }

    /// A root alone is a path, and its product is the root's local
    /// transform.
    pub proof fn lemma_root_is_path(&self, i: int)
        requires
            0 <= i < self.roots().len(),
        ensures
            self.is_path(seq![self.root_at(i)]),
            self.path_product(seq![self.root_at(i)]) == self.local(self.root_at(i)),
    {
        assert(seq![self.root_at(i)][0] == self.root_at(i));
    }
}

} // verus!
