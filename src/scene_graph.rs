//! The scene graph: a tree of nodes, each a pure transform pivot or a mesh
//! reference, whose world matrices are kept equal to the parent's world matrix
//! times the node's local matrix.
//!
//! The graph is generic over the matrix type `M` and over the mesh reference
//! `P`; matrix products are computed by a function that the caller supplies.
use vstd::prelude::*;

verus! {

/// A node's local matrix and its cached world matrix.
#[derive(Copy, Clone, Debug)]
pub struct Transform<M> {
    local_matrix: M,
    world_matrix: M,
}

impl<M: Copy> Transform<M> {
    pub closed spec fn local_view(&self) -> M {
        self.local_matrix
    }

    pub closed spec fn world_view(&self) -> M {
        self.world_matrix
    }

    /// A transform whose world matrix is, until placed in a graph, its local one.
    pub fn new(local_matrix: &M) -> (r: Transform<M>)
        ensures
            r.local_view() == *local_matrix,
            r.world_view() == *local_matrix,
    {
        Transform { local_matrix: *local_matrix, world_matrix: *local_matrix }
    }

    /// The matrix relative to the parent.
    pub fn local_matrix(&self) -> (r: M)
        ensures
            r == self.local_view(),
    {
        self.local_matrix
    }

    /// The matrix relative to the root of the scene.
    pub fn world_matrix(&self) -> (r: M)
        ensures
            r == self.world_view(),
    {
        self.world_matrix
    }
}

/// What a node holds besides its transform.
#[derive(Clone, Debug)]
pub enum NodeTypeData<P> {
    /// A pivot without geometry.
    Transform,
    /// A shared reference to a mesh.
    Mesh(P),
}

impl<P> NodeTypeData<P> {
    pub fn is_transform(&self) -> (r: bool)
        ensures
            r == self is Transform,
    {
        match self {
            NodeTypeData::Transform => true,
            NodeTypeData::Mesh(_) => false,
        }
    }

    pub fn is_mesh(&self) -> (r: bool)
        ensures
            r == self is Mesh,
    {
        match self {
            NodeTypeData::Transform => false,
            NodeTypeData::Mesh(_) => true,
        }
    }
}

/// A node's transform and payload.
#[derive(Clone, Debug)]
pub struct NodeData<M, P> {
    transform: Transform<M>,
    node_type_data: NodeTypeData<P>,
}

impl<M: Copy, P> NodeData<M, P> {
    pub closed spec fn transform_view(&self) -> Transform<M> {
        self.transform
    }

    pub closed spec fn kind_view(&self) -> NodeTypeData<P> {
        self.node_type_data
    }

    pub fn new(transform: Transform<M>, node_type_data: NodeTypeData<P>) -> (r: NodeData<M, P>)
        ensures
            r.transform_view() == transform,
            r.kind_view() == node_type_data,
    {
        NodeData { transform, node_type_data }
    }

    pub fn ref_transform(&self) -> (r: &Transform<M>)
        ensures
            *r == self.transform_view(),
    {
        &self.transform
    }
}

/// `r` is the product `a · b` as computed by `compose`.
pub open spec fn product<M, F: Fn(M, M) -> M>(compose: F, a: M, b: M, r: M) -> bool {
    call_ensures(compose, (a, b), r)
}

/// `compose` accepts every pair of matrices.
pub open spec fn total<M, F: Fn(M, M) -> M>(compose: F) -> bool {
    forall|a: M, b: M| call_requires(compose, (a, b))
}

/// `compose` gives one result for each pair of matrices.
pub open spec fn functional<M, F: Fn(M, M) -> M>(compose: F) -> bool {
    forall|a: M, b: M, r1: M, r2: M|
        product(compose, a, b, r1) && product(compose, a, b, r2) ==> r1 == r2
}

/// The tree of a scene; node 0 is the root and every other node comes after
/// its parent.
pub struct SceneGraph<M, P> {
    locals: Vec<M>,
    worlds: Vec<M>,
    kinds: Vec<NodeTypeData<P>>,
    parents: Vec<usize>,
}

impl<M: Copy, P> SceneGraph<M, P> {
    pub closed spec fn locals_view(&self) -> Seq<M> {
        self.locals@
    }

    pub closed spec fn worlds_view(&self) -> Seq<M> {
        self.worlds@
    }

    pub closed spec fn kinds_view(&self) -> Seq<NodeTypeData<P>> {
        self.kinds@
    }

    pub closed spec fn parents_view(&self) -> Seq<usize> {
        self.parents@
    }

    /// Node count, parent links pointing backwards, root at 0.
    pub open spec fn wf(&self) -> bool {
        &&& self.locals_view().len() > 0
        &&& self.worlds_view().len() == self.locals_view().len()
        &&& self.kinds_view().len() == self.locals_view().len()
        &&& self.parents_view().len() == self.locals_view().len()
        &&& forall|i: int|
            0 < i < self.parents_view().len() ==> #[trigger] self.parents_view()[i] < i
    }

    /// Every cached world matrix is the parent's world matrix times the local
    /// one, as `compose` computes it; the root's is its local matrix.
    pub open spec fn consistent<F: Fn(M, M) -> M>(&self, compose: F) -> bool {
        &&& self.worlds_view()[0] == self.locals_view()[0]
        &&& forall|i: int|
            0 < i < self.worlds_view().len() ==> product(
                compose,
                self.worlds_view()[self.parents_view()[i] as int],
                self.locals_view()[i],
                #[trigger] self.worlds_view()[i],
            )
    }

    /// Node `i` is `a` or lies below it.
    pub open spec fn descends(&self, i: int, a: int) -> bool
        decreases i,
    {
        if i == a {
            true
        } else if i <= 0 || i >= self.parents_view().len() || self.parents_view()[i] >= i {
            false
        } else {
            self.descends(self.parents_view()[i] as int, a)
        }
    }

    /// The product of the local matrices from the root down to node `i`.
    pub open spec fn chain<F: Fn(M, M) -> M>(&self, compose: F, i: int) -> M
        decreases i,
    {
        if i <= 0 || i >= self.parents_view().len() || self.parents_view()[i] >= i {
            self.locals_view()[0]
        } else {
            choose|r: M|
                product(
                    compose,
                    self.chain(compose, self.parents_view()[i] as int),
                    self.locals_view()[i],
                    r,
                )
        }
    }

    /// Only nodes at or after `a` can lie below it.
    pub proof fn lemma_descends_after(&self, i: int, a: int)
        requires
            self.descends(i, a),
        ensures
            i >= a,
        decreases i,
    {
        if i != a && 0 < i < self.parents_view().len() && self.parents_view()[i] < i {
            self.lemma_descends_after(self.parents_view()[i] as int, a);
        }
    }

    /// In a consistent graph, with a matrix product that gives one result per
    /// pair, every node's world matrix is the product of the local matrices on
    /// the path from the root down to it.
    pub proof fn lemma_world_is_chain<F: Fn(M, M) -> M>(&self, compose: F, i: int)
        requires
            self.wf(),
            self.consistent(compose),
            functional(compose),
            0 <= i < self.locals_view().len(),
        ensures
            self.worlds_view()[i] == self.chain(compose, i),
        decreases i,
    {
        if i > 0 {
            let p = self.parents_view()[i] as int;
            self.lemma_world_is_chain(compose, p);
            assert(product(compose, self.chain(compose, p), self.locals_view()[i], self.worlds_view()[i]));
        }
    }

    /// A graph holding only its root.
    pub fn new(root: NodeData<M, P>) -> (r: SceneGraph<M, P>)
        ensures
            r.wf(),
            r.locals_view() == seq![root.transform_view().local_view()],
            r.worlds_view() == seq![root.transform_view().local_view()],
            r.kinds_view() == seq![root.kind_view()],
    {
        let local = root.transform.local_matrix;
        let mut locals: Vec<M> = Vec::new();
        locals.push(local);
        let mut worlds: Vec<M> = Vec::new();
        worlds.push(local);
        let mut kinds: Vec<NodeTypeData<P>> = Vec::new();
        kinds.push(root.node_type_data);
        let mut parents: Vec<usize> = Vec::new();
        parents.push(0);
        let r = SceneGraph { locals, worlds, kinds, parents };
        assert(r.locals_view() =~= seq![local]);
        assert(r.worlds_view() =~= seq![local]);
        r
    }

    /// Number of nodes.
    pub fn len(&self) -> (r: usize)
        ensures
            r == self.locals_view().len(),
    {
        self.locals.len()
    }

    /// The parent of node `i`, which must not be the root.
    pub fn parent(&self, i: usize) -> (r: usize)
        requires
            self.wf(),
            0 < i < self.locals_view().len(),
        ensures
            r == self.parents_view()[i as int],
    {
        self.parents[i]
    }

    /// The transform of node `i`.
    pub fn transform(&self, i: usize) -> (r: Transform<M>)
        requires
            self.wf(),
            i < self.locals_view().len(),
        ensures
            r.local_view() == self.locals_view()[i as int],
            r.world_view() == self.worlds_view()[i as int],
    {
        Transform { local_matrix: self.locals[i], world_matrix: self.worlds[i] }
    }

    /// What node `i` holds.
    pub fn node_type_data(&self, i: usize) -> (r: &NodeTypeData<P>)
        requires
            self.wf(),
            i < self.locals_view().len(),
        ensures
            *r == self.kinds_view()[i as int],
    {
        &self.kinds[i]
    }

    /// The mesh nodes of the subtree of `node`, in pre-order: the node itself if
    /// it holds a mesh, then the subtrees of its children in the order they
    /// were added.
    pub open spec fn draw_order(&self, node: int) -> Seq<usize>
        decreases self.parents_view().len() - node, self.parents_view().len() + 2,
    {
        if node < 0 || node >= self.parents_view().len() {
            Seq::empty()
        } else {
            (if self.kinds_view()[node] is Mesh {
                seq![node as usize]
            } else {
                Seq::empty()
            }) + self.children_draw_order(node, node + 1)
        }
    }

    /// The pre-order mesh nodes of the subtrees of the children of `node` from
    /// index `k` on.
    pub open spec fn children_draw_order(&self, node: int, k: int) -> Seq<usize>
        decreases self.parents_view().len() - node, self.parents_view().len() + 1 - k,
    {
        if node < 0 || k <= node || k >= self.parents_view().len() {
            Seq::empty()
        } else {
            (if self.parents_view()[k] == node {
                self.draw_order(k)
            } else {
                Seq::empty()
            }) + self.children_draw_order(node, k + 1)
        }
    }

    fn visit(&self, node: usize, out: &mut Vec<usize>)
        requires
            self.wf(),
            node < self.locals_view().len(),
        ensures
            final(out)@ == old(out)@ + self.draw_order(node as int),
        decreases self.parents_view().len() - node, self.parents_view().len() + 2,
    {
        let ghost before = out@;
        let count = self.locals.len();
        if self.kinds[node].is_mesh() {
            out.push(node);
        }
        assert(node < count);
        self.visit_children(node, node + 1, out);
        assert(out@ =~= before + self.draw_order(node as int));
    }

    fn visit_children(&self, node: usize, k: usize, out: &mut Vec<usize>)
        requires
            self.wf(),
            node < k <= self.locals_view().len(),
        ensures
            final(out)@ == old(out)@ + self.children_draw_order(node as int, k as int),
        decreases self.parents_view().len() - node, self.parents_view().len() + 1 - k,
    {
        if k < self.parents.len() {
            let ghost before = out@;
            if self.parents[k] == node {
                self.visit(k, out);
            }
            self.visit_children(node, k + 1, out);
            assert(out@ =~= before + self.children_draw_order(node as int, k as int));
        } else {
            assert(out@ =~= old(out)@ + self.children_draw_order(node as int, k as int));
        }
    }

    /// The mesh nodes that a draw pass visits: a pre-order walk from the root.
    pub fn draw_list(&self) -> (r: Vec<usize>)
        requires
            self.wf(),
        ensures
            r@ == self.draw_order(0),
    {
        let mut list: Vec<usize> = Vec::new();
        self.visit(0, &mut list);
        assert(list@ =~= self.draw_order(0));
        list
    }

    /// Appends a child to node `parent` and returns its index; its world matrix
    /// is the parent's world matrix times its local matrix.
    pub fn add_child<F: Fn(M, M) -> M>(&mut self, parent: usize, data: NodeData<M, P>, compose: &F) -> (r:
        usize)
        requires
            old(self).wf(),
            old(self).consistent(*compose),
            total(*compose),
            parent < old(self).locals_view().len(),
            old(self).locals_view().len() < usize::MAX,
        ensures
            final(self).wf(),
            final(self).consistent(*compose),
            r == old(self).locals_view().len(),
            final(self).locals_view() == old(self).locals_view().push(
                data.transform_view().local_view(),
            ),
            final(self).kinds_view() == old(self).kinds_view().push(data.kind_view()),
            final(self).parents_view() == old(self).parents_view().push(parent),
            final(self).worlds_view().drop_last() == old(self).worlds_view(),
    {
        let local = data.transform.local_matrix;
        let parent_world = self.worlds[parent];
        let world = compose(parent_world, local);
        let r = self.locals.len();
        self.locals.push(local);
        self.worlds.push(world);
        self.kinds.push(data.node_type_data);
        self.parents.push(parent);
        proof {
            assert(self.worlds_view().drop_last() =~= old(self).worlds_view());
            assert forall|i: int| 0 < i < self.worlds_view().len() implies product(
                *compose,
                self.worlds_view()[self.parents_view()[i] as int],
                self.locals_view()[i],
                #[trigger] self.worlds_view()[i],
            ) by {
                if i < r {
                    assert(old(self).worlds_view()[i] == self.worlds_view()[i]);
                    assert(self.parents_view()[i] < i);
                }
            }
        }
        r
    }

    /// Sets the local matrix of `node` and recomputes the world matrices of the
    /// node and of every node below it; the others keep theirs.
    pub fn set_local_matrix<F: Fn(M, M) -> M>(&mut self, node: usize, local_matrix: &M, compose: &F)
        requires
            old(self).wf(),
            old(self).consistent(*compose),
            total(*compose),
            node < old(self).locals_view().len(),
        ensures
            final(self).wf(),
            final(self).consistent(*compose),
            final(self).locals_view() == old(self).locals_view().update(node as int, *local_matrix),
            final(self).kinds_view() == old(self).kinds_view(),
            final(self).parents_view() == old(self).parents_view(),
            forall|i: int|
                0 <= i < old(self).locals_view().len() && !old(self).descends(i, node as int)
                    ==> #[trigger] final(self).worlds_view()[i] == old(self).worlds_view()[i],
    {
        let n = self.locals.len();
        self.locals.set(node, *local_matrix);
        let world = if node == 0 {
            *local_matrix
        } else {
            let p = self.parents[node];
            compose(self.worlds[p], *local_matrix)
        };
        self.worlds.set(node, world);
        let mut dirty: Vec<bool> = Vec::new();
        let mut j: usize = 0;
        while j <= node
            invariant
                j <= node + 1,
                node < n,
                dirty@.len() == j,
                forall|k: int| 0 <= k < j ==> #[trigger] dirty@[k] == (k == node),
            decreases node + 1 - j,
        {
            dirty.push(j == node);
            j = j + 1;
        }
        proof {
            assert forall|k: int| 0 <= k < j implies #[trigger] dirty@[k] == old(self).descends(
                k,
                node as int,
            ) by {
                if old(self).descends(k, node as int) {
                    old(self).lemma_descends_after(k, node as int);
                }
            }
            assert forall|k: int| 0 < k < node + 1 implies product(
                *compose,
                self.worlds_view()[self.parents_view()[k] as int],
                self.locals_view()[k],
                #[trigger] self.worlds_view()[k],
            ) by {
                if k < node {
                    assert(old(self).parents_view()[k] < k);
                }
            }
        }
        let mut i: usize = node + 1;
        while i < n
            invariant
                node < i <= n,
                n == self.locals_view().len(),
                self.wf(),
                old(self).wf(),
                old(self).consistent(*compose),
                total(*compose),
                self.parents_view() == old(self).parents_view(),
                self.kinds_view() == old(self).kinds_view(),
                self.locals_view() == old(self).locals_view().update(node as int, *local_matrix),
                dirty@.len() == i,
                forall|k: int| 0 <= k < i ==> #[trigger] dirty@[k] == old(self).descends(k, node as int),
                forall|k: int| i <= k < n ==> #[trigger] self.worlds_view()[k] == old(self).worlds_view()[k],
                forall|k: int|
                    0 <= k < i && !old(self).descends(k, node as int) ==> #[trigger] self.worlds_view()[k]
                        == old(self).worlds_view()[k],
                node == 0 ==> self.worlds_view()[0] == self.locals_view()[0],
                forall|k: int|
                    0 < k < i ==> product(
                        *compose,
                        self.worlds_view()[self.parents_view()[k] as int],
                        self.locals_view()[k],
                        #[trigger] self.worlds_view()[k],
                    ),
            decreases n - i,
        {
            let p = self.parents[i];
            if dirty[p] {
                let w = compose(self.worlds[p], self.locals[i]);
                self.worlds.set(i, w);
                dirty.push(true);
            } else {
                dirty.push(false);
                assert(self.locals_view()[i as int] == old(self).locals_view()[i as int]);
            }
            proof {
                assert(old(self).parents_view()[i as int] < i);
            }
            i = i + 1;
        }
    }
}

} // verus!
