use vstd::prelude::*;
use vstd::string::StrSliceExecFns;

verus! {

/// The shape a node carries, in the node's own space.
#[derive(Clone, Copy, Debug, PartialEq, Eq, Structural)]
pub enum Primitive {
    /// Nothing to hit.
    Empty,
    /// The unit sphere centred on the local origin.
    Sphere,
}

/// One node of the scene hierarchy. Its id is its index in the scene.
#[derive(Debug)]
pub struct SceneNode {
    pub id: usize,
    pub children: Vec<usize>,
    pub name: String,
    pub primitive: Primitive,
}

impl SceneNode {
    /// A node with id `id` named `name`, with no children and no primitive.
    pub fn new(id: usize, name: String) -> (n: SceneNode)
        ensures
            n.id == id,
            n.children@ == Seq::<usize>::empty(),
            n.name@ == name@,
            n.primitive == Primitive::Empty,
    {
        SceneNode { id, children: Vec::new(), name, primitive: Primitive::Empty }
    }
}

/// A coordinate axis that a node can be rotated about.
#[derive(Clone, Copy, Debug, PartialEq, Eq, Structural)]
pub enum Axis {
    X,
    Y,
    Z,
}

/// The axis an axis label names: `x`, `y` or `z`, in either case.
pub open spec fn axis_of(label: Seq<char>) -> Option<Axis> {
    if label == seq!['x'] || label == seq!['X'] {
        Some(Axis::X)
    } else if label == seq!['y'] || label == seq!['Y'] {
        Some(Axis::Y)
    } else if label == seq!['z'] || label == seq!['Z'] {
        Some(Axis::Z)
    } else {
        None
    }
}

/// Reads a rotation axis label; any other label is refused with `None`.
pub fn parse_axis(label: &str) -> (r: Option<Axis>)
    ensures
        r == axis_of(label@),
{
    if label.unicode_len() != 1 {
        return None;
    }
    let c = label.get_char(0);
    proof {
        assert(label@ =~= seq![c]);
    }
    if c == 'x' || c == 'X' {
        Some(Axis::X)
    } else if c == 'y' || c == 'Y' {
        Some(Axis::Y)
    } else if c == 'z' || c == 'Z' {
        Some(Axis::Z)
    } else {
        None
    }
}

/// Why a link between two nodes was refused.
#[derive(Clone, Copy, Debug, PartialEq, Eq, Structural)]
pub enum SceneError {
    /// An id names no node of the scene.
    UnknownNode,
    /// The child already has a parent.
    AlreadyAttached,
    /// The child is the parent itself or one of its ancestors.
    Cycle,
}

/// The node `k` links up from `x` by its parent links, if the walk goes
/// that far.
pub open spec fn ancestor_at(parents: Seq<Option<usize>>, x: int, k: nat) -> Option<int>
    decreases k,
{
    if k == 0 {
        Some(x)
    } else if 0 <= x < parents.len() {
        match parents[x] {
            Some(p) => ancestor_at(parents, p as int, (k - 1) as nat),
            None => None,
        }
    } else {
        None
    }
}

/// Whether node `a` is node `x` or one of its ancestors under the parent
/// links `parents`.
pub open spec fn is_ancestor_in(parents: Seq<Option<usize>>, a: int, x: int) -> bool {
    exists|k: nat| ancestor_at(parents, x, k) == Some(a)
}

/// The node arena of a scene: nodes addressed by their id, linked into a
/// forest whose first node is the root.
pub struct Scene {
    nodes: Vec<SceneNode>,
    parents: Vec<Option<usize>>,
    root_node: usize,
    depth: Ghost<Seq<nat>>,
}

impl Scene {
    /// Number of nodes.
    pub closed spec fn node_count(&self) -> nat {
        self.nodes@.len()
    }

    /// The children of each node, in the order they were added.
    pub closed spec fn children_spec(&self) -> Seq<Seq<usize>> {
        Seq::new(self.nodes@.len(), |i: int| self.nodes@[i].children@)
    }

    /// The parent of each node, if it has one.
    pub closed spec fn parents_spec(&self) -> Seq<Option<usize>> {
        self.parents@
    }

    /// The name and primitive of each node.
    pub closed spec fn labels_spec(&self) -> Seq<(Seq<char>, Primitive)> {
        Seq::new(self.nodes@.len(), |i: int| (self.nodes@[i].name@, self.nodes@[i].primitive))
    }

    /// The arena is well formed: each id is its index, every child id names a
    /// node whose parent is the linking node, no node is listed twice, and a
    /// depth that grows by one along each link shows that no node is its own
    /// ancestor.
    pub closed spec fn wf(&self) -> bool {
        let n = self.nodes@.len();
        &&& self.parents@.len() == n
        &&& self.depth@.len() == n
        &&& self.root_node == 0
        &&& forall|i: int| 0 <= i < n ==> (#[trigger] self.nodes@[i]).id == i
        &&& forall|i: int, k: int|
            0 <= i < n && 0 <= k < self.nodes@[i].children@.len() ==> {
                let c = #[trigger] self.nodes@[i].children@[k];
                &&& c < n
                &&& self.parents@[c as int] == Some(i as usize)
            }
        &&& forall|i: int, k1: int, k2: int|
            0 <= i < n && 0 <= k1 < self.nodes@[i].children@.len() && 0 <= k2
                < self.nodes@[i].children@.len() && #[trigger] self.nodes@[i].children@[k1]
                == #[trigger] self.nodes@[i].children@[k2] ==> k1 == k2
        &&& forall|c: int|
            0 <= c < n ==> match #[trigger] self.parents@[c] {
                Some(p) => {
                    &&& p < n
                    &&& self.nodes@[p as int].children@.contains(c as usize)
                    &&& self.depth@[c] == self.depth@[p as int] + 1
                },
                None => self.depth@[c] == 0,
            }
    }

    /// Whether node `a` is node `x` or one of its ancestors.
    spec fn is_ancestor(&self, a: int, x: int) -> bool
        decreases self.depth@[x],
        when self.wf() && 0 <= x < self.node_count()
    {
        x == a || match self.parents@[x] {
            Some(p) => self.is_ancestor(a, p as int),
            None => false,
        }
    }

    /// What `add_child(parent, child)` refuses, if anything.
    pub open spec fn add_child_error(&self, parent: int, child: int) -> Option<SceneError> {
        if parent >= self.node_count() || child >= self.node_count() {
            Some(SceneError::UnknownNode)
        } else if self.parents_spec()[child] is Some {
            Some(SceneError::AlreadyAttached)
        } else if is_ancestor_in(self.parents_spec(), child, parent) {
            Some(SceneError::Cycle)
        } else {
            None
        }
    }

    /// Under well-formedness every per-node sequence has one entry per node.
    pub proof fn lemma_lengths(&self)
        requires
            self.wf(),
        ensures
            self.children_spec().len() == self.node_count(),
            self.labels_spec().len() == self.node_count(),
            self.parents_spec().len() == self.node_count(),
    {
    }

    /// The private ancestor relation, which recurses on the depth, is the
    /// walk up the parent links.
    proof fn lemma_ancestor_walk(&self, a: int, x: int)
        requires
            self.wf(),
            0 <= x < self.node_count(),
        ensures
            self.is_ancestor(a, x) <==> is_ancestor_in(self.parents@, a, x),
        decreases self.depth@[x],
    {
        let ps = self.parents@;
        if x == a {
            assert(ancestor_at(ps, x, 0) == Some(a));
        } else {
            match ps[x] {
                Some(p) => {
                    self.lemma_ancestor_walk(a, p as int);
                    if is_ancestor_in(ps, a, x) {
                        let k = choose|k: nat| ancestor_at(ps, x, k) == Some(a);
                        assert(k > 0);
                        assert(ancestor_at(ps, p as int, (k - 1) as nat) == Some(a));
                    }
                    if is_ancestor_in(ps, a, p as int) {
                        let k = choose|k: nat| ancestor_at(ps, p as int, k) == Some(a);
                        assert(ancestor_at(ps, x, k + 1) == Some(a));
                    }
                },
                None => {
                    if is_ancestor_in(ps, a, x) {
                        let k = choose|k: nat| ancestor_at(ps, x, k) == Some(a);
                        assert(k > 0);
                    }
                },
            }
        }
    }

    /// An empty scene.
    pub fn new() -> (s: Scene)
        ensures
            s.wf(),
            s.node_count() == 0,
    {
        Scene { nodes: Vec::new(), parents: Vec::new(), root_node: 0, depth: Ghost(Seq::empty()) }
    }

    /// Adds a node named `name` holding the unit sphere, with no parent and no
    /// children; its id is the next index.
    pub fn create_node(&mut self, name: String) -> (id: usize)
        requires
            old(self).wf(),
            old(self).node_count() < usize::MAX,
        ensures
            final(self).wf(),
            id == old(self).node_count(),
            final(self).node_count() == old(self).node_count() + 1,
            final(self).children_spec() == old(self).children_spec().push(Seq::empty()),
            final(self).parents_spec() == old(self).parents_spec().push(None),
            final(self).labels_spec() == old(self).labels_spec().push((name@, Primitive::Sphere)),
    {
        let id = self.nodes.len();
        let ghost name_view = name@;
        let mut node = SceneNode::new(id, name);
        node.primitive = Primitive::Sphere;
        self.nodes.push(node);
        self.parents.push(None);
        self.depth = Ghost(self.depth@.push(0));
        proof {
            assert(self.children_spec() =~= old(self).children_spec().push(Seq::empty()));
            assert(self.labels_spec() =~= old(self).labels_spec().push((name_view, Primitive::Sphere)));
        }
        id
    }
    /// Links `child` under `parent`. Refused, with the scene unchanged, when
    /// an id names no node, when the child already has a parent, or when the
    /// child is the parent or one of its ancestors; so the nodes stay a
    /// forest and no node becomes its own ancestor.
    pub fn add_child(&mut self, parent: usize, child: usize) -> (r: Result<(), SceneError>)
        requires
            old(self).wf(),
        ensures
            final(self).wf(),
            final(self).node_count() == old(self).node_count(),
            r matches Err(e) ==> old(self).add_child_error(parent as int, child as int) == Some(e)
                && *final(self) == *old(self),
            r is Ok ==> {
                &&& old(self).add_child_error(parent as int, child as int) is None
                &&& final(self).children_spec() == old(self).children_spec().update(
                    parent as int,
                    old(self).children_spec()[parent as int].push(child),
                )
                &&& final(self).parents_spec() == old(self).parents_spec().update(
                    child as int,
                    Some(parent),
                )
                &&& final(self).labels_spec() == old(self).labels_spec()
            },
    {
        if parent >= self.nodes.len() || child >= self.nodes.len() {
            return Err(SceneError::UnknownNode);
        }
        if self.parents[child].is_some() {
            return Err(SceneError::AlreadyAttached);
        }
        proof {
            self.lemma_ancestor_walk(child as int, parent as int);
        }
        let mut cur: usize = parent;
        loop
            invariant
                self.wf(),
                cur < self.nodes@.len(),
                child < self.nodes@.len(),
                *self == *old(self),
                parent < self.nodes@.len(),
                self.parents@[child as int] is None,
                self.is_ancestor(child as int, parent as int) == is_ancestor_in(
                    self.parents@,
                    child as int,
                    parent as int,
                ),
                self.is_ancestor(child as int, parent as int) == self.is_ancestor(
                    child as int,
                    cur as int,
                ),
            ensures
                !self.is_ancestor(child as int, parent as int),
            decreases self.depth@[cur as int],
        {
            if cur == child {
                assert(self.is_ancestor(child as int, cur as int));
                return Err(SceneError::Cycle);
            }
            match self.parents[cur] {
                Some(p) => {
                    cur = p;
                },
                None => {
                    assert(!self.is_ancestor(child as int, cur as int));
                    break ;
                },
            }
        }
        let ghost old_self = *self;
        let ghost dp = self.depth@[parent as int];
        let ghost new_depth = Seq::new(
            self.depth@.len(),
            |x: int|
                if old_self.is_ancestor(child as int, x) {
                    old_self.depth@[x] + dp + 1
                } else {
                    old_self.depth@[x]
                },
        );
        self.nodes[parent].children.push(child);
        self.parents.set(child, Some(parent));
        self.depth = Ghost(new_depth);
        proof {
            let n = self.nodes@.len();
            assert forall|x: int| 0 <= x < n && x != child && #[trigger] old_self.parents@[x] is Some
                implies old_self.is_ancestor(child as int, x) == old_self.is_ancestor(
                child as int,
                old_self.parents@[x]->Some_0 as int,
            ) by {}
            assert forall|i: int| 0 <= i < n implies (#[trigger] self.nodes@[i]).id == i by {
                assert(old_self.nodes@[i].id == i);
            }
            assert forall|i: int, k: int|
                0 <= i < n && 0 <= k < self.nodes@[i].children@.len() implies {
                    let c = #[trigger] self.nodes@[i].children@[k];
                    &&& c < n
                    &&& self.parents@[c as int] == Some(i as usize)
                } by {
                if i != parent || k < old_self.nodes@[i].children@.len() {
                    let c = old_self.nodes@[i].children@[k];
                    assert(old_self.parents@[c as int] == Some(i as usize));
                }
            }
            assert forall|i: int, k1: int, k2: int|
                0 <= i < n && 0 <= k1 < self.nodes@[i].children@.len() && 0 <= k2
                    < self.nodes@[i].children@.len() && #[trigger] self.nodes@[i].children@[k1]
                    == #[trigger] self.nodes@[i].children@[k2] implies k1 == k2 by {
                let m = old_self.nodes@[i].children@.len();
                if i == parent {
                    if k1 < m {
                        assert(old_self.parents@[old_self.nodes@[i].children@[k1] as int] is Some);
                    }
                    if k2 < m {
                        assert(old_self.parents@[old_self.nodes@[i].children@[k2] as int] is Some);
                    }
                }
            }
            assert forall|c: int| 0 <= c < n implies match #[trigger] self.parents@[c] {
                Some(p) => {
                    &&& p < n
                    &&& self.nodes@[p as int].children@.contains(c as usize)
                    &&& self.depth@[c] == self.depth@[p as int] + 1
                },
                None => self.depth@[c] == 0,
            } by {
                if c == child {
                    assert(self.nodes@[parent as int].children@.last() == child);
                } else {
                    match old_self.parents@[c] {
                        Some(p) => {
                            assert(old_self.nodes@[p as int].children@.contains(c as usize));
                            if p == parent {
                                let k = choose|k: int|
                                    0 <= k < old_self.nodes@[p as int].children@.len()
                                        && old_self.nodes@[p as int].children@[k] == c as usize;
                                assert(self.nodes@[p as int].children@[k] == c as usize);
                            }
                        },
                        None => {},
                    }
                }
            }
            assert(self.children_spec() =~= old_self.children_spec().update(
                parent as int,
                old_self.children_spec()[parent as int].push(child),
            ));
            assert(self.labels_spec() =~= old_self.labels_spec());
        }
        Ok(())
    }
    /// Number of nodes.
    pub fn num_nodes(&self) -> (n: usize)
        ensures
            n == self.node_count(),
    {
        self.nodes.len()
    }

    /// The root node: the first node created, if there is one.
    pub fn root(&self) -> (r: Option<usize>)
        requires
            self.wf(),
        ensures
            r is None <==> self.node_count() == 0,
            r matches Some(id) ==> id == 0,
    {
        if self.nodes.len() == 0 {
            None
        } else {
            Some(self.root_node)
        }
    }

    /// The node with id `id`.
    pub fn node(&self, id: usize) -> (n: &SceneNode)
        requires
            self.wf(),
            id < self.node_count(),
        ensures
            n.id == id,
            n.children@ == self.children_spec()[id as int],
            (n.name@, n.primitive) == self.labels_spec()[id as int],
    {
        &self.nodes[id]
    }

    /// The parent of node `id`, if it has one.
    pub fn parent(&self, id: usize) -> (p: Option<usize>)
        requires
            self.wf(),
            id < self.node_count(),
        ensures
            p == self.parents_spec()[id as int],
    {
        self.parents[id]
    }
}

} // verus!
